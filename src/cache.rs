pub mod browser_data;
pub mod keys;
pub mod memory;
