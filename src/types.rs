pub mod browser;
pub mod errors;
pub mod mcp;
pub mod messages;
