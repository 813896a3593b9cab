pub mod performance;
pub mod resources;
pub mod rpc;
