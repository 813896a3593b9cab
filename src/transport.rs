pub mod browser;
pub mod connection;
pub mod request;
pub mod router;
