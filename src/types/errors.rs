use vstd::prelude::*;

verus! {

/// Every failure that the bridge can report to a caller.
#[derive(Debug, Clone, PartialEq, Eq)]
pub enum BrowserMcpError {
    ConnectionNotAvailable { tab_id: u32 },
    RequestTimeout { timeout_ms: u64 },
    ConnectionClosed,
    InvalidRequest { message: String },
    BrowserExtensionError { message: String },
    TabNotFound { tab_id: u32 },
    JsonError { message: String },
    WebSocketError { message: String },
    CacheError { message: String },
    ConfigError { message: String },
    NetworkError { message: String },
    InternalError { message: String },
    ResourceNotFound { uri: String },
    MethodNotImplemented { method: String },
    InvalidParameters { message: String },
    PermissionDenied { message: String },
    RateLimitExceeded,
    ServiceUnavailable { message: String },
}

} // verus!
