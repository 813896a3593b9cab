//! Request/response correlation and caching core of a bridge between an
//! agent-facing tool protocol and browser-extension clients.
//!
//! The library holds the state and the decisions: the tab-data cache with its
//! bounded histories and eviction, the registry of extension connections, the
//! table of requests awaiting responses, and the dispatch of tool calls between
//! the cache and the extensions. Sockets, tasks, clocks and JSON framing stay
//! with the caller, which hands the library plain values.
pub mod cache;
pub mod clock;
pub mod config;
pub mod server;
pub mod text;
pub mod tools;
pub mod transport;
pub mod types;

pub use cache::browser_data::{BrowserDataCache, TabData};
pub use cache::memory::{MemoryMonitor, RingBuffer, RingBufferIterator};
pub use clock::now_millis;
pub use config::settings::{
    CacheSettings, ConnectionSettings, MonitoringSettings, ServerConfig, ServerSettings,
};
pub use tools::page_content::PageContentTool;
pub use transport::connection::{ConnectionPool, ConnectionStats, WebSocketConnection};
pub use transport::router::MessageRouter;
pub use types::browser::{
    BrowserTab, ConsoleMessage, DomNode, DomSnapshot, MemoryUsage, NetworkRequest, PageContent,
    ScreenshotData,
};
pub use types::errors::BrowserMcpError;
pub use types::mcp::{McpContent, McpResource, McpResourceContent, McpToolResult};
pub use types::messages::{
    BrowserEvent, BrowserMessage, BrowserRequest, BrowserResponse, DataUpdateEvent, DataUpdateType,
};
