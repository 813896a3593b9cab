use vstd::prelude::*;
use crate::types::browser::{BrowserTab, ConsoleMessage, DomSnapshot, NetworkRequest, PageContent, ScreenshotData};

verus! {

/// The envelope exchanged with a browser extension. Identifiers are the 128-bit
/// values of version-4 UUIDs; `Heartbeat::timestamp` is in milliseconds since
/// the Unix epoch.
#[derive(Debug)]
pub enum BrowserMessage {
    Request { request_id: u128, action: BrowserRequest, tab_id: Option<u32> },
    Response { request_id: u128, result: Result<BrowserResponse, String> },
    Notification { event: BrowserEvent },
    Heartbeat { timestamp: i64 },
}

/// An action asked of the extension. `quality` and `clip` of a screenshot are
/// carried as the JSON text the agent gave.
#[derive(Debug, Clone)]
#[allow(inconsistent_fields)]
pub enum BrowserRequest {
    GetPageContent { include_metadata: bool },
    GetDomSnapshot { max_depth: usize, include_styles: bool },
    ExecuteJavaScript { code: String, return_by_value: bool },
    GetConsoleMessages { level_filter: Option<String>, limit: Option<usize> },
    GetNetworkRequests { include_bodies: bool, limit: Option<usize> },
    CaptureScreenshot { format: String, quality: Option<String>, clip: Option<String> },
    GetPerformanceMetrics,
    GetAccessibilityTree { max_depth: Option<usize> },
    GetBrowserTabs,
    AttachDebugger,
    DetachDebugger,
}

/// What the extension answers. Payloads that the bridge only passes on
/// (script results, performance metrics, accessibility trees) are JSON text.
#[derive(Debug)]
pub enum BrowserResponse {
    PageContent(PageContent),
    DomSnapshot(DomSnapshot),
    JavaScriptResult(String),
    ConsoleMessages(Vec<ConsoleMessage>),
    NetworkRequests(Vec<NetworkRequest>),
    Screenshot(ScreenshotData),
    PerformanceMetrics(String),
    AccessibilityTree(String),
    BrowserTabs(Vec<BrowserTab>),
    DebuggerAttached { success: bool },
    DebuggerDetached { success: bool },
    Error { message: String },
}

#[derive(Debug, Clone)]
pub enum BrowserEvent {
    TabCreated { tab: BrowserTab },
    TabUpdated { tab: BrowserTab },
    TabRemoved { tab_id: u32 },
    PageLoaded { tab_id: u32, url: String },
    ConsoleMessage { tab_id: u32, message: ConsoleMessage },
    NetworkRequest { tab_id: u32, request: NetworkRequest },
    ConnectionEstablished { tab_id: u32 },
    ConnectionLost { tab_id: u32 },
}

/// A change to the cached data of one tab. `timestamp` is in milliseconds since
/// the Unix epoch.
#[derive(Debug, Clone, Copy, PartialEq, Eq)]
pub struct DataUpdateEvent {
    pub tab_id: u32,
    pub update_type: DataUpdateType,
    pub timestamp: u64,
}

#[derive(Debug, Clone, Copy, PartialEq, Eq, Structural)]
pub enum DataUpdateType {
    PageContentUpdated,
    DomSnapshotUpdated,
    ConsoleMessageAdded,
    NetworkRequestAdded,
    PerformanceMetricsUpdated,
    AccessibilityTreeUpdated,
    ScreenshotCaptured,
}

} // verus!
