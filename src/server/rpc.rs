use vstd::prelude::*;
use vstd::string::StringExecFns;
use crate::tools::dispatch::ToolName;

verus! {

/// JSON-RPC code for a malformed request.
pub const INVALID_REQUEST: i32 = -32600;

/// JSON-RPC code for a failure while serving a request.
pub const INTERNAL_ERROR: i32 = -32603;

/// The methods of the tool protocol that the server answers.
#[derive(Debug, Clone, Copy, PartialEq, Eq, Structural)]
pub enum RpcMethod {
    Initialize,
    ToolsList,
    ToolsCall,
    ResourcesList,
    ResourcesRead,
    Unknown,
}

/// How the HTTP endpoint answers a JSON-RPC request.
#[derive(Debug, Clone, Copy, PartialEq, Eq, Structural)]
pub enum RpcRoute {
    /// Refuse with HTTP `status` and JSON-RPC error `code`, echoing the id.
    Reject { status: u16, code: i32 },
    /// A notification: HTTP `status` with an empty body and no id.
    Acknowledge { status: u16 },
    /// Serve the method; HTTP 200 with a result or an internal error.
    Serve(RpcMethod),
}

pub open spec fn method_named(m: Seq<char>) -> RpcMethod {
    if m == "initialize"@ {
        RpcMethod::Initialize
    } else if m == "tools/list"@ {
        RpcMethod::ToolsList
    } else if m == "tools/call"@ {
        RpcMethod::ToolsCall
    } else if m == "resources/list"@ {
        RpcMethod::ResourcesList
    } else if m == "resources/read"@ {
        RpcMethod::ResourcesRead
    } else {
        RpcMethod::Unknown
    }
}

/// Routes a request by its `method`, when it has one as a string.
pub fn route_request(method: Option<&str>) -> (r: RpcRoute)
    ensures
        method is None ==> r == (RpcRoute::Reject { status: 400, code: INVALID_REQUEST }),
        method matches Some(m) ==> r == if m@ == "notifications/initialized"@ {
            RpcRoute::Acknowledge { status: 200 }
        } else {
            RpcRoute::Serve(method_named(m@))
        },
{
    match method {
        None => RpcRoute::Reject { status: 400, code: INVALID_REQUEST },
        Some(m) => {
            let s = String::from_str(m);
            if s == String::from_str("notifications/initialized") {
                RpcRoute::Acknowledge { status: 200 }
            } else if s == String::from_str("initialize") {
                RpcRoute::Serve(RpcMethod::Initialize)
            } else if s == String::from_str("tools/list") {
                RpcRoute::Serve(RpcMethod::ToolsList)
            } else if s == String::from_str("tools/call") {
                RpcRoute::Serve(RpcMethod::ToolsCall)
            } else if s == String::from_str("resources/list") {
                RpcRoute::Serve(RpcMethod::ResourcesList)
            } else if s == String::from_str("resources/read") {
                RpcRoute::Serve(RpcMethod::ResourcesRead)
            } else {
                RpcRoute::Serve(RpcMethod::Unknown)
            }
        },
    }
}

/// What `initialize` reports about the server.
pub struct ServerInfo {
    pub protocol_version: String,
    pub name: String,
    pub version: String,
}

pub fn server_info() -> (r: ServerInfo)
    ensures
        r.protocol_version@ == "2024-11-05"@,
        r.name@ == "browser-mcp-rust-server"@,
        r.version@ == "1.0.0"@,
{
    ServerInfo {
        protocol_version: String::from_str("2024-11-05"),
        name: String::from_str("browser-mcp-rust-server"),
        version: String::from_str("1.0.0"),
    }
}

/// The wire name of a tool.
pub open spec fn tool_name_spec(t: ToolName) -> Seq<char> {
    match t {
        ToolName::GetPageContent => "get_page_content"@,
        ToolName::GetDomSnapshot => "get_dom_snapshot"@,
        ToolName::ExecuteJavascript => "execute_javascript"@,
        ToolName::GetConsoleMessages => "get_console_messages"@,
        ToolName::GetNetworkRequests => "get_network_requests"@,
        ToolName::CaptureScreenshot => "capture_screenshot"@,
        ToolName::GetPerformanceMetrics => "get_performance_metrics"@,
        ToolName::GetAccessibilityTree => "get_accessibility_tree"@,
        ToolName::GetBrowserTabs => "get_browser_tabs"@,
        ToolName::AttachDebugger => "attach_debugger"@,
        ToolName::DetachDebugger => "detach_debugger"@,
    }
}

pub fn tool_name(t: ToolName) -> (r: &'static str)
    ensures
        r@ == tool_name_spec(t),
{
    match t {
        ToolName::GetPageContent => "get_page_content",
        ToolName::GetDomSnapshot => "get_dom_snapshot",
        ToolName::ExecuteJavascript => "execute_javascript",
        ToolName::GetConsoleMessages => "get_console_messages",
        ToolName::GetNetworkRequests => "get_network_requests",
        ToolName::CaptureScreenshot => "capture_screenshot",
        ToolName::GetPerformanceMetrics => "get_performance_metrics",
        ToolName::GetAccessibilityTree => "get_accessibility_tree",
        ToolName::GetBrowserTabs => "get_browser_tabs",
        ToolName::AttachDebugger => "attach_debugger",
        ToolName::DetachDebugger => "detach_debugger",
    }
}

/// The tools `tools/list` announces, in the order it lists them.
pub open spec fn listed_tools_spec() -> Seq<ToolName> {
    seq![
        ToolName::GetPageContent,
        ToolName::GetDomSnapshot,
        ToolName::ExecuteJavascript,
        ToolName::GetConsoleMessages,
        ToolName::GetNetworkRequests,
        ToolName::CaptureScreenshot,
        ToolName::GetPerformanceMetrics,
        ToolName::GetAccessibilityTree,
        ToolName::GetBrowserTabs,
        ToolName::AttachDebugger,
        ToolName::DetachDebugger,
    ]
}

pub fn listed_tools() -> (r: Vec<ToolName>)
    ensures
        r@ == listed_tools_spec(),
{
    let mut v: Vec<ToolName> = Vec::new();
    v.push(ToolName::GetPageContent);
    v.push(ToolName::GetDomSnapshot);
    v.push(ToolName::ExecuteJavascript);
    v.push(ToolName::GetConsoleMessages);
    v.push(ToolName::GetNetworkRequests);
    v.push(ToolName::CaptureScreenshot);
    v.push(ToolName::GetPerformanceMetrics);
    v.push(ToolName::GetAccessibilityTree);
    v.push(ToolName::GetBrowserTabs);
    v.push(ToolName::AttachDebugger);
    v.push(ToolName::DetachDebugger);
    assert(v@ =~= listed_tools_spec());
    v
}

} // verus!
