use vstd::prelude::*;
use vstd::string::StringExecFns;
use crate::cache::browser_data::{BrowserDataCache, TabData, TabField, keeps_other_fields};
use crate::types::browser::{BrowserTab, ConsoleMessage, NetworkRequest, PageContent, clone_bytes};
use crate::types::errors::BrowserMcpError;
use crate::types::mcp::{McpContent, base64_fits, base64_standard_of};
use crate::types::messages::{BrowserRequest, BrowserResponse, DataUpdateEvent, DataUpdateType};

verus! {

/// The tab a tool works on when the caller names none. There is no tracking of
/// the browser's current tab.
pub const DEFAULT_TAB_ID: u32 = 1;

/// Cached page content younger than this many milliseconds is served as is.
pub const PAGE_CONTENT_MAX_AGE_MS: u64 = 30000;

pub const DEFAULT_CONSOLE_LIMIT: u64 = 100;

pub const DEFAULT_NETWORK_LIMIT: u64 = 50;

pub const DEFAULT_DOM_DEPTH: u64 = 10;

/// The tools offered to the agent.
#[derive(Debug, Clone, Copy, PartialEq, Eq, Structural)]
pub enum ToolName {
    GetPageContent,
    GetDomSnapshot,
    ExecuteJavascript,
    GetConsoleMessages,
    GetNetworkRequests,
    CaptureScreenshot,
    GetPerformanceMetrics,
    GetAccessibilityTree,
    GetBrowserTabs,
    AttachDebugger,
    DetachDebugger,
}

/// The arguments of a tool call, as the agent gave them. `tab_id` is `tabId`
/// and `tab_id_alt` is `tab_id`, each when it is an unsigned integer; `quality`
/// and `clip` are JSON text.
pub struct ToolArgs {
    pub tab_id: Option<u64>,
    pub tab_id_alt: Option<u64>,
    pub include_metadata: Option<bool>,
    pub max_depth: Option<u64>,
    pub include_styles: Option<bool>,
    pub code: Option<String>,
    pub return_by_value: Option<bool>,
    pub level_filter: Option<String>,
    pub limit: Option<u64>,
    pub include_bodies: Option<bool>,
    pub format: Option<String>,
    pub quality: Option<String>,
    pub clip: Option<String>,
}

/// What a finished tool call hands back.
pub enum ToolOutput {
    PageContent { content: PageContent, include_metadata: bool },
    /// The snapshot is now cached for the tab.
    DomSnapshot { tab_id: u32 },
    JavaScriptResult(String),
    ConsoleMessages(Vec<ConsoleMessage>),
    NetworkRequests(Vec<NetworkRequest>),
    Screenshot(McpContent),
    PerformanceMetrics(String),
    AccessibilityTree(String),
    BrowserTabs(Vec<BrowserTab>),
    Debugger { success: bool, tab_id: u32, attached: bool },
}

/// What a call still needs once its request is answered.
pub struct PendingTool {
    pub tool: ToolName,
    pub tab_id: u32,
    pub include_metadata: bool,
    pub format: String,
}

/// The next step of a tool call.
pub enum ToolStep {
    /// Answered from the cache.
    Done(ToolOutput),
    /// Send `request` to the extension bound to `pending.tab_id`, then finish with
    /// `complete_tool_call`.
    Send { request: BrowserRequest, pending: PendingTool },
}

/// The tab a call names: `tabId`, else `tab_id`, truncated to 32 bits; else the default.
pub open spec fn tab_of(args: ToolArgs) -> u32 {
    match args.tab_id {
        Some(t) => t as u32,
        None => match args.tab_id_alt {
            Some(t) => t as u32,
            None => DEFAULT_TAB_ID,
        },
    }
}

pub fn resolve_tab_id(args: &ToolArgs) -> (r: u32)
    ensures
        r == tab_of(*args),
{
    match args.tab_id {
        Some(t) => t as u32,
        None => match args.tab_id_alt {
            Some(t) => t as u32,
            None => DEFAULT_TAB_ID,
        },
    }
}

/// Whether a console entry passes the level filter.
pub open spec fn level_matches(level: Option<String>, m: ConsoleMessage) -> bool {
    match level {
        Some(l) => m.level@ == l@,
        None => true,
    }
}

/// The entries of `msgs` that pass the filter, at most `limit` of them, oldest first.
pub open spec fn select_console(msgs: Seq<ConsoleMessage>, level: Option<String>, limit: nat) -> Seq<ConsoleMessage> {
    let f = msgs.filter(|m: ConsoleMessage| level_matches(level, m));
    f.take(if limit < f.len() { limit as int } else { f.len() as int })
}

/// Keeps the entries that pass `level`, then the first `limit` of those.
pub fn filter_console(msgs: &Vec<ConsoleMessage>, level: &Option<String>, limit: usize) -> (r: Vec<ConsoleMessage>)
    ensures
        r@ == select_console(msgs@, *level, limit as nat),
{
    let ghost p = |m: ConsoleMessage| level_matches(*level, m);
    let mut out: Vec<ConsoleMessage> = Vec::new();
    let mut i: usize = 0;
    while i < msgs.len()
        invariant
            i <= msgs@.len(),
            p == (|m: ConsoleMessage| level_matches(*level, m)),
            out@ == select_console(msgs@.subrange(0, i as int), *level, limit as nat),
        decreases msgs@.len() - i,
    {
        let ghost prefix = msgs@.subrange(0, i as int);
        proof {
            let nxt = msgs@.subrange(0, i + 1);
            assert(nxt.drop_last() =~= prefix);
            assert(nxt.last() == msgs@[i as int]);
            reveal(Seq::filter);
            assert(nxt.filter(p) == if p(nxt.last()) {
                prefix.filter(p).push(nxt.last())
            } else {
                prefix.filter(p)
            });
        }
        let m = &msgs[i];
        let pass = match level {
            Some(l) => m.level == *l,
            None => true,
        };
        if pass && out.len() < limit {
            out.push(m.clone());
        }
        i = i + 1;
        assert(out@ =~= select_console(msgs@.subrange(0, i as int), *level, limit as nat));
    }
    assert(msgs@.subrange(0, i as int) =~= msgs@);
    out
}

/// Maps a tool's name to the tool.
pub fn tool_from_name(name: &str) -> (r: Option<ToolName>)
    ensures
        r == tool_named(name@),
{
    let n = String::from_str(name);
    if n == String::from_str("get_page_content") {
        Some(ToolName::GetPageContent)
    } else if n == String::from_str("get_dom_snapshot") {
        Some(ToolName::GetDomSnapshot)
    } else if n == String::from_str("execute_javascript") {
        Some(ToolName::ExecuteJavascript)
    } else if n == String::from_str("get_console_messages") {
        Some(ToolName::GetConsoleMessages)
    } else if n == String::from_str("get_network_requests") {
        Some(ToolName::GetNetworkRequests)
    } else if n == String::from_str("capture_screenshot") {
        Some(ToolName::CaptureScreenshot)
    } else if n == String::from_str("get_performance_metrics") {
        Some(ToolName::GetPerformanceMetrics)
    } else if n == String::from_str("get_accessibility_tree") {
        Some(ToolName::GetAccessibilityTree)
    } else if n == String::from_str("get_browser_tabs") {
        Some(ToolName::GetBrowserTabs)
    } else if n == String::from_str("attach_debugger") {
        Some(ToolName::AttachDebugger)
    } else if n == String::from_str("detach_debugger") {
        Some(ToolName::DetachDebugger)
    } else {
        None
    }
}

pub open spec fn tool_named(n: Seq<char>) -> Option<ToolName> {
    if n == "get_page_content"@ {
        Some(ToolName::GetPageContent)
    } else if n == "get_dom_snapshot"@ {
        Some(ToolName::GetDomSnapshot)
    } else if n == "execute_javascript"@ {
        Some(ToolName::ExecuteJavascript)
    } else if n == "get_console_messages"@ {
        Some(ToolName::GetConsoleMessages)
    } else if n == "get_network_requests"@ {
        Some(ToolName::GetNetworkRequests)
    } else if n == "capture_screenshot"@ {
        Some(ToolName::CaptureScreenshot)
    } else if n == "get_performance_metrics"@ {
        Some(ToolName::GetPerformanceMetrics)
    } else if n == "get_accessibility_tree"@ {
        Some(ToolName::GetAccessibilityTree)
    } else if n == "get_browser_tabs"@ {
        Some(ToolName::GetBrowserTabs)
    } else if n == "attach_debugger"@ {
        Some(ToolName::AttachDebugger)
    } else if n == "detach_debugger"@ {
        Some(ToolName::DetachDebugger)
    } else {
        None
    }
}

/// The media type of a screenshot in `format`: JPEG for `jpeg`, PNG otherwise.
pub open spec fn mime_of(format: Seq<char>) -> Seq<char> {
    if format == "jpeg"@ {
        "image/jpeg"@
    } else {
        "image/png"@
    }
}

/// The content held for `t` in `m` is fresh at `now` for the page-content tool.
pub open spec fn fresh_page(m: Map<u32, TabData>, t: u32, now: u64) -> bool {
    m.contains_key(t) && (m[t].page_content matches Some(c) && c.fresh_at(now, PAGE_CONTENT_MAX_AGE_MS))
}

/// Equal in every field, metadata compared as a sequence.
pub open spec fn same_page(a: PageContent, b: PageContent) -> bool {
    &&& a.url == b.url
    &&& a.title == b.title
    &&& a.text == b.text
    &&& a.html == b.html
    &&& a.metadata@ == b.metadata@
    &&& a.last_updated == b.last_updated
}

pub open spec fn limit_or(limit: Option<u64>, default: u64) -> u64 {
    match limit {
        Some(l) => l,
        None => default,
    }
}

/// Sends `request` for `tool` on tab `t`.
pub open spec fn sends(r: Result<ToolStep, BrowserMcpError>, tool: ToolName, t: u32, request: BrowserRequest) -> bool {
    r matches Ok(ToolStep::Send { request: q, pending }) && q == request && pending.tool == tool && pending.tab_id == t
}

/// Decides how to serve a call of `tool`: from the cache when it holds what the
/// tool may serve (page content fresh within thirty seconds; any console or
/// network history), otherwise by a request to the extension. `any_connection`
/// tells whether an extension is connected at all.
pub fn plan_tool_call(cache: &mut BrowserDataCache, tool: ToolName, args: ToolArgs, any_connection: bool, now: u64) -> (r: Result<ToolStep, BrowserMcpError>)
    requires
        old(cache).wf(),
    ensures
        final(cache).wf(),
        final(cache).tabs() == old(cache).tabs(),
        final(cache).tab_order() == old(cache).tab_order(),
        final(cache).bindings() == old(cache).bindings(),
        final(cache).max_size() == old(cache).max_size(),
        final(cache).ttl() == old(cache).ttl(),
        ({
            let t = tab_of(args);
            let tabs = old(cache).tabs();
            match tool {
                ToolName::GetPageContent => {
                    let im = match args.include_metadata { Some(b) => b, None => true };
                    &&& final(cache).counted_lookup(old(cache), t)
                    &&& fresh_page(tabs, t, now) ==> (r matches Ok(ToolStep::Done(ToolOutput::PageContent { content, include_metadata }))
                        && same_page(content, tabs[t].page_content->Some_0) && include_metadata == im)
                    &&& !fresh_page(tabs, t, now) ==> sends(r, tool, t, BrowserRequest::GetPageContent { include_metadata: im })
                        && r->Ok_0->pending.include_metadata == im
                },
                ToolName::GetConsoleMessages => {
                    let limit = limit_or(args.limit, DEFAULT_CONSOLE_LIMIT);
                    &&& final(cache).counted_lookup(old(cache), t)
                    &&& tabs.contains_key(t) ==> (r matches Ok(ToolStep::Done(ToolOutput::ConsoleMessages(v)))
                        && v@ == select_console(tabs[t].console_logs@, args.level_filter, limit as usize as nat))
                    &&& !tabs.contains_key(t) ==> sends(r, tool, t, BrowserRequest::GetConsoleMessages {
                        level_filter: args.level_filter,
                        limit: Some(limit as usize),
                    })
                },
                ToolName::GetNetworkRequests => {
                    let limit = limit_or(args.limit, DEFAULT_NETWORK_LIMIT);
                    &&& final(cache).counted_lookup(old(cache), t)
                    &&& tabs.contains_key(t) ==> (r matches Ok(ToolStep::Done(ToolOutput::NetworkRequests(v)))
                        && v@.len() == vstd::math::min(limit as usize as int, tabs[t].network_data@.len() as int)
                        && forall|i: int| 0 <= i < v@.len() ==> (#[trigger] v@[i]).same_as(&tabs[t].network_data@[i]))
                    &&& !tabs.contains_key(t) ==> sends(r, tool, t, BrowserRequest::GetNetworkRequests {
                        include_bodies: match args.include_bodies { Some(b) => b, None => false },
                        limit: Some(limit as usize),
                    })
                },
                _ => {
                    &&& final(cache).hits() == old(cache).hits()
                    &&& final(cache).misses() == old(cache).misses()
                    &&& match tool {
                        ToolName::GetDomSnapshot => sends(r, tool, t, BrowserRequest::GetDomSnapshot {
                            max_depth: limit_or(args.max_depth, DEFAULT_DOM_DEPTH) as usize,
                            include_styles: match args.include_styles { Some(b) => b, None => false },
                        }),
                        ToolName::ExecuteJavascript => match args.code {
                            Some(code) => sends(r, tool, t, BrowserRequest::ExecuteJavaScript {
                                code,
                                return_by_value: match args.return_by_value { Some(b) => b, None => true },
                            }),
                            None => r matches Err(BrowserMcpError::InvalidParameters { message })
                                && message@ == "Missing required parameter: code"@,
                        },
                        ToolName::CaptureScreenshot => r matches Ok(ToolStep::Send { request: BrowserRequest::CaptureScreenshot { format, quality, clip }, pending })
                            && pending.tool == tool && pending.tab_id == t && pending.format == format
                            && format@ == (match args.format { Some(f) => f@, None => "png"@ })
                            && quality == args.quality && clip == args.clip,
                        ToolName::GetPerformanceMetrics => sends(r, tool, t, BrowserRequest::GetPerformanceMetrics),
                        ToolName::GetAccessibilityTree => sends(r, tool, t, BrowserRequest::GetAccessibilityTree {
                            max_depth: match args.max_depth { Some(d) => Some(d as usize), None => None },
                        }),
                        ToolName::GetBrowserTabs => if any_connection {
                            sends(r, tool, DEFAULT_TAB_ID, BrowserRequest::GetBrowserTabs)
                        } else {
                            r matches Err(BrowserMcpError::InternalError { message }) && message@ == "No active browser connections"@
                        },
                        ToolName::AttachDebugger => match args.tab_id {
                            Some(id) => sends(r, tool, id as u32, BrowserRequest::AttachDebugger),
                            None => r matches Err(BrowserMcpError::InvalidParameters { message })
                                && message@ == "Missing required parameter: tabId"@,
                        },
                        ToolName::DetachDebugger => match args.tab_id {
                            Some(id) => sends(r, tool, id as u32, BrowserRequest::DetachDebugger),
                            None => r matches Err(BrowserMcpError::InvalidParameters { message })
                                && message@ == "Missing required parameter: tabId"@,
                        },
                        _ => true,
                    }
                },
            }
        }),
{
    let t = resolve_tab_id(&args);
    let pending = |tool: ToolName, tab_id: u32| -> (p: PendingTool)
        ensures
            p.tool == tool,
            p.tab_id == tab_id,
            !p.include_metadata,
        { PendingTool { tool, tab_id, include_metadata: false, format: String::new() } };
    match tool {
        ToolName::GetPageContent => {
            let im = match args.include_metadata {
                Some(b) => b,
                None => true,
            };
            match cache.get_page_content(t) {
                Some(c) => {
                    if c.is_fresh_at(now, PAGE_CONTENT_MAX_AGE_MS) {
                        let content = c.clone();
                        return Ok(ToolStep::Done(ToolOutput::PageContent { content, include_metadata: im }));
                    }
                },
                None => {},
            }
            Ok(ToolStep::Send {
                request: BrowserRequest::GetPageContent { include_metadata: im },
                pending: PendingTool { tool, tab_id: t, include_metadata: im, format: String::new() },
            })
        },
        ToolName::GetConsoleMessages => {
            let limit = match args.limit {
                Some(l) => l,
                None => DEFAULT_CONSOLE_LIMIT,
            };
            match cache.get_console_logs(t) {
                Some(msgs) => {
                    let v = filter_console(&msgs, &args.level_filter, limit as usize);
                    Ok(ToolStep::Done(ToolOutput::ConsoleMessages(v)))
                },
                None => Ok(ToolStep::Send {
                    request: BrowserRequest::GetConsoleMessages { level_filter: args.level_filter, limit: Some(limit as usize) },
                    pending: pending(tool, t),
                }),
            }
        },
        ToolName::GetNetworkRequests => {
            let limit = match args.limit {
                Some(l) => l,
                None => DEFAULT_NETWORK_LIMIT,
            };
            let include_bodies = match args.include_bodies {
                Some(b) => b,
                None => false,
            };
            match cache.get_network_requests(t) {
                Some(reqs) => {
                    let mut v = reqs;
                    v.truncate(limit as usize);
                    Ok(ToolStep::Done(ToolOutput::NetworkRequests(v)))
                },
                None => Ok(ToolStep::Send {
                    request: BrowserRequest::GetNetworkRequests { include_bodies, limit: Some(limit as usize) },
                    pending: pending(tool, t),
                }),
            }
        },
        ToolName::GetDomSnapshot => {
            let max_depth = match args.max_depth {
                Some(d) => d,
                None => DEFAULT_DOM_DEPTH,
            };
            let include_styles = match args.include_styles {
                Some(b) => b,
                None => false,
            };
            Ok(ToolStep::Send {
                request: BrowserRequest::GetDomSnapshot { max_depth: max_depth as usize, include_styles },
                pending: pending(tool, t),
            })
        },
        ToolName::ExecuteJavascript => {
            let return_by_value = match args.return_by_value {
                Some(b) => b,
                None => true,
            };
            match args.code {
                Some(code) => Ok(ToolStep::Send {
                    request: BrowserRequest::ExecuteJavaScript { code, return_by_value },
                    pending: pending(tool, t),
                }),
                None => Err(BrowserMcpError::InvalidParameters {
                    message: String::from_str("Missing required parameter: code"),
                }),
            }
        },
        ToolName::CaptureScreenshot => {
            let format = match args.format {
                Some(f) => f,
                None => String::from_str("png"),
            };
            let kept = format.clone();
            Ok(ToolStep::Send {
                request: BrowserRequest::CaptureScreenshot { format, quality: args.quality, clip: args.clip },
                pending: PendingTool { tool, tab_id: t, include_metadata: false, format: kept },
            })
        },
        ToolName::GetPerformanceMetrics => Ok(ToolStep::Send {
            request: BrowserRequest::GetPerformanceMetrics,
            pending: pending(tool, t),
        }),
        ToolName::GetAccessibilityTree => {
            let max_depth = match args.max_depth {
                Some(d) => Some(d as usize),
                None => None,
            };
            Ok(ToolStep::Send {
                request: BrowserRequest::GetAccessibilityTree { max_depth },
                pending: pending(tool, t),
            })
        },
        ToolName::GetBrowserTabs => {
            if !any_connection {
                return Err(BrowserMcpError::InternalError {
                    message: String::from_str("No active browser connections"),
                });
            }
            Ok(ToolStep::Send { request: BrowserRequest::GetBrowserTabs, pending: pending(tool, DEFAULT_TAB_ID) })
        },
        ToolName::AttachDebugger => match args.tab_id {
            Some(id) => Ok(ToolStep::Send { request: BrowserRequest::AttachDebugger, pending: pending(tool, id as u32) }),
            None => Err(BrowserMcpError::InvalidParameters {
                message: String::from_str("Missing required parameter: tabId"),
            }),
        },
        ToolName::DetachDebugger => match args.tab_id {
            Some(id) => Ok(ToolStep::Send { request: BrowserRequest::DetachDebugger, pending: pending(tool, id as u32) }),
            None => Err(BrowserMcpError::InvalidParameters {
                message: String::from_str("Missing required parameter: tabId"),
            }),
        },
    }
}

/// `c` after a write of field `f` at `now` to tab `t`, the field's new value
/// aside: the record exists, other tabs are untouched, the rest is carried over.
pub open spec fn written(old: &BrowserDataCache, new: &BrowserDataCache, t: u32, f: TabField, now: u64) -> bool {
    &&& new.tabs() == old.tabs().insert(t, new.tabs()[t])
    &&& keeps_other_fields(old.tabs(), t, new.tabs()[t], f)
    &&& new.tabs()[t].last_updated == now
}

pub open spec fn unexpected(r: Result<ToolOutput, BrowserMcpError>) -> bool {
    r matches Err(BrowserMcpError::InternalError { message }) && message@ == "Unexpected response type"@
}

/// Finishes a call once its request is answered: a response of the kind the
/// tool asked for is written back to the cache where the tool caches it and
/// handed out; any other kind is a protocol error; an error passes through.
pub fn complete_tool_call(
    cache: &mut BrowserDataCache,
    pending: PendingTool,
    response: Result<BrowserResponse, BrowserMcpError>,
    now: u64,
) -> (r: Result<ToolOutput, BrowserMcpError>)
    requires
        old(cache).wf(),
        response matches Ok(BrowserResponse::Screenshot(shot)) ==> base64_fits(shot.data@.len()),
    ensures
        final(cache).wf(),
        final(cache).same_bindings_and_counts(old(cache)),
        ({
            let t = pending.tab_id;
            let unchanged = final(cache).tabs() == old(cache).tabs();
            match response {
                Err(e) => unchanged && r == Err::<ToolOutput, BrowserMcpError>(e),
                Ok(resp) => match (pending.tool, resp) {
                    (ToolName::GetPageContent, BrowserResponse::PageContent(c)) => {
                        &&& written(old(cache), final(cache), t, TabField::PageContent, now)
                        &&& final(cache).tabs()[t].page_content == Some(c)
                        &&& r matches Ok(ToolOutput::PageContent { content, include_metadata })
                        &&& same_page(content, c)
                        &&& include_metadata == pending.include_metadata
                    },
                    (ToolName::GetDomSnapshot, BrowserResponse::DomSnapshot(d)) => {
                        &&& written(old(cache), final(cache), t, TabField::DomSnapshot, now)
                        &&& final(cache).tabs()[t].dom_snapshot == Some(d)
                        &&& r == Ok::<ToolOutput, BrowserMcpError>(ToolOutput::DomSnapshot { tab_id: t })
                    },
                    (ToolName::CaptureScreenshot, BrowserResponse::Screenshot(shot)) => {
                        &&& written(old(cache), final(cache), t, TabField::Screenshot, now)
                        &&& final(cache).tabs()[t].screenshot_data == Some(shot)
                        &&& r matches Ok(ToolOutput::Screenshot(McpContent::Image { data, mime_type }))
                        &&& data@ == base64_standard_of(shot.data@)
                        &&& mime_type@ == mime_of(pending.format@)
                    },
                    (ToolName::GetPerformanceMetrics, BrowserResponse::PerformanceMetrics(m)) => {
                        &&& written(old(cache), final(cache), t, TabField::PerformanceMetrics, now)
                        &&& final(cache).tabs()[t].performance_metrics == Some(m)
                        &&& r == Ok::<ToolOutput, BrowserMcpError>(ToolOutput::PerformanceMetrics(m))
                    },
                    (ToolName::GetAccessibilityTree, BrowserResponse::AccessibilityTree(a)) => {
                        &&& written(old(cache), final(cache), t, TabField::AccessibilityTree, now)
                        &&& final(cache).tabs()[t].accessibility_tree == Some(a)
                        &&& r == Ok::<ToolOutput, BrowserMcpError>(ToolOutput::AccessibilityTree(a))
                    },
                    (ToolName::ExecuteJavascript, BrowserResponse::JavaScriptResult(j)) =>
                        unchanged && r == Ok::<ToolOutput, BrowserMcpError>(ToolOutput::JavaScriptResult(j)),
                    (ToolName::GetConsoleMessages, BrowserResponse::ConsoleMessages(v)) =>
                        unchanged && r == Ok::<ToolOutput, BrowserMcpError>(ToolOutput::ConsoleMessages(v)),
                    (ToolName::GetNetworkRequests, BrowserResponse::NetworkRequests(v)) =>
                        unchanged && r == Ok::<ToolOutput, BrowserMcpError>(ToolOutput::NetworkRequests(v)),
                    (ToolName::GetBrowserTabs, BrowserResponse::BrowserTabs(v)) =>
                        unchanged && r == Ok::<ToolOutput, BrowserMcpError>(ToolOutput::BrowserTabs(v)),
                    (ToolName::AttachDebugger, BrowserResponse::DebuggerAttached { success }) => {
                        &&& r == Ok::<ToolOutput, BrowserMcpError>(ToolOutput::Debugger { success, tab_id: t, attached: true })
                        &&& (success && old(cache).tabs().contains_key(t)) ==> written(old(cache), final(cache), t, TabField::Debugger, now)
                            && final(cache).tabs()[t].debugger_attached
                        &&& !(success && old(cache).tabs().contains_key(t)) ==> unchanged
                    },
                    (ToolName::DetachDebugger, BrowserResponse::DebuggerDetached { success }) => {
                        &&& r == Ok::<ToolOutput, BrowserMcpError>(ToolOutput::Debugger { success, tab_id: t, attached: false })
                        &&& (success && old(cache).tabs().contains_key(t)) ==> written(old(cache), final(cache), t, TabField::Debugger, now)
                            && !final(cache).tabs()[t].debugger_attached
                        &&& !(success && old(cache).tabs().contains_key(t)) ==> unchanged
                    },
                    _ => unchanged && unexpected(r),
                },
            }
        }),
{
    let t = pending.tab_id;
    let resp = match response {
        Err(e) => {
            return Err(e);
        },
        Ok(resp) => resp,
    };
    match (pending.tool, resp) {
        (ToolName::GetPageContent, BrowserResponse::PageContent(c)) => {
            let content = c.clone();
            cache.update_page_content(t, c, now);
            Ok(ToolOutput::PageContent { content, include_metadata: pending.include_metadata })
        },
        (ToolName::GetDomSnapshot, BrowserResponse::DomSnapshot(d)) => {
            cache.update_dom_snapshot(t, d, now);
            Ok(ToolOutput::DomSnapshot { tab_id: t })
        },
        (ToolName::CaptureScreenshot, BrowserResponse::Screenshot(shot)) => {
            let data = clone_bytes(&shot.data);
            cache.update_screenshot(t, shot, now);
            let jpeg = String::from_str("jpeg");
            let mime = if pending.format == jpeg {
                "image/jpeg"
            } else {
                "image/png"
            };
            Ok(ToolOutput::Screenshot(McpContent::image(data, mime)))
        },
        (ToolName::GetPerformanceMetrics, BrowserResponse::PerformanceMetrics(m)) => {
            let kept = m.clone();
            cache.update_performance_metrics(t, m, now);
            Ok(ToolOutput::PerformanceMetrics(kept))
        },
        (ToolName::GetAccessibilityTree, BrowserResponse::AccessibilityTree(a)) => {
            let kept = a.clone();
            cache.update_accessibility_tree(t, a, now);
            Ok(ToolOutput::AccessibilityTree(kept))
        },
        (ToolName::ExecuteJavascript, BrowserResponse::JavaScriptResult(j)) => Ok(ToolOutput::JavaScriptResult(j)),
        (ToolName::GetConsoleMessages, BrowserResponse::ConsoleMessages(v)) => Ok(ToolOutput::ConsoleMessages(v)),
        (ToolName::GetNetworkRequests, BrowserResponse::NetworkRequests(v)) => Ok(ToolOutput::NetworkRequests(v)),
        (ToolName::GetBrowserTabs, BrowserResponse::BrowserTabs(v)) => Ok(ToolOutput::BrowserTabs(v)),
        (ToolName::AttachDebugger, BrowserResponse::DebuggerAttached { success }) => {
            if success {
                cache.set_debugger_attached(t, true, now);
            }
            Ok(ToolOutput::Debugger { success, tab_id: t, attached: true })
        },
        (ToolName::DetachDebugger, BrowserResponse::DebuggerDetached { success }) => {
            if success {
                cache.set_debugger_attached(t, false, now);
            }
            Ok(ToolOutput::Debugger { success, tab_id: t, attached: false })
        },
        _ => Err(BrowserMcpError::InternalError { message: String::from_str("Unexpected response type") }),
    }
}

/// The change event a successful call of `tool` on `tab_id` at `now` makes in
/// the cache: the tools that write back announce what they wrote; the others
/// (and the debugger tools, whose flag is no event) announce nothing.
pub fn event_for(tool: ToolName, tab_id: u32, now: u64) -> (r: Option<DataUpdateEvent>)
    ensures
        r == match tool {
            ToolName::GetPageContent => Some(DataUpdateEvent { tab_id, update_type: DataUpdateType::PageContentUpdated, timestamp: now }),
            ToolName::GetDomSnapshot => Some(DataUpdateEvent { tab_id, update_type: DataUpdateType::DomSnapshotUpdated, timestamp: now }),
            ToolName::CaptureScreenshot => Some(DataUpdateEvent { tab_id, update_type: DataUpdateType::ScreenshotCaptured, timestamp: now }),
            ToolName::GetPerformanceMetrics => Some(
                DataUpdateEvent { tab_id, update_type: DataUpdateType::PerformanceMetricsUpdated, timestamp: now },
            ),
            ToolName::GetAccessibilityTree => Some(
                DataUpdateEvent { tab_id, update_type: DataUpdateType::AccessibilityTreeUpdated, timestamp: now },
            ),
            _ => None::<DataUpdateEvent>,
        },
{
    let kind = match tool {
        ToolName::GetPageContent => DataUpdateType::PageContentUpdated,
        ToolName::GetDomSnapshot => DataUpdateType::DomSnapshotUpdated,
        ToolName::CaptureScreenshot => DataUpdateType::ScreenshotCaptured,
        ToolName::GetPerformanceMetrics => DataUpdateType::PerformanceMetricsUpdated,
        ToolName::GetAccessibilityTree => DataUpdateType::AccessibilityTreeUpdated,
        _ => {
            return None;
        },
    };
    Some(DataUpdateEvent { tab_id, update_type: kind, timestamp: now })
}

} // verus!
