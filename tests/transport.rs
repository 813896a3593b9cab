use browser_mcp_rust_server::tools::dispatch::{
    complete_tool_call, plan_tool_call, ToolArgs, ToolName, ToolOutput, ToolStep,
};
use browser_mcp_rust_server::transport::connection::{FrameAction, InboundFrame, LooseMessage};
use browser_mcp_rust_server::transport::router::{finish_request, SlotOutcome, REQUEST_TIMEOUT_MS};
use browser_mcp_rust_server::{
    BrowserDataCache, BrowserEvent, BrowserMcpError, BrowserMessage, BrowserRequest,
    BrowserResponse, ConnectionPool, McpContent, PageContent, ScreenshotData,
};

fn args_for(tab: u64) -> ToolArgs {
    ToolArgs {
        tab_id: Some(tab),
        tab_id_alt: None,
        include_metadata: None,
        max_depth: None,
        include_styles: None,
        code: None,
        return_by_value: None,
        level_filter: None,
        limit: None,
        include_bodies: None,
        format: None,
        quality: None,
        clip: None,
    }
}

fn bind(pool: &mut ConnectionPool, conn: u128, tab: u32, now: u64) {
    let frame = InboundFrame::Message(BrowserMessage::Notification {
        event: BrowserEvent::ConnectionEstablished { tab_id: tab },
    });
    assert!(matches!(pool.handle_message(conn, frame, now), Ok(FrameAction::Nothing)));
}

#[test]
fn slow_path_correlates_response_and_writes_cache() {
    let mut cache = BrowserDataCache::new(10, 3_600_000);
    let mut pool = ConnectionPool::new(30_000, 300_000);
    assert!(pool.accept_connection(11, 0, None));
    bind(&mut pool, 11, 9, 0);

    let step = plan_tool_call(&mut cache, ToolName::GetPageContent, args_for(9), true, 10).unwrap();
    let (request, pending) = match step {
        ToolStep::Send { request, pending } => (request, pending),
        _ => panic!("expected a request to the extension"),
    };
    assert!(matches!(request, BrowserRequest::GetPageContent { include_metadata: true }));
    let request_id: u128 = 0xabcdef;
    assert_eq!(pool.prepare_request(9, request_id, 10), Ok(11));

    let content = PageContent {
        url: "https://example.com".to_string(),
        title: "Loaded".to_string(),
        text: "body".to_string(),
        html: "<p>body</p>".to_string(),
        metadata: vec![],
        last_updated: 20,
    };
    let frame = InboundFrame::Message(BrowserMessage::Response {
        request_id,
        result: Ok(BrowserResponse::PageContent(content)),
    });
    let completion = match pool.handle_message(11, frame, 20) {
        Ok(FrameAction::Complete(id, c)) => {
            assert_eq!(id, request_id);
            c
        }
        _ => panic!("expected the pending call to complete"),
    };
    match complete_tool_call(&mut cache, pending, completion, 20) {
        Ok(ToolOutput::PageContent { content, .. }) => assert_eq!(content.title, "Loaded"),
        _ => panic!("expected page content"),
    }
    assert_eq!(cache.get_page_content(9).unwrap().title, "Loaded");

    // A repeated response completes nothing.
    let again = InboundFrame::Message(BrowserMessage::Response {
        request_id,
        result: Err("late".to_string()),
    });
    assert!(matches!(pool.handle_message(11, again, 21), Ok(FrameAction::Nothing)));
}

#[test]
fn no_bound_connection_fails_at_once() {
    let mut pool = ConnectionPool::new(30_000, 300_000);
    assert!(pool.accept_connection(1, 0, None));
    assert_eq!(
        pool.prepare_request(42, 7, 0),
        Err(BrowserMcpError::ConnectionNotAvailable { tab_id: 42 })
    );
}

#[test]
fn unanswered_request_times_out() {
    let mut pool = ConnectionPool::new(30_000, 300_000);
    assert!(pool.accept_connection(1, 0, None));
    bind(&mut pool, 1, 42, 0);
    assert_eq!(pool.prepare_request(42, 99, 1_000), Ok(1));
    assert!(pool.expire_requests(1_000 + REQUEST_TIMEOUT_MS - 1).is_empty());
    assert_eq!(pool.expire_requests(1_000 + REQUEST_TIMEOUT_MS), vec![99]);
    assert!(pool.handle_response(99, Err("late".to_string())).is_none());
    assert!(matches!(
        finish_request(SlotOutcome::TimedOut, REQUEST_TIMEOUT_MS),
        Err(BrowserMcpError::RequestTimeout { timeout_ms: 30_000 })
    ));
    assert!(matches!(finish_request(SlotOutcome::Dropped, REQUEST_TIMEOUT_MS), Err(BrowserMcpError::ConnectionClosed)));
}

#[test]
fn extension_error_becomes_typed_error() {
    let mut pool = ConnectionPool::new(30_000, 300_000);
    assert_eq!(pool.prepare_request(3, 5, 0), Err(BrowserMcpError::ConnectionNotAvailable { tab_id: 3 }));
    match pool.handle_response(5, Err("boom".to_string())) {
        Some(Err(BrowserMcpError::BrowserExtensionError { message })) => assert_eq!(message, "boom"),
        _ => panic!("expected the extension's error"),
    }
    assert!(pool.handle_response(5, Err("boom".to_string())).is_none());
}

#[test]
fn stale_connections_are_reaped() {
    let mut pool = ConnectionPool::new(1_000, 5_000);
    assert!(pool.accept_connection(1, 0, None));
    assert!(pool.accept_connection(2, 0, Some("127.0.0.1:1".to_string())));
    pool.touch(2, 4_000);
    assert_eq!(pool.cleanup_stale_connections(5_001), vec![1]);
    assert_eq!(pool.get_active_connections(), vec![2]);
    assert!(pool.cleanup_stale_connections(8_000).is_empty());
    assert_eq!(pool.cleanup_stale_connections(9_001), vec![2]);
    assert!(pool.get_active_connections().is_empty());
}

#[test]
fn unknown_loose_frame_keeps_connection() {
    let mut pool = ConnectionPool::new(1_000, 5_000);
    assert!(pool.accept_connection(1, 0, None));
    let frame = InboundFrame::Loose(LooseMessage {
        message_type: Some("unknown".to_string()),
        has_event: false,
        event_tab_id: None,
    });
    assert!(matches!(pool.handle_message(1, frame, 1), Ok(FrameAction::Nothing)));
    let hb = InboundFrame::Loose(LooseMessage {
        message_type: Some("heartbeat".to_string()),
        has_event: false,
        event_tab_id: None,
    });
    assert!(matches!(pool.handle_message(1, hb, 2), Ok(FrameAction::SendHeartbeatReply)));
    let note = InboundFrame::Loose(LooseMessage {
        message_type: Some("notification".to_string()),
        has_event: true,
        event_tab_id: Some(8),
    });
    assert!(matches!(pool.handle_message(1, note, 3), Ok(FrameAction::Nothing)));
    assert_eq!(pool.get_connections_for_tab(8), vec![1]);
    match pool.handle_message(1, InboundFrame::Malformed("eof".to_string()), 4) {
        Err(BrowserMcpError::InvalidRequest { message }) => assert_eq!(message, "Invalid JSON: eof"),
        _ => panic!("expected the connection to be refused"),
    }
}

#[test]
fn ping_gets_pong_and_lost_unbinds() {
    let mut pool = ConnectionPool::new(1_000, 5_000);
    assert!(pool.accept_connection(1, 0, None));
    bind(&mut pool, 1, 4, 0);
    match pool.handle_message(1, InboundFrame::Ping(vec![1, 2]), 1) {
        Ok(FrameAction::SendPong(d)) => assert_eq!(d, vec![1, 2]),
        _ => panic!("expected a pong"),
    }
    let lost = InboundFrame::Message(BrowserMessage::Notification {
        event: BrowserEvent::ConnectionLost { tab_id: 5 },
    });
    assert!(pool.handle_message(1, lost, 2).is_ok());
    assert_eq!(pool.find_connection_for_tab(4).map(|c| c.id), Some(1));
    let lost = InboundFrame::Message(BrowserMessage::Notification {
        event: BrowserEvent::ConnectionLost { tab_id: 4 },
    });
    assert!(pool.handle_message(1, lost, 2).is_ok());
    assert!(pool.find_connection_for_tab(4).is_none());
    assert!(matches!(pool.handle_message(1, InboundFrame::Close, 3), Err(BrowserMcpError::ConnectionClosed)));
}

#[test]
fn accept_and_remove_update_counters() {
    let mut pool = ConnectionPool::new(1_000, 5_000);
    assert!(pool.accept_connection(1, 0, None));
    assert!(!pool.accept_connection(1, 0, None));
    assert!(pool.accept_connection(2, 0, None));
    assert!(pool.remove_connection(1));
    assert!(!pool.remove_connection(1));
    let stats = pool.get_stats();
    assert_eq!(stats.total_connections, 2);
    assert_eq!(stats.active_connections, 1);
}

#[test]
fn unexpected_response_kind_is_internal_error() {
    let mut cache = BrowserDataCache::new(10, 1_000);
    let step = plan_tool_call(&mut cache, ToolName::GetDomSnapshot, args_for(2), true, 0).unwrap();
    let pending = match step {
        ToolStep::Send { pending, .. } => pending,
        _ => panic!("expected a request"),
    };
    match complete_tool_call(&mut cache, pending, Ok(BrowserResponse::JavaScriptResult("1".to_string())), 0) {
        Err(BrowserMcpError::InternalError { message }) => assert_eq!(message, "Unexpected response type"),
        _ => panic!("expected a protocol error"),
    }
}

#[test]
fn screenshot_is_base64_with_mime() {
    let mut cache = BrowserDataCache::new(10, 1_000);
    let mut args = args_for(2);
    args.format = Some("jpeg".to_string());
    let pending = match plan_tool_call(&mut cache, ToolName::CaptureScreenshot, args, true, 0).unwrap() {
        ToolStep::Send { pending, .. } => pending,
        _ => panic!("expected a request"),
    };
    let shot = ScreenshotData { data: b"hello".to_vec(), format: "jpeg".to_string(), width: 1, height: 1, timestamp: 0 };
    match complete_tool_call(&mut cache, pending, Ok(BrowserResponse::Screenshot(shot)), 0) {
        Ok(ToolOutput::Screenshot(McpContent::Image { data, mime_type })) => {
            assert_eq!(data, "aGVsbG8=");
            assert_eq!(mime_type, "image/jpeg");
        }
        _ => panic!("expected an image"),
    }
    assert!(cache.get_tab_data(2).unwrap().screenshot_data.is_some());
}

#[test]
fn missing_code_and_tab_are_invalid_parameters() {
    let mut cache = BrowserDataCache::new(10, 1_000);
    assert!(matches!(
        plan_tool_call(&mut cache, ToolName::ExecuteJavascript, args_for(1), true, 0),
        Err(BrowserMcpError::InvalidParameters { .. })
    ));
    let mut args = args_for(1);
    args.tab_id = None;
    args.tab_id_alt = Some(3);
    assert!(matches!(
        plan_tool_call(&mut cache, ToolName::AttachDebugger, args, true, 0),
        Err(BrowserMcpError::InvalidParameters { .. })
    ));
    assert!(matches!(
        plan_tool_call(&mut cache, ToolName::GetBrowserTabs, args_for(1), false, 0),
        Err(BrowserMcpError::InternalError { .. })
    ));
}

#[test]
fn console_event_reaches_cache() {
    let mut cache = BrowserDataCache::new(10, 1_000);
    let mut pool = ConnectionPool::new(1_000, 5_000);
    assert!(pool.accept_connection(1, 0, None));
    let message = browser_mcp_rust_server::ConsoleMessage {
        level: "warn".to_string(),
        message: "careful".to_string(),
        timestamp: 0,
        source: None,
        line_number: None,
        column_number: None,
        stack_trace: None,
    };
    let frame = InboundFrame::Message(BrowserMessage::Notification {
        event: BrowserEvent::ConsoleMessage { tab_id: 6, message },
    });
    let event = match pool.handle_message(1, frame, 3) {
        Ok(FrameAction::Record(e)) => e,
        _ => panic!("expected the event to be recorded"),
    };
    let change = cache.apply_event(event, 3).unwrap();
    assert_eq!(change.tab_id, 6);
    assert_eq!(change.update_type, browser_mcp_rust_server::DataUpdateType::ConsoleMessageAdded);
    assert_eq!(cache.get_console_logs(6).unwrap()[0].message, "careful");
}
