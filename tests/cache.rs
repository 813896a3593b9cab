use browser_mcp_rust_server::cache::browser_data::{CONSOLE_LOG_CAPACITY, NETWORK_LOG_CAPACITY};
use browser_mcp_rust_server::tools::dispatch::{plan_tool_call, ToolArgs, ToolName, ToolOutput, ToolStep};
use browser_mcp_rust_server::{
    BrowserDataCache, ConsoleMessage, DataUpdateType, NetworkRequest, PageContent, ScreenshotData,
};

fn console(level: &str, message: &str) -> ConsoleMessage {
    ConsoleMessage {
        level: level.to_string(),
        message: message.to_string(),
        timestamp: 0,
        source: None,
        line_number: None,
        column_number: None,
        stack_trace: None,
    }
}

fn network(id: usize) -> NetworkRequest {
    NetworkRequest {
        request_id: format!("r{}", id),
        url: "https://example.com".to_string(),
        method: "GET".to_string(),
        status_code: Some(200),
        status_text: None,
        request_headers: vec![],
        response_headers: None,
        request_body: None,
        response_body: None,
        timestamp: 0,
        duration_us: None,
        failed: false,
        from_cache: false,
        resource_type: "xhr".to_string(),
    }
}

fn page(last_updated: u64) -> PageContent {
    PageContent {
        url: "https://example.com".to_string(),
        title: "Test Page".to_string(),
        text: "Test content".to_string(),
        html: "<html>Test</html>".to_string(),
        metadata: vec![],
        last_updated,
    }
}

fn args_for(tab: u64) -> ToolArgs {
    ToolArgs {
        tab_id: Some(tab),
        tab_id_alt: None,
        include_metadata: None,
        max_depth: None,
        include_styles: None,
        code: None,
        return_by_value: None,
        level_filter: None,
        limit: None,
        include_bodies: None,
        format: None,
        quality: None,
        clip: None,
    }
}

#[test]
fn histories_stay_bounded() {
    let mut cache = BrowserDataCache::new(10, 60_000);
    for i in 0..1500 {
        cache.add_console_message(5, console("log", &format!("m{}", i)), 1);
        cache.add_network_request(5, network(i), 1);
    }
    let logs = cache.get_console_logs(5).unwrap();
    let reqs = cache.get_network_requests(5).unwrap();
    assert_eq!(logs.len(), CONSOLE_LOG_CAPACITY);
    assert_eq!(reqs.len(), NETWORK_LOG_CAPACITY);
    assert_eq!(logs[0].message, "m500");
    assert_eq!(reqs[0].request_id, "r1000");
    assert_eq!(reqs[499].request_id, "r1499");
}

#[test]
fn bounded_console_log_keeps_latest_thousand() {
    let mut cache = BrowserDataCache::new(10, 60_000);
    for i in 1..=1200 {
        cache.add_console_message(3, console("log", &format!("{}", i)), 100);
    }
    let mut args = args_for(3);
    args.limit = Some(2000);
    match plan_tool_call(&mut cache, ToolName::GetConsoleMessages, args, false, 100) {
        Ok(ToolStep::Done(ToolOutput::ConsoleMessages(v))) => {
            assert_eq!(v.len(), 1000);
            assert_eq!(v[0].message, "201");
            assert_eq!(v[999].message, "1200");
        }
        _ => panic!("expected messages from the cache"),
    }
}

#[test]
fn console_filter_and_limit() {
    let mut cache = BrowserDataCache::new(10, 60_000);
    cache.add_console_message(2, console("log", "a"), 1);
    cache.add_console_message(2, console("error", "b"), 1);
    cache.add_console_message(2, console("error", "c"), 1);
    cache.add_console_message(2, console("error", "d"), 1);
    let mut args = args_for(2);
    args.level_filter = Some("error".to_string());
    args.limit = Some(2);
    match plan_tool_call(&mut cache, ToolName::GetConsoleMessages, args, false, 1) {
        Ok(ToolStep::Done(ToolOutput::ConsoleMessages(v))) => {
            let got: Vec<&str> = v.iter().map(|m| m.message.as_str()).collect();
            assert_eq!(got, vec!["b", "c"]);
        }
        _ => panic!("expected messages from the cache"),
    }
}

#[test]
fn fast_path_page_content_counts_a_hit() {
    let now = 1_000_000;
    let mut cache = BrowserDataCache::new(10, 3_600_000);
    let ev = cache.update_page_content(7, page(now - 5_000), now - 5_000);
    assert_eq!(ev.update_type, DataUpdateType::PageContentUpdated);
    assert_eq!(ev.tab_id, 7);
    assert_eq!(cache.get_cache_stats(), (0, 0));
    match plan_tool_call(&mut cache, ToolName::GetPageContent, args_for(7), true, now) {
        Ok(ToolStep::Done(ToolOutput::PageContent { content, include_metadata })) => {
            assert_eq!(content.title, "Test Page");
            assert!(include_metadata);
        }
        _ => panic!("expected the cached content"),
    }
    assert_eq!(cache.get_cache_stats(), (1, 0));
}

#[test]
fn stale_page_content_goes_to_the_extension() {
    let now = 1_000_000;
    let mut cache = BrowserDataCache::new(10, 3_600_000);
    cache.update_page_content(7, page(now - 31_000), now - 31_000);
    match plan_tool_call(&mut cache, ToolName::GetPageContent, args_for(7), true, now) {
        Ok(ToolStep::Send { pending, .. }) => assert_eq!(pending.tab_id, 7),
        _ => panic!("expected a request"),
    }
}

#[test]
fn future_stamp_is_not_fresh() {
    let p = page(2_000);
    assert!(!p.is_fresh_at(1_000, 30_000));
    assert!(p.is_fresh_at(32_000, 30_000));
    assert!(!p.is_fresh_at(32_001, 30_000));
}

#[test]
fn ttl_sweep_removes_stale_tab() {
    let mut cache = BrowserDataCache::new(10, 1_000);
    cache.update_page_content(1, page(0), 0);
    cache.register_connection(42, 1);
    cache.cleanup_stale_data(5_000);
    assert!(cache.get_tab_data(1).is_none());
    assert!(cache.get_connections_for_tab(1).is_empty());
}

#[test]
fn lru_removes_oldest_beyond_size() {
    let mut cache = BrowserDataCache::new(2, 1_000_000);
    cache.update_page_content(1, page(10), 10);
    cache.update_page_content(2, page(30), 30);
    cache.update_page_content(3, page(20), 20);
    cache.update_page_content(4, page(40), 40);
    cache.cleanup_stale_data(50);
    let kept: Vec<u32> = cache.get_all_tabs().iter().map(|d| d.tab_id).collect();
    assert_eq!(kept, vec![2, 4]);
}

#[test]
fn hit_rate_unchanged_by_work_without_lookups() {
    let mut cache = BrowserDataCache::new(10, 1_000);
    cache.update_page_content(1, page(0), 0);
    assert!(cache.get_tab_data(1).is_some());
    assert!(cache.get_tab_data(2).is_none());
    let before = cache.get_cache_stats();
    let _ = cache.get_all_tabs();
    cache.register_connection(9, 1);
    cache.cleanup_stale_data(0);
    assert_eq!(cache.get_cache_stats(), before);
    assert_eq!(before, (1, 1));
}

#[test]
fn writers_create_records_and_keep_other_fields() {
    let mut cache = BrowserDataCache::new(10, 1_000);
    cache.update_screenshot(
        4,
        ScreenshotData { data: vec![1, 2], format: "png".to_string(), width: 1, height: 1, timestamp: 0 },
        7,
    );
    cache.update_performance_metrics(4, "{}".to_string(), 8);
    cache.set_debugger_attached(4, true, 9);
    cache.set_debugger_attached(99, true, 9);
    let d = cache.get_tab_data(4).unwrap();
    assert!(d.screenshot_data.is_some());
    assert_eq!(d.performance_metrics.as_deref(), Some("{}"));
    assert!(d.debugger_attached);
    assert_eq!(d.last_updated, 9);
    assert!(cache.get_tab_data(99).is_none());
}

#[test]
fn memory_estimate() {
    let mut cache = BrowserDataCache::new(10, 1_000);
    cache.update_page_content(1, page(0), 0);
    cache.update_page_content(2, page(0), 0);
    cache.register_connection(5, 1);
    assert_eq!(cache.get_memory_usage(), 2 * 100 * 1024 + 1024);
    cache.unregister_connection(5);
    assert_eq!(cache.get_memory_usage(), 2 * 100 * 1024);
}
