use browser_mcp_rust_server::server::performance::PerformanceMonitor;
use browser_mcp_rust_server::transport::browser::BrowserCommunicator;
use browser_mcp_rust_server::transport::request::{BatchRequest, RequestHandler, RequestTracker};
use browser_mcp_rust_server::{BrowserMcpError, BrowserRequest};

#[test]
fn test_request_tracker() {
    let mut tracker = RequestTracker::new(5_000, 3);

    assert!(tracker.can_retry());
    assert!(!tracker.is_expired());

    tracker.retry();
    assert_eq!(tracker.retry_count, 1);
    assert!(tracker.can_retry());

    // Simulate retries until max reached
    tracker.retry();
    tracker.retry();
    assert_eq!(tracker.retry_count, 3);
    assert!(!tracker.can_retry());
}

#[test]
fn tracker_expiry_at_given_times() {
    let tracker = RequestTracker { request_id: 1, start_time: 1_000, timeout: 500, retry_count: 0, max_retries: 0 };
    assert!(!tracker.is_expired_at(1_500));
    assert!(tracker.is_expired_at(1_501));
    assert_eq!(tracker.elapsed_at(900), 0);
    let mut t = tracker;
    assert!(!t.retry());
    assert_eq!(t.request_id, 1);
}

#[test]
fn test_request_handler_metrics() {
    let mut handler = RequestHandler::new(100);

    let _start_time = handler.record_request_start();
    handler.record_response_time(10_000);

    let metrics = handler.get_metrics();
    assert_eq!(metrics.total_requests, 1);
    assert_eq!(metrics.successful_requests, 1);
    assert!(metrics.average_response_time >= 10_000);
    assert_eq!(metrics.failed_requests, 0);
}

#[test]
fn handler_history_is_bounded_and_averaged() {
    let mut handler = RequestHandler::new(2);
    handler.record_response_time(10);
    handler.record_response_time(20);
    handler.record_response_time(40);
    let m = handler.get_metrics();
    assert_eq!(m.average_response_time, 30);
    assert_eq!(m.max_response_time, 40);
    assert_eq!(m.min_response_time, 10);
    handler.record_request_failure(0, &BrowserMcpError::RequestTimeout { timeout_ms: 30_000 });
    handler.record_request_failure(0, &BrowserMcpError::ConnectionClosed);
    let m = handler.get_metrics();
    assert_eq!(m.failed_requests, 2);
    assert_eq!(m.timeout_requests, 1);
    handler.reset_metrics();
    assert_eq!(handler.get_metrics().successful_requests, 0);
}

#[test]
fn test_batch_request() {
    let mut batch = BatchRequest::new(30_000, 5);

    assert!(batch.is_empty());

    batch.add_request(1, BrowserRequest::GetPageContent { include_metadata: true });
    batch.add_request(2, BrowserRequest::GetDomSnapshot { max_depth: 10, include_styles: false });

    assert_eq!(batch.len(), 2);
    assert!(!batch.is_empty());
}

#[test]
fn test_browser_communicator() {
    let mut communicator = BrowserCommunicator::new();

    // Register a tab
    communicator.register_tab(1, Some("Test Page".to_string()), Some("https://example.com".to_string()));

    let tab_info = communicator.get_tab_info(1).unwrap();
    assert_eq!(tab_info.tab_id, 1);
    assert_eq!(tab_info.title, Some("Test Page".to_string()));
    assert_eq!(tab_info.connection_count, 0);

    // Associate a connection
    let connection_id: u128 = 0x1234;
    communicator.associate_connection(connection_id, 1).unwrap();

    let tab_info = communicator.get_tab_info(1).unwrap();
    assert_eq!(tab_info.connection_count, 1);

    // Disassociate the connection
    let disconnected_tab = communicator.disassociate_connection(connection_id);
    assert_eq!(disconnected_tab, Some(1));

    let tab_info = communicator.get_tab_info(1).unwrap();
    assert_eq!(tab_info.connection_count, 0);
    assert!(!tab_info.active);
}

#[test]
fn test_tab_cleanup() {
    let mut communicator = BrowserCommunicator::new();

    communicator.register_tab_at(1, Some("Test".to_string()), None, 0);
    assert_eq!(communicator.get_tab_count(), 1);

    // An old tab
    communicator.cleanup_stale_tabs_at(5, 10);

    assert_eq!(communicator.get_tab_count(), 0);
}

#[test]
fn communicator_unknown_tab_and_removal() {
    let mut c = BrowserCommunicator::new();
    assert_eq!(c.associate_connection(7, 3), Err(BrowserMcpError::TabNotFound { tab_id: 3 }));
    c.register_tab(3, None, None);
    c.register_tab(4, None, None);
    c.associate_connection(7, 3).unwrap();
    c.associate_connection(8, 4).unwrap();
    assert_eq!(c.get_active_tab_count(), 2);
    c.update_tab_info(3, Some("T".to_string()), None);
    assert_eq!(c.get_tab_info(3).unwrap().title.as_deref(), Some("T"));
    c.remove_tab(3);
    assert_eq!(c.get_connection_count(), 1);
    assert_eq!(c.get_all_tabs().len(), 1);
    assert_eq!(c.get_active_tabs()[0].tab_id, 4);
}

#[test]
fn performance_monitor_tallies_per_tool() {

    let mut m = PerformanceMonitor::new();
    m.record_request("get_page_content", 10, true);
    m.record_request("get_page_content", 20, false);
    m.record_request("get_dom_snapshot", 7, true);
    let stats = m.get_stats();
    assert_eq!(stats.len(), 2);
    assert_eq!(stats[0], ("get_page_content".to_string(), 2, 15, 1));
    assert_eq!(stats[1], ("get_dom_snapshot".to_string(), 1, 7, 0));
    for i in 0..150u64 {
        m.record_request("get_dom_snapshot", 1000 + i, true);
    }
    let stats = m.get_stats();
    assert_eq!(stats[1].1, 151);
    assert_eq!(stats[1].2, (1050..1150u64).sum::<u64>() / 100);
    m.reset_stats();
    assert!(m.get_stats().is_empty());
}
