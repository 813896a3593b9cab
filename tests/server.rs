use browser_mcp_rust_server::server::resources::{list_resources, parse_resource_uri, read_resource, ResourceBody, ResourceKind, ResourceRef};
use browser_mcp_rust_server::server::rpc::{listed_tools, route_request, server_info, tool_name, RpcMethod, RpcRoute, INVALID_REQUEST};
use browser_mcp_rust_server::{BrowserDataCache, BrowserMcpError, ConsoleMessage, McpContent, McpToolResult, PageContent, ServerConfig};

#[test]
fn missing_method_is_rejected() {
    assert_eq!(route_request(None), RpcRoute::Reject { status: 400, code: INVALID_REQUEST });
    assert_eq!(INVALID_REQUEST, -32600);
    assert_eq!(route_request(Some("notifications/initialized")), RpcRoute::Acknowledge { status: 200 });
    assert_eq!(route_request(Some("initialize")), RpcRoute::Serve(RpcMethod::Initialize));
    assert_eq!(route_request(Some("bogus")), RpcRoute::Serve(RpcMethod::Unknown));
}

#[test]
fn initialize_reports_server() {
    let info = server_info();
    assert_eq!(info.protocol_version, "2024-11-05");
    assert_eq!(info.name, "browser-mcp-rust-server");
    assert_eq!(info.version, "1.0.0");
}

#[test]
fn tools_list_has_core_tools() {
    let names: Vec<&str> = listed_tools().into_iter().map(tool_name).collect();
    for n in ["get_page_content", "get_dom_snapshot", "execute_javascript", "get_browser_tabs"] {
        assert!(names.contains(&n));
    }
}

#[test]
fn resource_uris_parse_strictly() {
    assert_eq!(
        parse_resource_uri("browser://tab/12/dom"),
        Ok(ResourceRef { tab_id: 12, kind: ResourceKind::Dom })
    );
    assert!(matches!(parse_resource_uri("browser://tab/12/dom/"), Err(BrowserMcpError::InvalidParameters { .. })));
    assert!(matches!(parse_resource_uri("browser://tab//dom"), Err(BrowserMcpError::InvalidParameters { .. })));
    match parse_resource_uri("browser://tab/99999999999/content") {
        Err(BrowserMcpError::InvalidParameters { message }) => assert_eq!(message, "Invalid tab ID"),
        _ => panic!("expected an invalid tab"),
    }
}

#[test]
fn resources_list_and_read() {
    let mut cache = BrowserDataCache::new(10, 1_000);
    cache.update_page_content(
        3,
        PageContent {
            url: "u".to_string(),
            title: "t".to_string(),
            text: "x".to_string(),
            html: "<b>x</b>".to_string(),
            metadata: vec![],
            last_updated: 0,
        },
        0,
    );
    cache.add_console_message(
        5,
        ConsoleMessage {
            level: "log".to_string(),
            message: "hi".to_string(),
            timestamp: 0,
            source: None,
            line_number: None,
            column_number: None,
            stack_trace: None,
        },
        0,
    );
    let refs = list_resources(&cache);
    assert_eq!(
        refs,
        vec![
            ResourceRef { tab_id: 3, kind: ResourceKind::Content },
            ResourceRef { tab_id: 3, kind: ResourceKind::Console },
            ResourceRef { tab_id: 5, kind: ResourceKind::Console },
        ]
    );
    match read_resource(&mut cache, "browser://tab/3/content") {
        Ok(ResourceBody::Html(h)) => assert_eq!(h, "<b>x</b>"),
        _ => panic!("expected html"),
    }
    match read_resource(&mut cache, "browser://tab/5/console") {
        Ok(ResourceBody::Console(v)) => assert_eq!(v[0].message, "hi"),
        _ => panic!("expected console"),
    }
    match read_resource(&mut cache, "browser://tab/5/dom") {
        Err(BrowserMcpError::ResourceNotFound { uri }) => assert_eq!(uri, "browser://tab/5/dom"),
        _ => panic!("expected not found"),
    }
}

#[test]
fn config_defaults_and_validation() {
    let mut config = ServerConfig::default();
    assert_eq!(config.server.port, 6009);
    assert!(config.validate().is_ok());
    assert_eq!(config.get_mcp_address(), "127.0.0.1:6009");
    assert_eq!(config.get_websocket_address(), "127.0.0.1:6009");
    assert_eq!(config.get_prometheus_address(), Some("127.0.0.1:9090".to_string()));
    config.cache.max_size_mb = 0;
    assert_eq!(
        config.validate(),
        Err(BrowserMcpError::ConfigError { message: "Cache size must be greater than 0".to_string() })
    );
    config.server.port = 0;
    assert!(matches!(config.validate(), Err(BrowserMcpError::ConfigError { .. })));
    config.monitoring.prometheus_port = None;
    assert_eq!(config.get_prometheus_address(), None);
}

#[test]
fn tool_results() {
    let ok = McpToolResult::text("done");
    assert_eq!(ok.is_error, None);
    assert!(matches!(&ok.content[0], McpContent::Text { text } if text == "done"));
    let err = McpToolResult::error("bad");
    assert_eq!(err.is_error, Some(true));
    match McpContent::image(vec![0xff], "image/png") {
        McpContent::Image { data, mime_type } => {
            assert_eq!(data, "/w==");
            assert_eq!(mime_type, "image/png");
        }
        _ => panic!("expected an image"),
    }
}
