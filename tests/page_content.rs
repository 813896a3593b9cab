use browser_mcp_rust_server::tools::page_content::PageContentTool;
use browser_mcp_rust_server::{BrowserMcpError, BrowserRequest};

#[test]
fn test_validate_request() {
    assert!(PageContentTool::validate_request(Some(1), true).is_ok());
    assert!(PageContentTool::validate_request(None, false).is_ok());
    assert!(PageContentTool::validate_request(Some(0), true).is_err());
}

#[test]
fn test_create_request() {
    let request = PageContentTool::create_request(true);
    match request {
        BrowserRequest::GetPageContent { include_metadata } => {
            assert!(include_metadata);
        }
        _ => panic!("Unexpected request type"),
    }
}

#[test]
fn zero_tab_id_is_invalid_parameters() {
    assert_eq!(
        PageContentTool::validate_request(Some(0), false),
        Err(BrowserMcpError::InvalidParameters { message: "Tab ID must be greater than 0".to_string() })
    );
}
