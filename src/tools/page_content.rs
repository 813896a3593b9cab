use vstd::prelude::*;
use vstd::string::StringExecFns;
use crate::types::errors::BrowserMcpError;
use crate::types::messages::BrowserRequest;

verus! {

/// Checks and builds page-content requests.
pub struct PageContentTool;

impl PageContentTool {
    /// A given tab id must be positive; leaving it out is fine.
    pub fn validate_request(tab_id: Option<u32>, include_metadata: bool) -> (r: Result<(), BrowserMcpError>)
        ensures
            r is Ok <==> tab_id != Some(0u32),
            r matches Err(e) ==> e matches BrowserMcpError::InvalidParameters { message }
                && message@ == "Tab ID must be greater than 0"@,
    {
        match tab_id {
            Some(t) => {
                if t == 0 {
                    return Err(BrowserMcpError::InvalidParameters {
                        message: String::from_str("Tab ID must be greater than 0"),
                    });
                }
            },
            None => {},
        }
        Ok(())
    }

    pub fn create_request(include_metadata: bool) -> (r: BrowserRequest)
        ensures
            r == (BrowserRequest::GetPageContent { include_metadata }),
    {
        BrowserRequest::GetPageContent { include_metadata }
    }
}

} // verus!
