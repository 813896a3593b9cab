use vstd::prelude::*;
use vstd::string::StringExecFns;
use base64::Engine;

verus! {

#[derive(Debug, Clone)]
pub struct McpResource {
    pub uri: String,
    pub name: String,
    pub description: String,
    pub mime_type: Option<String>,
}

#[derive(Debug, Clone)]
pub struct McpResourceContent {
    pub uri: String,
    pub mime_type: Option<String>,
    pub text: Option<String>,
    pub blob: Option<Vec<u8>>,
}

/// The outcome of a tool call as shown to the agent.
#[derive(Debug, Clone)]
pub struct McpToolResult {
    pub content: Vec<McpContent>,
    pub is_error: Option<bool>,
}

#[derive(Debug, Clone)]
pub enum McpContent {
    Text { text: String },
    Image { data: String, mime_type: String },
    Resource { resource: McpResourceContent },
}

/// What the standard base64 alphabet, with padding, makes of `bytes`.
pub uninterp spec fn base64_standard_of(bytes: Seq<u8>) -> Seq<char>;

/// Whether the padded base64 text of `n` bytes has a length that fits in `usize`.
pub open spec fn base64_fits(n: nat) -> bool {
    4 * ((n + 2) / 3) <= usize::MAX
}

/// Relies on base64's `STANDARD` engine `encode`: the padded base64 text of
/// the bytes, four characters for each started group of three. It panics when
/// that length overflows `usize`.
#[verifier::external_body]
fn base64_encode(data: &Vec<u8>) -> (r: String)
    requires
        base64_fits(data@.len()),
    ensures
        r@ == base64_standard_of(data@),
        r@.len() == 4 * ((data@.len() + 2) / 3),
{
    base64::engine::general_purpose::STANDARD.encode(data)
}

impl McpContent {
    pub fn text(content: &str) -> (r: Self)
        ensures
            r matches McpContent::Text { text } && text@ == content@,
    {
        McpContent::Text { text: String::from_str(content) }
    }

    /// An image part: the bytes in base64, with their media type.
    pub fn image(data: Vec<u8>, mime_type: &str) -> (r: Self)
        requires
            base64_fits(data@.len()),
        ensures
            r matches McpContent::Image { data: d, mime_type: m } && d@ == base64_standard_of(
                data@,
            ) && m@ == mime_type@,
    {
        McpContent::Image { data: base64_encode(&data), mime_type: String::from_str(mime_type) }
    }
}

impl McpToolResult {
    pub fn success(content: Vec<McpContent>) -> (r: Self)
        ensures
            r.content == content,
            r.is_error is None,
    {
        McpToolResult { content, is_error: None }
    }

    pub fn error(message: &str) -> (r: Self)
        ensures
            r.content@.len() == 1,
            r.content@[0] matches McpContent::Text { text } && text@ == message@,
            r.is_error == Some(true),
    {
        let mut content: Vec<McpContent> = Vec::new();
        content.push(McpContent::text(message));
        McpToolResult { content, is_error: Some(true) }
    }

    pub fn text(text: &str) -> (r: Self)
        ensures
            r.content@.len() == 1,
            r.content@[0] matches McpContent::Text { text: t } && t@ == text@,
            r.is_error is None,
    {
        let mut content: Vec<McpContent> = Vec::new();
        content.push(McpContent::text(text));
        McpToolResult::success(content)
    }
}

} // verus!
