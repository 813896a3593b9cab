use vstd::prelude::*;
use vstd::string::StringExecFns;

verus! {

/// A list of name/value pairs, in the order the browser sent them.
pub type StringPairs = Vec<(String, String)>;

pub fn clone_string(s: &String) -> (r: String)
    ensures
        r == *s,
{
    s.clone()
}

pub fn clone_opt_string(s: &Option<String>) -> (r: Option<String>)
    ensures
        r == *s,
{
    match s {
        Some(x) => Some(x.clone()),
        None => None,
    }
}

pub fn clone_pairs(pairs: &StringPairs) -> (r: StringPairs)
    ensures
        r@ == pairs@,
{
    let mut out: StringPairs = Vec::new();
    let mut i: usize = 0;
    while i < pairs.len()
        invariant
            i <= pairs.len(),
            out@ == pairs@.subrange(0, i as int),
        decreases pairs.len() - i,
    {
        let k = pairs[i].0.clone();
        let v = pairs[i].1.clone();
        out.push((k, v));
        i = i + 1;
        assert(out@ =~= pairs@.subrange(0, i as int));
    }
    assert(pairs@.subrange(0, pairs@.len() as int) =~= pairs@);
    out
}

pub fn clone_opt_pairs(pairs: &Option<StringPairs>) -> (r: Option<StringPairs>)
    ensures
        r is Some <==> pairs is Some,
        r is Some ==> r->Some_0@ == pairs->Some_0@,
{
    match pairs {
        Some(p) => Some(clone_pairs(p)),
        None => None,
    }
}

/// Text and markup of a page. `last_updated` is in milliseconds since the Unix epoch.
#[derive(Debug)]
pub struct PageContent {
    pub url: String,
    pub title: String,
    pub text: String,
    pub html: String,
    pub metadata: StringPairs,
    pub last_updated: u64,
}

impl PageContent {
    /// Fresh at `now` when its age is at most `max_age`; content stamped after
    /// `now` (clock skew) is not fresh.
    pub open spec fn fresh_at(&self, now: u64, max_age: u64) -> bool {
        self.last_updated <= now && now - self.last_updated <= max_age
    }

    pub fn is_fresh_at(&self, now: u64, max_age: u64) -> (r: bool)
        ensures
            r == self.fresh_at(now, max_age),
    {
        self.last_updated <= now && now - self.last_updated <= max_age
    }

    /// Whether the content is at most `max_age` milliseconds old, read against the clock.
    pub fn is_fresh(&self, max_age: u64) -> (r: bool)
        ensures
            exists|now: u64| r == self.fresh_at(now, max_age),
    {
        let now = crate::clock::now_millis();
        self.is_fresh_at(now, max_age)
    }
}

impl Clone for PageContent {
    fn clone(&self) -> (r: Self)
        ensures
            r.url == self.url,
            r.title == self.title,
            r.text == self.text,
            r.html == self.html,
            r.metadata@ == self.metadata@,
            r.last_updated == self.last_updated,
    {
        PageContent {
            url: clone_string(&self.url),
            title: clone_string(&self.title),
            text: clone_string(&self.text),
            html: clone_string(&self.html),
            metadata: clone_pairs(&self.metadata),
            last_updated: self.last_updated,
        }
    }
}

/// A DOM tree as the extension captured it. `timestamp` is in milliseconds since
/// the Unix epoch.
#[derive(Debug)]
pub struct DomSnapshot {
    pub root: DomNode,
    pub node_count: usize,
    pub max_depth: usize,
    pub include_styles: bool,
    pub timestamp: u64,
}

#[derive(Debug)]
pub struct DomNode {
    pub node_type: String,
    pub tag_name: Option<String>,
    pub text_content: Option<String>,
    pub attributes: StringPairs,
    pub computed_styles: Option<StringPairs>,
    pub children: Vec<DomNode>,
    pub xpath: Option<String>,
    pub selector: Option<String>,
}

/// One console entry. `timestamp` is in milliseconds since the Unix epoch.
#[derive(Debug)]
pub struct ConsoleMessage {
    pub level: String,
    pub message: String,
    pub timestamp: i64,
    pub source: Option<String>,
    pub line_number: Option<u32>,
    pub column_number: Option<u32>,
    pub stack_trace: Option<String>,
}

impl Clone for ConsoleMessage {
    fn clone(&self) -> (r: Self)
        ensures
            r == *self,
    {
        ConsoleMessage {
            level: clone_string(&self.level),
            message: clone_string(&self.message),
            timestamp: self.timestamp,
            source: clone_opt_string(&self.source),
            line_number: self.line_number,
            column_number: self.column_number,
            stack_trace: clone_opt_string(&self.stack_trace),
        }
    }
}

/// One network exchange. `timestamp` is in milliseconds since the Unix epoch,
/// `duration_us` in microseconds.
#[derive(Debug)]
pub struct NetworkRequest {
    pub request_id: String,
    pub url: String,
    pub method: String,
    pub status_code: Option<u16>,
    pub status_text: Option<String>,
    pub request_headers: StringPairs,
    pub response_headers: Option<StringPairs>,
    pub request_body: Option<String>,
    pub response_body: Option<String>,
    pub timestamp: i64,
    pub duration_us: Option<u64>,
    pub failed: bool,
    pub from_cache: bool,
    pub resource_type: String,
}

impl NetworkRequest {
    /// Equal in every field, headers compared as sequences.
    pub open spec fn same_as(&self, o: &NetworkRequest) -> bool {
        &&& self.request_id == o.request_id
        &&& self.url == o.url
        &&& self.method == o.method
        &&& self.status_code == o.status_code
        &&& self.status_text == o.status_text
        &&& self.request_headers@ == o.request_headers@
        &&& (self.response_headers is Some <==> o.response_headers is Some)
        &&& (self.response_headers is Some ==> self.response_headers->Some_0@
            == o.response_headers->Some_0@)
        &&& self.request_body == o.request_body
        &&& self.response_body == o.response_body
        &&& self.timestamp == o.timestamp
        &&& self.duration_us == o.duration_us
        &&& self.failed == o.failed
        &&& self.from_cache == o.from_cache
        &&& self.resource_type == o.resource_type
    }
}

impl Clone for NetworkRequest {
    fn clone(&self) -> (r: Self)
        ensures
            r.same_as(self),
    {
        NetworkRequest {
            request_id: clone_string(&self.request_id),
            url: clone_string(&self.url),
            method: clone_string(&self.method),
            status_code: self.status_code,
            status_text: clone_opt_string(&self.status_text),
            request_headers: clone_pairs(&self.request_headers),
            response_headers: clone_opt_pairs(&self.response_headers),
            request_body: clone_opt_string(&self.request_body),
            response_body: clone_opt_string(&self.response_body),
            timestamp: self.timestamp,
            duration_us: self.duration_us,
            failed: self.failed,
            from_cache: self.from_cache,
            resource_type: clone_string(&self.resource_type),
        }
    }
}

#[derive(Debug, Clone, Copy, PartialEq, Eq)]
pub struct MemoryUsage {
    pub used_js_heap_size: u64,
    pub total_js_heap_size: u64,
    pub js_heap_size_limit: u64,
}

/// An encoded image. `timestamp` is in milliseconds since the Unix epoch.
#[derive(Debug)]
pub struct ScreenshotData {
    pub data: Vec<u8>,
    pub format: String,
    pub width: u32,
    pub height: u32,
    pub timestamp: u64,
}

pub fn clone_bytes(b: &Vec<u8>) -> (r: Vec<u8>)
    ensures
        r@ == b@,
{
    let mut out: Vec<u8> = Vec::new();
    let mut i: usize = 0;
    while i < b.len()
        invariant
            i <= b.len(),
            out@ == b@.subrange(0, i as int),
        decreases b.len() - i,
    {
        out.push(b[i]);
        i = i + 1;
        assert(out@ =~= b@.subrange(0, i as int));
    }
    assert(b@.subrange(0, b@.len() as int) =~= b@);
    out
}

impl Clone for ScreenshotData {
    fn clone(&self) -> (r: Self)
        ensures
            r.data@ == self.data@,
            r.format == self.format,
            r.width == self.width,
            r.height == self.height,
            r.timestamp == self.timestamp,
    {
        ScreenshotData {
            data: clone_bytes(&self.data),
            format: clone_string(&self.format),
            width: self.width,
            height: self.height,
            timestamp: self.timestamp,
        }
    }
}

#[derive(Debug, Clone)]
pub struct BrowserTab {
    pub id: u32,
    pub title: String,
    pub url: String,
    pub active: bool,
    pub loading: bool,
    pub favicon_url: Option<String>,
    pub window_id: Option<u32>,
    pub index: u32,
}

} // verus!
