use vstd::prelude::*;
use vstd::string::{StrSliceExecFns, StringExecFns};
use crate::cache::browser_data::{BrowserDataCache, TabData};
use crate::text::{digit_value, digits_value, is_digit};
use crate::types::browser::{ConsoleMessage, clone_string};
use crate::types::errors::BrowserMcpError;

verus! {

/// The three views of a tab offered as resources.
#[derive(Debug, Clone, Copy, PartialEq, Eq, Structural)]
pub enum ResourceKind {
    Content,
    Dom,
    Console,
}

/// A resource that exists: `browser://tab/{tab_id}/{kind}`.
#[derive(Debug, Clone, Copy, PartialEq, Eq, Structural)]
pub struct ResourceRef {
    pub tab_id: u32,
    pub kind: ResourceKind,
}

/// What reading a resource yields.
pub enum ResourceBody {
    /// The page's HTML.
    Html(String),
    /// The DOM snapshot now cached for the tab.
    Dom { tab_id: u32 },
    /// The console history, oldest first.
    Console(Vec<ConsoleMessage>),
}

/// Length of the run of ASCII digits at the start of `s`.
pub open spec fn digit_run(s: Seq<char>) -> nat
    decreases s.len(),
{
    if s.len() > 0 && is_digit(s[0]) {
        1 + digit_run(s.drop_first())
    } else {
        0
    }
}

pub open spec fn kind_of_suffix(t: Seq<char>) -> Option<ResourceKind> {
    if t == "/content"@ {
        Some(ResourceKind::Content)
    } else if t == "/dom"@ {
        Some(ResourceKind::Dom)
    } else if t == "/console"@ {
        Some(ResourceKind::Console)
    } else {
        None
    }
}

/// The digits and the kind of a URI of the form
/// `browser://tab/<ASCII digits>/(content|dom|console)`, or `None`.
pub open spec fn uri_parts(s: Seq<char>) -> Option<(Seq<char>, ResourceKind)> {
    if s.len() >= 14 && s.take(14) == "browser://tab/"@ {
        let rest = s.skip(14);
        let k = digit_run(rest);
        if k >= 1 {
            match kind_of_suffix(rest.skip(k as int)) {
                Some(kind) => Some((rest.take(k as int), kind)),
                None => None,
            }
        } else {
            None
        }
    } else {
        None
    }
}

proof fn lemma_digit_run(s: Seq<char>, k: int)
    requires
        0 <= k <= s.len(),
        forall|j: int| 0 <= j < k ==> is_digit(#[trigger] s[j]),
        k == s.len() || !is_digit(s[k]),
    ensures
        digit_run(s) == k,
    decreases k,
{
    if k > 0 {
        lemma_digit_run(s.drop_first(), k - 1);
    }
}

proof fn lemma_digits_value_push(s: Seq<char>, c: char)
    ensures
        digits_value(s.push(c)) == digits_value(s) * 10 + digit_value(c),
{
    assert(s.push(c).drop_last() =~= s);
}

/// Reads a resource URI: the tab and the kind it names. A URI of another form,
/// or one whose tab number does not fit in 32 bits, is refused.
pub fn parse_resource_uri(uri: &str) -> (r: Result<ResourceRef, BrowserMcpError>)
    ensures
        match uri_parts(uri@) {
            None => r matches Err(BrowserMcpError::InvalidParameters { message }) && message@ == "Invalid resource URI: "@ + uri@,
            Some((digits, kind)) => if digits_value(digits) <= u32::MAX {
                r == Ok::<ResourceRef, BrowserMcpError>(ResourceRef { tab_id: digits_value(digits) as u32, kind })
            } else {
                r matches Err(BrowserMcpError::InvalidParameters { message }) && message@ == "Invalid tab ID"@
            },
        },
{
    let n = uri.unicode_len();
    let ghost s = uri@;
    let bad = String::from_str("Invalid resource URI: ").concat(uri);
    if n < 14 {
        return Err(BrowserMcpError::InvalidParameters { message: bad });
    }
    let head = String::from_str(uri.substring_char(0, 14));
    if head != String::from_str("browser://tab/") {
        assert(s.take(14) =~= s.subrange(0, 14));
        return Err(BrowserMcpError::InvalidParameters { message: bad });
    }
    assert(s.take(14) =~= s.subrange(0, 14));
    let ghost rest = s.skip(14);
    let mut i: usize = 14;
    let mut value: u64 = 0;
    let mut overflow = false;
    while i < n && is_ascii_digit(uri.get_char(i))
        invariant
            14 <= i <= n,
            n == s.len(),
            s == uri@,
            rest == s.skip(14),
            forall|j: int| 0 <= j < i - 14 ==> is_digit(#[trigger] rest[j]),
            !overflow ==> value == digits_value(rest.take(i - 14)) && value <= u32::MAX,
            overflow ==> digits_value(rest.take(i - 14)) > u32::MAX,
        decreases n - i,
    {
        let c = uri.get_char(i);
        let d = (c as u32 - '0' as u32) as u64;
        proof {
            assert(rest.take(i + 1 - 14) =~= rest.take(i - 14).push(c));
            lemma_digits_value_push(rest.take(i - 14), c);
        }
        if !overflow {
            let next = value * 10 + d;
            if next > 4294967295 {
                overflow = true;
            } else {
                value = next;
            }
        } else {
            assert(digits_value(rest.take(i + 1 - 14)) >= digits_value(rest.take(i - 14)));
        }
        i = i + 1;
    }
    proof {
        lemma_digit_run(rest, i - 14);
    }
    if i == 14 {
        return Err(BrowserMcpError::InvalidParameters { message: bad });
    }
    let tail = String::from_str(uri.substring_char(i, n));
    assert(rest.skip(i - 14) =~= s.subrange(i as int, n as int));
    let kind = if tail == String::from_str("/content") {
        ResourceKind::Content
    } else if tail == String::from_str("/dom") {
        ResourceKind::Dom
    } else if tail == String::from_str("/console") {
        ResourceKind::Console
    } else {
        return Err(BrowserMcpError::InvalidParameters { message: bad });
    };
    if overflow {
        return Err(BrowserMcpError::InvalidParameters { message: String::from_str("Invalid tab ID") });
    }
    Ok(ResourceRef { tab_id: value as u32, kind })
}

fn is_ascii_digit(c: char) -> (r: bool)
    ensures
        r == is_digit(c),
{
    '0' <= c && c <= '9'
}

/// The resources one tab offers: its content and DOM when cached, its console always.
pub open spec fn resources_of_tab(d: TabData) -> Seq<ResourceRef> {
    (if d.page_content is Some {
        seq![ResourceRef { tab_id: d.tab_id, kind: ResourceKind::Content }]
    } else {
        Seq::empty()
    }) + (if d.dom_snapshot is Some {
        seq![ResourceRef { tab_id: d.tab_id, kind: ResourceKind::Dom }]
    } else {
        Seq::empty()
    }) + seq![ResourceRef { tab_id: d.tab_id, kind: ResourceKind::Console }]
}

/// The resources of the tabs listed in `order`, in that order.
pub open spec fn resources_of(tabs: Map<u32, TabData>, order: Seq<u32>) -> Seq<ResourceRef>
    decreases order.len(),
{
    if order.len() == 0 {
        Seq::empty()
    } else {
        resources_of(tabs, order.drop_last()) + resources_of_tab(tabs[order.last()])
    }
}

/// Every resource the cache offers, tab by tab in the order tabs were first written.
pub fn list_resources(cache: &BrowserDataCache) -> (r: Vec<ResourceRef>)
    requires
        cache.wf(),
    ensures
        r@ == resources_of(cache.tabs(), cache.tab_order()),
{
    let tabs = cache.get_all_tabs();
    let mut out: Vec<ResourceRef> = Vec::new();
    let mut i: usize = 0;
    while i < tabs.len()
        invariant
            i <= tabs@.len(),
            tabs@.len() == cache.tab_order().len(),
            forall|j: int| 0 <= j < tabs@.len() ==> *(#[trigger] tabs@[j]) == cache.tabs()[cache.tab_order()[j]],
            out@ == resources_of(cache.tabs(), cache.tab_order().subrange(0, i as int)),
        decreases tabs@.len() - i,
    {
        let d = tabs[i];
        let ghost before = out@;
        if d.page_content.is_some() {
            out.push(ResourceRef { tab_id: d.tab_id, kind: ResourceKind::Content });
        }
        if d.dom_snapshot.is_some() {
            out.push(ResourceRef { tab_id: d.tab_id, kind: ResourceKind::Dom });
        }
        out.push(ResourceRef { tab_id: d.tab_id, kind: ResourceKind::Console });
        proof {
            let pre = cache.tab_order().subrange(0, i + 1);
            assert(pre.drop_last() =~= cache.tab_order().subrange(0, i as int));
            assert(pre.last() == cache.tab_order()[i as int]);
            assert(out@ =~= before + resources_of_tab(*d));
        }
        i = i + 1;
    }
    assert(cache.tab_order().subrange(0, i as int) =~= cache.tab_order());
    out
}

/// Reads `uri`: the tab's HTML, DOM snapshot or console history. A tab with no
/// record, or a view it has not cached, is `ResourceNotFound`. The lookup is
/// counted as `get_tab_data` counts it.
pub fn read_resource(cache: &mut BrowserDataCache, uri: &str) -> (r: Result<ResourceBody, BrowserMcpError>)
    requires
        old(cache).wf(),
    ensures
        final(cache).wf(),
        final(cache).tabs() == old(cache).tabs(),
        final(cache).tab_order() == old(cache).tab_order(),
        final(cache).bindings() == old(cache).bindings(),
        match uri_parts(uri@) {
            None => final(cache).hits() == old(cache).hits() && final(cache).misses() == old(cache).misses()
                && r is Err,
            Some((digits, kind)) => if digits_value(digits) <= u32::MAX {
                let t = digits_value(digits) as u32;
                let tabs = old(cache).tabs();
                &&& final(cache).counted_lookup(old(cache), t)
                &&& match kind {
                    ResourceKind::Content => if tabs.contains_key(t) && tabs[t].page_content is Some {
                        r matches Ok(ResourceBody::Html(h)) && h == tabs[t].page_content->Some_0.html
                    } else {
                        r matches Err(BrowserMcpError::ResourceNotFound { uri: u }) && u@ == uri@
                    },
                    ResourceKind::Dom => if tabs.contains_key(t) && tabs[t].dom_snapshot is Some {
                        r == Ok::<ResourceBody, BrowserMcpError>(ResourceBody::Dom { tab_id: t })
                    } else {
                        r matches Err(BrowserMcpError::ResourceNotFound { uri: u }) && u@ == uri@
                    },
                    ResourceKind::Console => if tabs.contains_key(t) {
                        r matches Ok(ResourceBody::Console(v)) && v@ == tabs[t].console_logs@
                    } else {
                        r matches Err(BrowserMcpError::ResourceNotFound { uri: u }) && u@ == uri@
                    },
                }
            } else {
                final(cache).hits() == old(cache).hits() && final(cache).misses() == old(cache).misses() && r is Err
            },
        },
{
    let target = match parse_resource_uri(uri) {
        Ok(t) => t,
        Err(e) => {
            return Err(e);
        },
    };
    let missing = BrowserMcpError::ResourceNotFound { uri: String::from_str(uri) };
    match target.kind {
        ResourceKind::Console => match cache.get_console_logs(target.tab_id) {
            Some(v) => Ok(ResourceBody::Console(v)),
            None => Err(missing),
        },
        ResourceKind::Content => match cache.get_page_content(target.tab_id) {
            Some(c) => Ok(ResourceBody::Html(clone_string(&c.html))),
            None => Err(missing),
        },
        ResourceKind::Dom => match cache.get_dom_snapshot(target.tab_id) {
            Some(_) => Ok(ResourceBody::Dom { tab_id: target.tab_id }),
            None => Err(missing),
        },
    }
}

} // verus!
