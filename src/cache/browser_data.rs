use vstd::prelude::*;
use std::collections::HashMap;
use vstd::math::min;
use crate::cache::keys::{contains_u32, index_of_u128, index_of_u32, lemma_lists_keys_index_of, lemma_lists_keys_insert_new, lemma_lists_keys_remove, lemma_lists_keys_update, lists_keys, no_dups};
use crate::cache::memory::RingBuffer;
use crate::types::browser::{ConsoleMessage, DomSnapshot, NetworkRequest, PageContent, ScreenshotData};
use crate::types::messages::{BrowserEvent, DataUpdateEvent, DataUpdateType};

verus! {

broadcast use vstd::std_specs::hash::group_hash_axioms;

/// Console entries kept per tab; older ones are dropped first.
pub const CONSOLE_LOG_CAPACITY: usize = 1000;

/// Network exchanges kept per tab; older ones are dropped first.
pub const NETWORK_LOG_CAPACITY: usize = 500;

/// Everything cached about one tab. Times are in milliseconds since the Unix
/// epoch; performance metrics and the accessibility tree are JSON text.
pub struct TabData {
    pub tab_id: u32,
    pub page_content: Option<PageContent>,
    pub dom_snapshot: Option<DomSnapshot>,
    pub console_logs: RingBuffer<ConsoleMessage>,
    pub network_data: RingBuffer<NetworkRequest>,
    pub performance_metrics: Option<String>,
    pub accessibility_tree: Option<String>,
    pub screenshot_data: Option<ScreenshotData>,
    pub debugger_attached: bool,
    pub last_updated: u64,
}

impl TabData {
    /// Both histories are well formed and bounded by their capacities.
    pub open spec fn wf(&self) -> bool {
        &&& self.console_logs.wf()
        &&& self.console_logs.cap() == CONSOLE_LOG_CAPACITY
        &&& self.network_data.wf()
        &&& self.network_data.cap() == NETWORK_LOG_CAPACITY
    }

    /// A record for `tab_id` with nothing in it yet, stamped `now`.
    pub fn empty(tab_id: u32, now: u64) -> (r: TabData)
        ensures
            r.wf(),
            r.tab_id == tab_id,
            r.page_content is None,
            r.dom_snapshot is None,
            r.console_logs@ == Seq::<ConsoleMessage>::empty(),
            r.network_data@ == Seq::<NetworkRequest>::empty(),
            r.performance_metrics is None,
            r.accessibility_tree is None,
            r.screenshot_data is None,
            !r.debugger_attached,
            r.last_updated == now,
    {
        TabData {
            tab_id,
            page_content: None,
            dom_snapshot: None,
            console_logs: RingBuffer::new(CONSOLE_LOG_CAPACITY),
            network_data: RingBuffer::new(NETWORK_LOG_CAPACITY),
            performance_metrics: None,
            accessibility_tree: None,
            screenshot_data: None,
            debugger_attached: false,
            last_updated: now,
        }
    }
}

/// The part of a tab record that a write sets.
pub enum TabField {
    PageContent,
    DomSnapshot,
    ConsoleLogs,
    NetworkData,
    PerformanceMetrics,
    AccessibilityTree,
    Screenshot,
    Debugger,
}

/// The history `s` after appending `item` to a buffer of capacity `cap` that drops
/// its oldest entry when full.
pub open spec fn bounded_push<T>(s: Seq<T>, item: T, cap: nat) -> Seq<T> {
    if s.len() < cap {
        s.push(item)
    } else {
        s.drop_first().push(item)
    }
}

/// Holds when `d` keeps, for tab `t`, every field of what `old` had other than `f`
/// (a tab absent from `old` counts as empty), apart from `last_updated`.
pub open spec fn keeps_other_fields(old: Map<u32, TabData>, t: u32, d: TabData, f: TabField) -> bool {
    let present = old.contains_key(t);
    &&& d.wf()
    &&& d.tab_id == t
    &&& !(f is PageContent) ==> d.page_content == (if present {
        old[t].page_content
    } else {
        None
    })
    &&& !(f is DomSnapshot) ==> d.dom_snapshot == (if present {
        old[t].dom_snapshot
    } else {
        None
    })
    &&& !(f is ConsoleLogs) ==> d.console_logs@ == (if present {
        old[t].console_logs@
    } else {
        Seq::empty()
    })
    &&& !(f is NetworkData) ==> d.network_data@ == (if present {
        old[t].network_data@
    } else {
        Seq::empty()
    })
    &&& !(f is PerformanceMetrics) ==> d.performance_metrics == (if present {
        old[t].performance_metrics
    } else {
        None
    })
    &&& !(f is AccessibilityTree) ==> d.accessibility_tree == (if present {
        old[t].accessibility_tree
    } else {
        None
    })
    &&& !(f is Screenshot) ==> d.screenshot_data == (if present {
        old[t].screenshot_data
    } else {
        None
    })
    &&& !(f is Debugger) ==> d.debugger_attached == (present && old[t].debugger_attached)
}

/// The console history of tab `t` in `m`, empty for an absent tab.
pub open spec fn console_of(m: Map<u32, TabData>, t: u32) -> Seq<ConsoleMessage> {
    if m.contains_key(t) {
        m[t].console_logs@
    } else {
        Seq::empty()
    }
}

/// The network history of tab `t` in `m`, empty for an absent tab.
pub open spec fn network_of(m: Map<u32, TabData>, t: u32) -> Seq<NetworkRequest> {
    if m.contains_key(t) {
        m[t].network_data@
    } else {
        Seq::empty()
    }
}

/// A tab whose last update lies more than `ttl` before `now`. A stamp after
/// `now` has age zero.
pub open spec fn is_stale(d: TabData, now: u64, ttl: u64) -> bool {
    d.last_updated <= now && now - d.last_updated > ttl
}

/// Tab-keyed store of browser snapshots with bounded histories, LRU and TTL
/// eviction, hit and miss counters, and connection bindings.
pub struct BrowserDataCache {
    tab_data: HashMap<u32, TabData>,
    tab_order: Vec<u32>,
    connection_tabs: HashMap<u128, u32>,
    connection_order: Vec<u128>,
    max_cache_size: usize,
    cleanup_interval_secs: u64,
    data_ttl: u64,
    cache_hits: u64,
    cache_misses: u64,
}

/// How often the periodic cleanup runs, in seconds.
pub const CLEANUP_INTERVAL_SECS: u64 = 300;

impl BrowserDataCache {
    /// The cached records by tab.
    pub closed spec fn tabs(&self) -> Map<u32, TabData> {
        self.tab_data@
    }

    /// The cached tabs in the order they were first written.
    pub closed spec fn tab_order(&self) -> Seq<u32> {
        self.tab_order@
    }

    /// The tab each registered connection is bound to.
    pub closed spec fn bindings(&self) -> Map<u128, u32> {
        self.connection_tabs@
    }

    pub closed spec fn hits(&self) -> u64 {
        self.cache_hits
    }

    pub closed spec fn misses(&self) -> u64 {
        self.cache_misses
    }

    pub closed spec fn max_size(&self) -> nat {
        self.max_cache_size as nat
    }

    pub closed spec fn ttl(&self) -> u64 {
        self.data_ttl
    }

    pub closed spec fn wf(&self) -> bool {
        &&& lists_keys(self.tab_order@, self.tab_data@)
        &&& lists_keys(self.connection_order@, self.connection_tabs@)
        &&& forall|t: u32| #[trigger]
            self.tab_data@.contains_key(t) ==> self.tab_data@[t].wf() && self.tab_data@[t].tab_id
                == t
    }

    /// Every cached tab's histories stay within their capacities.
    pub proof fn lemma_histories_bounded(&self, t: u32)
        requires
            self.wf(),
            self.tabs().contains_key(t),
        ensures
            self.tabs()[t].console_logs@.len() <= CONSOLE_LOG_CAPACITY,
            self.tabs()[t].network_data@.len() <= NETWORK_LOG_CAPACITY,
    {
        self.tab_data@[t].console_logs.lemma_len_bounded();
        self.tab_data@[t].network_data.lemma_len_bounded();
    }

    /// The hit rate as numerator and denominator: `hits / (hits + misses)`.
    pub open spec fn hit_rate(&self) -> (int, int) {
        (self.hits() as int, self.hits() + self.misses())
    }

    /// Work that looks no tab up leaves the hit rate as it was: between two
    /// states with the same counters the rate is the same, whatever else changed.
    pub proof fn lemma_hit_rate_stable(before: &BrowserDataCache, after: &BrowserDataCache)
        requires
            after.hits() == before.hits(),
            after.misses() == before.misses(),
        ensures
            after.hit_rate() == before.hit_rate(),
    {
    }

    /// `data_ttl` is in milliseconds.
    pub fn new(max_cache_size: usize, data_ttl: u64) -> (r: Self)
        ensures
            r.wf(),
            r.tabs() == Map::<u32, TabData>::empty(),
            r.bindings() == Map::<u128, u32>::empty(),
            r.hits() == 0,
            r.misses() == 0,
            r.max_size() == max_cache_size,
            r.ttl() == data_ttl,
    {
        let r = BrowserDataCache {
            tab_data: HashMap::new(),
            tab_order: Vec::new(),
            connection_tabs: HashMap::new(),
            connection_order: Vec::new(),
            max_cache_size,
            cleanup_interval_secs: CLEANUP_INTERVAL_SECS,
            data_ttl,
            cache_hits: 0,
            cache_misses: 0,
        };
        assert(r.tab_data@.dom() =~= Set::<u32>::empty());
        assert(r.connection_tabs@.dom() =~= Set::<u128>::empty());
        r
    }

    /// Bindings, counters and settings are as in `o`.
    pub open spec fn same_bindings_and_counts(&self, o: &Self) -> bool {
        &&& self.bindings() == o.bindings()
        &&& self.hits() == o.hits()
        &&& self.misses() == o.misses()
        &&& self.max_size() == o.max_size()
        &&& self.ttl() == o.ttl()
    }

    /// The order after a write to `t`: a new tab goes last.
    pub open spec fn order_after_write(&self, t: u32) -> Seq<u32> {
        if self.tabs().contains_key(t) {
            self.tab_order()
        } else {
            self.tab_order().push(t)
        }
    }

    /// Replaces the page content of `tab_id`. The record is created when missing, stamped `now`, and the change
    /// is returned as the event to broadcast.
    pub fn update_page_content(&mut self, tab_id: u32, content: PageContent, now: u64) -> (r: DataUpdateEvent)
        requires
            old(self).wf(),
        ensures
            final(self).wf(),
            final(self).same_bindings_and_counts(old(self)),
            final(self).tab_order() == old(self).order_after_write(tab_id),
            final(self).tabs() == old(self).tabs().insert(tab_id, final(self).tabs()[tab_id]),
            keeps_other_fields(old(self).tabs(), tab_id, final(self).tabs()[tab_id], TabField::PageContent),
            final(self).tabs()[tab_id].page_content == Some(content),
            final(self).tabs()[tab_id].last_updated == now,
            r == (DataUpdateEvent {
                tab_id,
                update_type: DataUpdateType::PageContentUpdated,
                timestamp: now,
            }),
    {
        let ghost before = self.tab_data@;
        let mut d = self.take_or_create(tab_id, now);
        d.page_content = Some(content);
        d.last_updated = now;
        self.put_back(d, Ghost(before));
        DataUpdateEvent { tab_id, update_type: DataUpdateType::PageContentUpdated, timestamp: now }
    }

    /// Replaces the DOM snapshot of `tab_id`. The record is created when missing, stamped `now`, and the change
    /// is returned as the event to broadcast.
    pub fn update_dom_snapshot(&mut self, tab_id: u32, snapshot: DomSnapshot, now: u64) -> (r: DataUpdateEvent)
        requires
            old(self).wf(),
        ensures
            final(self).wf(),
            final(self).same_bindings_and_counts(old(self)),
            final(self).tab_order() == old(self).order_after_write(tab_id),
            final(self).tabs() == old(self).tabs().insert(tab_id, final(self).tabs()[tab_id]),
            keeps_other_fields(old(self).tabs(), tab_id, final(self).tabs()[tab_id], TabField::DomSnapshot),
            final(self).tabs()[tab_id].dom_snapshot == Some(snapshot),
            final(self).tabs()[tab_id].last_updated == now,
            r == (DataUpdateEvent {
                tab_id,
                update_type: DataUpdateType::DomSnapshotUpdated,
                timestamp: now,
            }),
    {
        let ghost before = self.tab_data@;
        let mut d = self.take_or_create(tab_id, now);
        d.dom_snapshot = Some(snapshot);
        d.last_updated = now;
        self.put_back(d, Ghost(before));
        DataUpdateEvent { tab_id, update_type: DataUpdateType::DomSnapshotUpdated, timestamp: now }
    }

    /// Replaces the performance metrics (JSON text) of `tab_id`. The record is created when missing, stamped `now`, and the change
    /// is returned as the event to broadcast.
    pub fn update_performance_metrics(&mut self, tab_id: u32, metrics: String, now: u64) -> (r: DataUpdateEvent)
        requires
            old(self).wf(),
        ensures
            final(self).wf(),
            final(self).same_bindings_and_counts(old(self)),
            final(self).tab_order() == old(self).order_after_write(tab_id),
            final(self).tabs() == old(self).tabs().insert(tab_id, final(self).tabs()[tab_id]),
            keeps_other_fields(old(self).tabs(), tab_id, final(self).tabs()[tab_id], TabField::PerformanceMetrics),
            final(self).tabs()[tab_id].performance_metrics == Some(metrics),
            final(self).tabs()[tab_id].last_updated == now,
            r == (DataUpdateEvent {
                tab_id,
                update_type: DataUpdateType::PerformanceMetricsUpdated,
                timestamp: now,
            }),
    {
        let ghost before = self.tab_data@;
        let mut d = self.take_or_create(tab_id, now);
        d.performance_metrics = Some(metrics);
        d.last_updated = now;
        self.put_back(d, Ghost(before));
        DataUpdateEvent { tab_id, update_type: DataUpdateType::PerformanceMetricsUpdated, timestamp: now }
    }

    /// Replaces the accessibility tree (JSON text) of `tab_id`. The record is created when missing, stamped `now`, and the change
    /// is returned as the event to broadcast.
    pub fn update_accessibility_tree(&mut self, tab_id: u32, tree: String, now: u64) -> (r: DataUpdateEvent)
        requires
            old(self).wf(),
        ensures
            final(self).wf(),
            final(self).same_bindings_and_counts(old(self)),
            final(self).tab_order() == old(self).order_after_write(tab_id),
            final(self).tabs() == old(self).tabs().insert(tab_id, final(self).tabs()[tab_id]),
            keeps_other_fields(old(self).tabs(), tab_id, final(self).tabs()[tab_id], TabField::AccessibilityTree),
            final(self).tabs()[tab_id].accessibility_tree == Some(tree),
            final(self).tabs()[tab_id].last_updated == now,
            r == (DataUpdateEvent {
                tab_id,
                update_type: DataUpdateType::AccessibilityTreeUpdated,
                timestamp: now,
            }),
    {
        let ghost before = self.tab_data@;
        let mut d = self.take_or_create(tab_id, now);
        d.accessibility_tree = Some(tree);
        d.last_updated = now;
        self.put_back(d, Ghost(before));
        DataUpdateEvent { tab_id, update_type: DataUpdateType::AccessibilityTreeUpdated, timestamp: now }
    }

    /// Replaces the screenshot of `tab_id`. The record is created when missing, stamped `now`, and the change
    /// is returned as the event to broadcast.
    pub fn update_screenshot(&mut self, tab_id: u32, screenshot: ScreenshotData, now: u64) -> (r: DataUpdateEvent)
        requires
            old(self).wf(),
        ensures
            final(self).wf(),
            final(self).same_bindings_and_counts(old(self)),
            final(self).tab_order() == old(self).order_after_write(tab_id),
            final(self).tabs() == old(self).tabs().insert(tab_id, final(self).tabs()[tab_id]),
            keeps_other_fields(old(self).tabs(), tab_id, final(self).tabs()[tab_id], TabField::Screenshot),
            final(self).tabs()[tab_id].screenshot_data == Some(screenshot),
            final(self).tabs()[tab_id].last_updated == now,
            r == (DataUpdateEvent {
                tab_id,
                update_type: DataUpdateType::ScreenshotCaptured,
                timestamp: now,
            }),
    {
        let ghost before = self.tab_data@;
        let mut d = self.take_or_create(tab_id, now);
        d.screenshot_data = Some(screenshot);
        d.last_updated = now;
        self.put_back(d, Ghost(before));
        DataUpdateEvent { tab_id, update_type: DataUpdateType::ScreenshotCaptured, timestamp: now }
    }

    /// Appends a console entry to `tab_id`, dropping the oldest beyond the capacity. A missing record is created stamped `now`; an existing one keeps its stamp.
    pub fn add_console_message(&mut self, tab_id: u32, message: ConsoleMessage, now: u64) -> (r: DataUpdateEvent)
        requires
            old(self).wf(),
        ensures
            final(self).wf(),
            final(self).same_bindings_and_counts(old(self)),
            final(self).tab_order() == old(self).order_after_write(tab_id),
            final(self).tabs() == old(self).tabs().insert(tab_id, final(self).tabs()[tab_id]),
            keeps_other_fields(old(self).tabs(), tab_id, final(self).tabs()[tab_id], TabField::ConsoleLogs),
            final(self).tabs()[tab_id].console_logs@ == bounded_push(console_of(old(self).tabs(), tab_id), message, CONSOLE_LOG_CAPACITY as nat),
            final(self).tabs()[tab_id].last_updated == if old(self).tabs().contains_key(tab_id) {
                old(self).tabs()[tab_id].last_updated
            } else {
                now
            },
            r == (DataUpdateEvent {
                tab_id,
                update_type: DataUpdateType::ConsoleMessageAdded,
                timestamp: now,
            }),
    {
        let ghost before = self.tab_data@;
        let mut d = self.take_or_create(tab_id, now);
        proof {
            d.console_logs.lemma_len_bounded();
        }
        d.console_logs.push(message);
        self.put_back(d, Ghost(before));
        DataUpdateEvent { tab_id, update_type: DataUpdateType::ConsoleMessageAdded, timestamp: now }
    }

    /// Appends a network exchange to `tab_id`, dropping the oldest beyond the capacity. A missing record is created stamped `now`; an existing one keeps its stamp.
    pub fn add_network_request(&mut self, tab_id: u32, request: NetworkRequest, now: u64) -> (r: DataUpdateEvent)
        requires
            old(self).wf(),
        ensures
            final(self).wf(),
            final(self).same_bindings_and_counts(old(self)),
            final(self).tab_order() == old(self).order_after_write(tab_id),
            final(self).tabs() == old(self).tabs().insert(tab_id, final(self).tabs()[tab_id]),
            keeps_other_fields(old(self).tabs(), tab_id, final(self).tabs()[tab_id], TabField::NetworkData),
            final(self).tabs()[tab_id].network_data@ == bounded_push(network_of(old(self).tabs(), tab_id), request, NETWORK_LOG_CAPACITY as nat),
            final(self).tabs()[tab_id].last_updated == if old(self).tabs().contains_key(tab_id) {
                old(self).tabs()[tab_id].last_updated
            } else {
                now
            },
            r == (DataUpdateEvent {
                tab_id,
                update_type: DataUpdateType::NetworkRequestAdded,
                timestamp: now,
            }),
    {
        let ghost before = self.tab_data@;
        let mut d = self.take_or_create(tab_id, now);
        proof {
            d.network_data.lemma_len_bounded();
        }
        d.network_data.push(request);
        self.put_back(d, Ghost(before));
        DataUpdateEvent { tab_id, update_type: DataUpdateType::NetworkRequestAdded, timestamp: now }
    }

    /// Records the data an extension event carries: a console entry or a network
    /// exchange goes to its tab's history; other events change nothing. Returns
    /// the change to broadcast.
    pub fn apply_event(&mut self, event: BrowserEvent, now: u64) -> (r: Option<DataUpdateEvent>)
        requires
            old(self).wf(),
        ensures
            final(self).wf(),
            final(self).same_bindings_and_counts(old(self)),
            match event {
                BrowserEvent::ConsoleMessage { tab_id, message } => {
                    &&& final(self).tabs() == old(self).tabs().insert(tab_id, final(self).tabs()[tab_id])
                    &&& keeps_other_fields(old(self).tabs(), tab_id, final(self).tabs()[tab_id], TabField::ConsoleLogs)
                    &&& final(self).tabs()[tab_id].console_logs@ == bounded_push(
                        console_of(old(self).tabs(), tab_id),
                        message,
                        CONSOLE_LOG_CAPACITY as nat,
                    )
                    &&& r == Some(DataUpdateEvent { tab_id, update_type: DataUpdateType::ConsoleMessageAdded, timestamp: now })
                },
                BrowserEvent::NetworkRequest { tab_id, request } => {
                    &&& final(self).tabs() == old(self).tabs().insert(tab_id, final(self).tabs()[tab_id])
                    &&& keeps_other_fields(old(self).tabs(), tab_id, final(self).tabs()[tab_id], TabField::NetworkData)
                    &&& final(self).tabs()[tab_id].network_data@ == bounded_push(
                        network_of(old(self).tabs(), tab_id),
                        request,
                        NETWORK_LOG_CAPACITY as nat,
                    )
                    &&& r == Some(DataUpdateEvent { tab_id, update_type: DataUpdateType::NetworkRequestAdded, timestamp: now })
                },
                _ => final(self).tabs() == old(self).tabs() && r is None,
            },
    {
        match event {
            BrowserEvent::ConsoleMessage { tab_id, message } => Some(self.add_console_message(tab_id, message, now)),
            BrowserEvent::NetworkRequest { tab_id, request } => Some(self.add_network_request(tab_id, request, now)),
            _ => None,
        }
    }

    /// Records whether a debugger is attached to `tab_id`; a tab with no record is
    /// left alone. No event is emitted.
    pub fn set_debugger_attached(&mut self, tab_id: u32, attached: bool, now: u64)
        requires
            old(self).wf(),
        ensures
            final(self).wf(),
            final(self).same_bindings_and_counts(old(self)),
            final(self).tab_order() == old(self).tab_order(),
            old(self).tabs().contains_key(tab_id) ==> final(self).tabs() == old(self).tabs().insert(
                tab_id,
                final(self).tabs()[tab_id],
            ) && keeps_other_fields(old(self).tabs(), tab_id, final(self).tabs()[tab_id], TabField::Debugger)
                && final(self).tabs()[tab_id].debugger_attached == attached
                && final(self).tabs()[tab_id].last_updated == now,
            !old(self).tabs().contains_key(tab_id) ==> final(self).tabs() == old(self).tabs(),
    {
        if self.tab_data.contains_key(&tab_id) {
            let ghost before = self.tab_data@;
            let mut d = self.take_or_create(tab_id, now);
            d.debugger_attached = attached;
            d.last_updated = now;
            self.put_back(d, Ghost(before));
        }
    }

    /// The record of `tab_id`, counting a hit when present and a miss when absent.
    pub fn get_tab_data(&mut self, tab_id: u32) -> (r: Option<&TabData>)
        requires
            old(self).wf(),
        ensures
            final(self).wf(),
            final(self).tabs() == old(self).tabs(),
            final(self).tab_order() == old(self).tab_order(),
            final(self).bindings() == old(self).bindings(),
            final(self).max_size() == old(self).max_size(),
            final(self).ttl() == old(self).ttl(),
            final(self).counted_lookup(old(self), tab_id),
            r is Some <==> old(self).tabs().contains_key(tab_id),
            r matches Some(d) ==> *d == old(self).tabs()[tab_id],
    {
        if self.tab_data.contains_key(&tab_id) {
            self.cache_hits = if self.cache_hits == u64::MAX {
                0
            } else {
                self.cache_hits + 1
            };
        } else {
            self.cache_misses = if self.cache_misses == u64::MAX {
                0
            } else {
                self.cache_misses + 1
            };
        }
        self.tab_data.get(&tab_id)
    }

    /// Every cached record, in the order the tabs were first written.
    pub fn get_all_tabs(&self) -> (r: Vec<&TabData>)
        requires
            self.wf(),
        ensures
            r@.len() == self.tab_order().len(),
            forall|i: int| 0 <= i < r@.len() ==> *(#[trigger] r@[i]) == self.tabs()[self.tab_order()[i]],
    {
        let mut out: Vec<&TabData> = Vec::new();
        let mut i: usize = 0;
        while i < self.tab_order.len()
            invariant
                self.wf(),
                i <= self.tab_order@.len(),
                out@.len() == i,
                forall|j: int| 0 <= j < i ==> *(#[trigger] out@[j]) == self.tab_data@[self.tab_order@[j]],
            decreases self.tab_order@.len() - i,
        {
            let t = self.tab_order[i];
            assert(self.tab_data@.contains_key(self.tab_order@[i as int]));
            match self.tab_data.get(&t) {
                Some(d) => out.push(d),
                None => {
                    return out;
                },
            }
            i = i + 1;
        }
        out
    }

    /// The page content of `tab_id`; counted as `get_tab_data` counts.
    pub fn get_page_content(&mut self, tab_id: u32) -> (r: Option<&PageContent>)
        requires
            old(self).wf(),
        ensures
            final(self).wf(),
            final(self).tabs() == old(self).tabs(),
            final(self).tab_order() == old(self).tab_order(),
            final(self).bindings() == old(self).bindings(),
            final(self).max_size() == old(self).max_size(),
            final(self).ttl() == old(self).ttl(),
            final(self).counted_lookup(old(self), tab_id),
            r is Some <==> old(self).tabs().contains_key(tab_id) && old(self).tabs()[tab_id].page_content is Some,
            r matches Some(c) ==> *c == old(self).tabs()[tab_id].page_content->Some_0,
    {
        match self.get_tab_data(tab_id) {
            Some(d) => match &d.page_content {
                Some(c) => Some(c),
                None => None,
            },
            None => None,
        }
    }

    /// The DOM snapshot of `tab_id`; counted as `get_tab_data` counts.
    pub fn get_dom_snapshot(&mut self, tab_id: u32) -> (r: Option<&DomSnapshot>)
        requires
            old(self).wf(),
        ensures
            final(self).wf(),
            final(self).tabs() == old(self).tabs(),
            final(self).tab_order() == old(self).tab_order(),
            final(self).bindings() == old(self).bindings(),
            final(self).max_size() == old(self).max_size(),
            final(self).ttl() == old(self).ttl(),
            final(self).counted_lookup(old(self), tab_id),
            r is Some <==> old(self).tabs().contains_key(tab_id) && old(self).tabs()[tab_id].dom_snapshot is Some,
            r matches Some(c) ==> *c == old(self).tabs()[tab_id].dom_snapshot->Some_0,
    {
        match self.get_tab_data(tab_id) {
            Some(d) => match &d.dom_snapshot {
                Some(c) => Some(c),
                None => None,
            },
            None => None,
        }
    }

    /// A copy of the console history of `tab_id`, oldest first; `None` when the
    /// tab has no record. Counted as `get_tab_data` counts.
    pub fn get_console_logs(&mut self, tab_id: u32) -> (r: Option<Vec<ConsoleMessage>>)
        requires
            old(self).wf(),
        ensures
            final(self).wf(),
            final(self).tabs() == old(self).tabs(),
            final(self).tab_order() == old(self).tab_order(),
            final(self).bindings() == old(self).bindings(),
            final(self).max_size() == old(self).max_size(),
            final(self).ttl() == old(self).ttl(),
            final(self).counted_lookup(old(self), tab_id),
            r is Some <==> old(self).tabs().contains_key(tab_id),
            r matches Some(v) ==> v@ == old(self).tabs()[tab_id].console_logs@,
    {
        match self.get_tab_data(tab_id) {
            Some(d) => {
                let mut out: Vec<ConsoleMessage> = Vec::new();
                let mut it = d.console_logs.iter();
                loop
                    invariant
                        it.wf(),
                        out@ + it@ == d.console_logs@,
                    ensures
                        out@ == d.console_logs@,
                    decreases it@.len(),
                {
                    match it.next() {
                        Some(m) => {
                            out.push(m.clone());
                        },
                        None => {
                            assert(out@ =~= d.console_logs@);
                            break ;
                        },
                    }
                }
                Some(out)
            },
            None => None,
        }
    }

    /// A copy of the network history of `tab_id`, oldest first; `None` when the
    /// tab has no record. Counted as `get_tab_data` counts.
    pub fn get_network_requests(&mut self, tab_id: u32) -> (r: Option<Vec<NetworkRequest>>)
        requires
            old(self).wf(),
        ensures
            final(self).wf(),
            final(self).tabs() == old(self).tabs(),
            final(self).tab_order() == old(self).tab_order(),
            final(self).bindings() == old(self).bindings(),
            final(self).max_size() == old(self).max_size(),
            final(self).ttl() == old(self).ttl(),
            final(self).counted_lookup(old(self), tab_id),
            r is Some <==> old(self).tabs().contains_key(tab_id),
            r matches Some(v) ==> v@.len() == old(self).tabs()[tab_id].network_data@.len() && forall|i: int|
                0 <= i < v@.len() ==> (#[trigger] v@[i]).same_as(&old(self).tabs()[tab_id].network_data@[i]),
    {
        match self.get_tab_data(tab_id) {
            Some(d) => {
                let mut out: Vec<NetworkRequest> = Vec::new();
                let mut it = d.network_data.iter();
                let ghost all = d.network_data@;
                loop
                    invariant
                        it.wf(),
                        all == d.network_data@,
                        out@.len() + it@.len() == all.len(),
                        it@ == all.subrange(out@.len() as int, all.len() as int),
                        forall|i: int| 0 <= i < out@.len() ==> (#[trigger] out@[i]).same_as(&all[i]),
                    ensures
                        out@.len() == all.len(),
                        forall|i: int| 0 <= i < out@.len() ==> (#[trigger] out@[i]).same_as(&all[i]),
                    decreases it@.len(),
                {
                    match it.next() {
                        Some(m) => {
                            let c = m.clone();
                            assert(all[out@.len() as int] == *m);
                            out.push(c);
                        },
                        None => {
                            break ;
                        },
                    }
                }
                Some(out)
            },
            None => None,
        }
    }

    /// One lookup of `tab_id` was counted against the counters of `o`.
    pub open spec fn counted_lookup(&self, o: &Self, tab_id: u32) -> bool {
        if o.tabs().contains_key(tab_id) {
            self.hits() == next_count(o.hits()) && self.misses() == o.misses()
        } else {
            self.hits() == o.hits() && self.misses() == next_count(o.misses())
        }
    }

    /// Binds `connection_id` to `tab_id`, replacing an earlier binding of it.
    pub fn register_connection(&mut self, connection_id: u128, tab_id: u32)
        requires
            old(self).wf(),
        ensures
            final(self).wf(),
            final(self).bindings() == old(self).bindings().insert(connection_id, tab_id),
            final(self).tabs() == old(self).tabs(),
            final(self).tab_order() == old(self).tab_order(),
            final(self).hits() == old(self).hits(),
            final(self).misses() == old(self).misses(),
            final(self).max_size() == old(self).max_size(),
            final(self).ttl() == old(self).ttl(),
    {
        proof {
            if self.connection_tabs@.contains_key(connection_id) {
                lemma_lists_keys_update(self.connection_order@, self.connection_tabs@, connection_id, tab_id);
            } else {
                lemma_lists_keys_insert_new(self.connection_order@, self.connection_tabs@, connection_id, tab_id);
            }
        }
        if !self.connection_tabs.contains_key(&connection_id) {
            self.connection_order.push(connection_id);
        }
        self.connection_tabs.insert(connection_id, tab_id);
    }

    /// Drops the binding of `connection_id`, if any.
    pub fn unregister_connection(&mut self, connection_id: u128)
        requires
            old(self).wf(),
        ensures
            final(self).wf(),
            final(self).bindings() == old(self).bindings().remove(connection_id),
            final(self).tabs() == old(self).tabs(),
            final(self).tab_order() == old(self).tab_order(),
            final(self).hits() == old(self).hits(),
            final(self).misses() == old(self).misses(),
            final(self).max_size() == old(self).max_size(),
            final(self).ttl() == old(self).ttl(),
    {
        if self.connection_tabs.contains_key(&connection_id) {
            let i = index_of_u128(&self.connection_order, connection_id);
            proof {
                lemma_lists_keys_index_of(self.connection_order@, self.connection_tabs@, connection_id);
                lemma_lists_keys_remove(self.connection_order@, self.connection_tabs@, i as int);
            }
            self.connection_order.remove(i);
            self.connection_tabs.remove(&connection_id);
        } else {
            assert(self.connection_tabs@.remove(connection_id) =~= self.connection_tabs@);
        }
    }

    /// The connections bound to `tab_id`, in the order they were first registered.
    pub fn get_connections_for_tab(&self, tab_id: u32) -> (r: Vec<u128>)
        requires
            self.wf(),
        ensures
            no_dups(r@),
            forall|c: u128| r@.contains(c) <==> self.bindings().contains_key(c) && self.bindings()[c] == tab_id,
    {
        let mut out: Vec<u128> = Vec::new();
        let mut i: usize = 0;
        while i < self.connection_order.len()
            invariant
                self.wf(),
                i <= self.connection_order@.len(),
                no_dups(out@),
                forall|c: u128| out@.contains(c) <==> exists|j: int| 0 <= j < i && self.connection_order@[j] == c
                    && self.connection_tabs@[c] == tab_id,
            decreases self.connection_order@.len() - i,
        {
            let c = self.connection_order[i];
            assert(self.connection_tabs@.contains_key(self.connection_order@[i as int]));
            let bound = self.connection_tabs.get(&c);
            let ghost before = out@;
            if bound == Some(&tab_id) {
                assert(!before.contains(c));
                out.push(c);
                assert forall|x: u128| out@.contains(x) <==> exists|j: int| 0 <= j < i + 1 && self.connection_order@[j] == x
                    && self.connection_tabs@[x] == tab_id by {
                    if x == c {
                        assert(out@[before.len() as int] == c);
                    } else if before.contains(x) {
                        let k = choose|k: int| 0 <= k < before.len() && before[k] == x;
                        assert(out@[k] == x);
                    }
                }
            } else {
                assert forall|x: u128| out@.contains(x) <==> exists|j: int| 0 <= j < i + 1 && self.connection_order@[j] == x
                    && self.connection_tabs@[x] == tab_id by {
                    if exists|j: int| 0 <= j < i + 1 && self.connection_order@[j] == x && self.connection_tabs@[x] == tab_id {
                        let j = choose|j: int| 0 <= j < i + 1 && self.connection_order@[j] == x && self.connection_tabs@[x] == tab_id;
                        if j == i {
                            assert(x == c);
                        }
                    }
                }
            }
            i = i + 1;
        }
        assert forall|c: u128| out@.contains(c) <==> self.bindings().contains_key(c) && self.bindings()[c] == tab_id by {
            if self.connection_tabs@.contains_key(c) && self.connection_tabs@[c] == tab_id {
                let j = lemma_lists_keys_index_of(self.connection_order@, self.connection_tabs@, c);
            }
        }
        out
    }

    /// Hits and misses counted so far.
    pub fn get_cache_stats(&self) -> (r: (u64, u64))
        ensures
            r == (self.hits(), self.misses()),
    {
        (self.cache_hits, self.cache_misses)
    }

    /// Drops the record of `tab_id` and every connection binding to it.
    pub fn remove_tab_data(&mut self, tab_id: u32)
        requires
            old(self).wf(),
        ensures
            final(self).wf(),
            final(self).tabs() == old(self).tabs().remove(tab_id),
            final(self).bindings() == unbound_from(old(self).bindings(), tab_id),
            final(self).hits() == old(self).hits(),
            final(self).misses() == old(self).misses(),
            final(self).max_size() == old(self).max_size(),
            final(self).ttl() == old(self).ttl(),
    {
        if self.tab_data.contains_key(&tab_id) {
            proof {
                lemma_lists_keys_index_of(self.tab_order@, self.tab_data@, tab_id);
            }
            let i = index_of_u32(&self.tab_order, tab_id);
            proof {
                lemma_lists_keys_remove(self.tab_order@, self.tab_data@, i as int);
            }
            self.tab_order.remove(i);
            self.tab_data.remove(&tab_id);
        } else {
            assert(self.tab_data@.remove(tab_id) =~= self.tab_data@);
        }
        let ghost old_b = self.connection_tabs@;
        let ghost tabs_now = self.tab_data@;
        let ghost order_now = self.tab_order@;
        let mut i: usize = 0;
        while i < self.connection_order.len()
            invariant
                self.tab_data@ == tabs_now,
                self.tab_order@ == order_now,
                tabs_now == old(self).tab_data@.remove(tab_id),
                lists_keys(order_now, tabs_now),
                forall|t: u32| #[trigger]
                    tabs_now.contains_key(t) ==> tabs_now[t].wf() && tabs_now[t].tab_id == t,
                self.cache_hits == old(self).cache_hits,
                self.cache_misses == old(self).cache_misses,
                self.max_cache_size == old(self).max_cache_size,
                self.data_ttl == old(self).data_ttl,
                lists_keys(self.connection_order@, self.connection_tabs@),
                i <= self.connection_order@.len(),
                forall|c: u128| #[trigger]
                    self.connection_tabs@.contains_key(c) ==> old_b.contains_key(c)
                        && self.connection_tabs@[c] == old_b[c],
                forall|c: u128| #[trigger]
                    old_b.contains_key(c) && old_b[c] != tab_id ==> self.connection_tabs@.contains_key(c),
                forall|j: int| 0 <= j < i ==> self.connection_tabs@[#[trigger] self.connection_order@[j]] != tab_id,
            decreases self.connection_order@.len() - i,
        {
            let c = self.connection_order[i];
            assert(self.connection_tabs@.contains_key(self.connection_order@[i as int]));
            if self.connection_tabs.get(&c) == Some(&tab_id) {
                proof {
                    lemma_lists_keys_remove(self.connection_order@, self.connection_tabs@, i as int);
                }
                let ghost before = self.connection_order@;
                self.connection_order.remove(i);
                self.connection_tabs.remove(&c);
                assert forall|j: int| 0 <= j < i implies self.connection_tabs@[#[trigger] self.connection_order@[j]] != tab_id by {
                    assert(self.connection_order@[j] == before[j]);
                }
            } else {
                i = i + 1;
            }
        }
        assert forall|c: u128| self.connection_tabs@.contains_key(c) implies self.connection_tabs@[c] != tab_id by {
            let j = lemma_lists_keys_index_of(self.connection_order@, self.connection_tabs@, c);
        }
        assert(self.connection_tabs@ =~= unbound_from(old_b, tab_id));
    }

    /// The cached tab with the oldest stamp; ties go to the tab written first.
    fn oldest_tab(&self) -> (r: u32)
        requires
            self.wf(),
            self.tab_data@.len() > 0,
        ensures
            self.tab_data@.contains_key(r),
            forall|u: u32| #[trigger]
                self.tab_data@.contains_key(u) ==> self.tab_data@[r].last_updated
                    <= self.tab_data@[u].last_updated,
    {
        proof {
            let k = self.tab_data@.dom().choose();
            assert(self.tab_data@.dom().contains(k));
            lemma_lists_keys_index_of(self.tab_order@, self.tab_data@, k);
        }
        let mut best: usize = 0;
        let mut best_time: u64 = match self.tab_data.get(&self.tab_order[0]) {
            Some(d) => d.last_updated,
            None => 0,
        };
        assert(self.tab_data@.contains_key(self.tab_order@[0]));
        let mut i: usize = 1;
        while i < self.tab_order.len()
            invariant
                self.wf(),
                1 <= i <= self.tab_order@.len(),
                best < i,
                best_time == self.tab_data@[self.tab_order@[best as int]].last_updated,
                forall|j: int| 0 <= j < i ==> best_time <= self.tab_data@[#[trigger] self.tab_order@[j]].last_updated,
            decreases self.tab_order@.len() - i,
        {
            assert(self.tab_data@.contains_key(self.tab_order@[i as int]));
            let t = match self.tab_data.get(&self.tab_order[i]) {
                Some(d) => d.last_updated,
                None => best_time,
            };
            if t < best_time {
                best = i;
                best_time = t;
            }
            i = i + 1;
        }
        assert forall|u: u32| #[trigger] self.tab_data@.contains_key(u) implies best_time <= self.tab_data@[u].last_updated by {
            let j = lemma_lists_keys_index_of(self.tab_order@, self.tab_data@, u);
        }
        assert(self.tab_data@.contains_key(self.tab_order@[best as int]));
        self.tab_order[best]
    }

    /// Evicts every tab whose last update is more than the TTL before `now`; then,
    /// while more tabs remain than the size limit, evicts the oldest. Bindings to
    /// evicted tabs go with them.
    pub fn cleanup_stale_data(&mut self, now: u64)
        requires
            old(self).wf(),
        ensures
            final(self).wf(),
            final(self).hits() == old(self).hits(),
            final(self).misses() == old(self).misses(),
            final(self).max_size() == old(self).max_size(),
            final(self).ttl() == old(self).ttl(),
            forall|t: u32| #[trigger]
                final(self).tabs().contains_key(t) ==> old(self).tabs().contains_key(t) && !is_stale(
                    old(self).tabs()[t],
                    now,
                    old(self).ttl(),
                ) && final(self).tabs()[t] == old(self).tabs()[t],
            forall|t: u32, u: u32|
                #![trigger old(self).tabs()[t], final(self).tabs()[u]]
                fresh_tabs(old(self).tabs(), now, old(self).ttl()).contains(t) && !final(self).tabs().contains_key(t)
                    && final(self).tabs().contains_key(u) ==> old(self).tabs()[t].last_updated
                    <= old(self).tabs()[u].last_updated,
            final(self).tabs().len() == min(
                old(self).max_size() as int,
                fresh_tabs(old(self).tabs(), now, old(self).ttl()).len() as int,
            ),
            final(self).bindings() == bindings_kept(old(self).bindings(), old(self).tabs(), final(self).tabs()),
    {
        let ghost old_t = self.tab_data@;
        let ghost old_b = self.connection_tabs@;
        let ghost fresh = fresh_tabs(old_t, now, self.data_ttl);
        let mut ids: Vec<u32> = Vec::new();
        let mut k: usize = 0;
        while k < self.tab_order.len()
            invariant
                k <= self.tab_order@.len(),
                ids@ == self.tab_order@.subrange(0, k as int),
            decreases self.tab_order@.len() - k,
        {
            ids.push(self.tab_order[k]);
            k = k + 1;
            assert(ids@ =~= self.tab_order@.subrange(0, k as int));
        }
        assert(ids@ =~= self.tab_order@);
        assert(self.connection_tabs@ =~= bindings_kept(old_b, old_t, self.tab_data@));
        let mut i: usize = 0;
        while i < ids.len()
            invariant
                self.wf(),
                self.cache_hits == old(self).cache_hits,
                self.cache_misses == old(self).cache_misses,
                self.max_cache_size == old(self).max_cache_size,
                self.data_ttl == old(self).data_ttl,
                fresh == fresh_tabs(old_t, now, self.data_ttl),
                lists_keys(ids@, old_t),
                i <= ids@.len(),
                forall|t: u32| #[trigger]
                    self.tab_data@.contains_key(t) ==> old_t.contains_key(t) && self.tab_data@[t] == old_t[t],
                forall|j: int| 0 <= j < i ==> (self.tab_data@.contains_key(#[trigger] ids@[j]) <==> fresh.contains(ids@[j])),
                forall|j: int| i <= j < ids@.len() ==> self.tab_data@.contains_key(#[trigger] ids@[j]),
                self.connection_tabs@ == bindings_kept(old_b, old_t, self.tab_data@),
            decreases ids@.len() - i,
        {
            let t = ids[i];
            assert(old_t.contains_key(ids@[i as int]));
            let stale = match self.tab_data.get(&t) {
                Some(d) => d.last_updated <= now && now - d.last_updated > self.data_ttl,
                None => false,
            };
            let ghost before = self.tab_data@;
            if stale {
                self.remove_tab_data(t);
                assert(self.connection_tabs@ =~= bindings_kept(old_b, old_t, self.tab_data@));
            }
            assert forall|j: int| i + 1 <= j < ids@.len() implies self.tab_data@.contains_key(#[trigger] ids@[j]) by {
                assert(ids@[j] != ids@[i as int]);
                assert(before.contains_key(ids@[j]));
            }
            assert forall|j: int| 0 <= j < i + 1 implies (self.tab_data@.contains_key(#[trigger] ids@[j]) <==> fresh.contains(ids@[j])) by {
                if j < i {
                    assert(ids@[j] != ids@[i as int]);
                    assert(before.contains_key(ids@[j]) == self.tab_data@.contains_key(ids@[j]));
                }
            }
            i = i + 1;
        }
        assert(self.tab_data@.dom() =~= fresh) by {
            assert forall|t: u32| fresh.contains(t) <==> self.tab_data@.contains_key(t) by {
                if fresh.contains(t) {
                    let j = lemma_lists_keys_index_of(ids@, old_t, t);
                }
                if self.tab_data@.contains_key(t) {
                    let j = lemma_lists_keys_index_of(ids@, old_t, t);
                }
            }
        }
        let ghost after_ttl = self.tab_data@;
        while self.tab_data.len() > self.max_cache_size
            invariant
                self.wf(),
                self.cache_hits == old(self).cache_hits,
                self.cache_misses == old(self).cache_misses,
                self.max_cache_size == old(self).max_cache_size,
                self.data_ttl == old(self).data_ttl,
                fresh == fresh_tabs(old_t, now, self.data_ttl),
                after_ttl.dom() == fresh,
                forall|t: u32| #[trigger]
                    self.tab_data@.contains_key(t) ==> fresh.contains(t) && old_t.contains_key(t) && self.tab_data@[t] == old_t[t],
                forall|t: u32, u: u32|
                    #![trigger old_t[t], self.tab_data@[u]]
                    fresh.contains(t) && !self.tab_data@.contains_key(t) && self.tab_data@.contains_key(u)
                        ==> old_t[t].last_updated <= old_t[u].last_updated,
                self.tab_data@.len() <= fresh.len(),
                self.tab_data@.len() < fresh.len() ==> self.tab_data@.len() >= self.max_cache_size,
                self.connection_tabs@ == bindings_kept(old_b, old_t, self.tab_data@),
            decreases self.tab_data@.len(),
        {
            let t = self.oldest_tab();
            let ghost before = self.tab_data@;
            self.remove_tab_data(t);
            assert(self.connection_tabs@ =~= bindings_kept(old_b, old_t, self.tab_data@));
            assert forall|a: u32, u: u32|
                #![trigger old_t[a], self.tab_data@[u]]
                fresh.contains(a) && !self.tab_data@.contains_key(a) && self.tab_data@.contains_key(u)
                    ==> old_t[a].last_updated <= old_t[u].last_updated by {
                if fresh.contains(a) && !self.tab_data@.contains_key(a) && self.tab_data@.contains_key(u) {
                    assert(before.contains_key(u));
                    if a != t {
                        assert(!before.contains_key(a));
                    }
                }
            }
        }
    }

    /// A rough estimate of the memory held: 100 KiB per tab and 1 KiB per
    /// binding, saturating at the largest `usize`.
    pub fn get_memory_usage(&self) -> (r: usize)
        requires
            self.wf(),
        ensures
            r == min((self.tabs().len() * 102400 + self.bindings().len() * 1024) as int, usize::MAX as int),
    {
        let tabs = self.tab_data.len();
        let conns = self.connection_tabs.len();
        let a = tabs.checked_mul(102400);
        let b = conns.checked_mul(1024);
        match (a, b) {
            (Some(x), Some(y)) => match x.checked_add(y) {
                Some(z) => z,
                None => usize::MAX,
            },
            _ => usize::MAX,
        }
    }

    /// Takes the record of `tab_id` out of the table, or makes an empty one
    /// stamped `now`; `put_back` returns it.
    fn take_or_create(&mut self, tab_id: u32, now: u64) -> (r: TabData)
        requires
            old(self).wf(),
        ensures
            final(self).tab_data@ == old(self).tab_data@.remove(tab_id),
            final(self).tab_order@ == old(self).tab_order@,
            final(self).connection_tabs@ == old(self).connection_tabs@,
            final(self).connection_order@ == old(self).connection_order@,
            final(self).cache_hits == old(self).cache_hits,
            final(self).cache_misses == old(self).cache_misses,
            final(self).max_cache_size == old(self).max_cache_size,
            final(self).data_ttl == old(self).data_ttl,
            r.wf(),
            r.tab_id == tab_id,
            old(self).tab_data@.contains_key(tab_id) ==> r == old(self).tab_data@[tab_id],
            !old(self).tab_data@.contains_key(tab_id) ==> keeps_other_fields(
                old(self).tab_data@,
                tab_id,
                r,
                TabField::Debugger,
            ) && !r.debugger_attached && r.last_updated == now,
    {
        match self.tab_data.remove(&tab_id) {
            Some(d) => d,
            None => TabData::empty(tab_id, now),
        }
    }

    /// Stores `d` under its tab, recording the tab's place in the order when new.
    fn put_back(&mut self, d: TabData, before: Ghost<Map<u32, TabData>>)
        requires
            lists_keys(old(self).tab_order@, before@),
            lists_keys(old(self).connection_order@, old(self).connection_tabs@),
            old(self).tab_data@ == before@.remove(d.tab_id),
            forall|t: u32| #[trigger]
                before@.contains_key(t) ==> before@[t].wf() && before@[t].tab_id
                    == t,
            d.wf(),
        ensures
            final(self).wf(),
            final(self).tab_data@ == before@.insert(d.tab_id, d),
            final(self).tab_order@ == if before@.contains_key(d.tab_id) {
                old(self).tab_order@
            } else {
                old(self).tab_order@.push(d.tab_id)
            },
            final(self).connection_tabs@ == old(self).connection_tabs@,
            final(self).connection_order@ == old(self).connection_order@,
            final(self).cache_hits == old(self).cache_hits,
            final(self).cache_misses == old(self).cache_misses,
            final(self).max_cache_size == old(self).max_cache_size,
            final(self).data_ttl == old(self).data_ttl,
    {
        let t = d.tab_id;
        proof {
            if before@.contains_key(t) {
                lemma_lists_keys_update(self.tab_order@, before@, t, d);
            } else {
                lemma_lists_keys_insert_new(self.tab_order@, before@, t, d);
            }
        }
        if !contains_u32(&self.tab_order, t) {
            self.tab_order.push(t);
        } else {
            proof {
                if !before@.contains_key(t) {
                    let j = choose|j: int| 0 <= j < self.tab_order@.len() && self.tab_order@[j] == t;
                    assert(before@.contains_key(self.tab_order@[j]));
                }
            }
        }
        self.tab_data.insert(t, d);
        assert(self.tab_data@ =~= before@.insert(t, d));
    }
}

/// The bindings of `m` other than those to tab `t`.
pub open spec fn unbound_from(m: Map<u128, u32>, t: u32) -> Map<u128, u32> {
    Map::new(|c: u128| m.contains_key(c) && m[c] != t, |c: u128| m[c])
}

/// The bindings of `b` that survive when the tabs of `before` shrink to `after`:
/// those to a tab that remains, or to a tab that was never cached.
pub open spec fn bindings_kept(
    b: Map<u128, u32>,
    before: Map<u32, TabData>,
    after: Map<u32, TabData>,
) -> Map<u128, u32> {
    Map::new(
        |c: u128| b.contains_key(c) && (after.contains_key(b[c]) || !before.contains_key(b[c])),
        |c: u128| b[c],
    )
}

/// The tabs of `m` that are not stale at `now`.
pub open spec fn fresh_tabs(m: Map<u32, TabData>, now: u64, ttl: u64) -> Set<u32> {
    m.dom().filter(|t: u32| !is_stale(m[t], now, ttl))
}

/// `c` plus one, wrapping to zero past the largest value, as an atomic counter does.
pub open spec fn next_count(c: u64) -> u64 {
    if c == u64::MAX {
        0
    } else {
        (c + 1) as u64
    }
}




} // verus!
