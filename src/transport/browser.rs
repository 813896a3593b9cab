use vstd::prelude::*;
use std::collections::HashMap;
use crate::cache::keys::{index_of_u128, index_of_u32, lemma_lists_keys_index_of, lemma_lists_keys_insert_new, lemma_lists_keys_remove, lemma_lists_keys_update, lists_keys};
use crate::clock::now_millis;
use crate::types::browser::clone_opt_string;
use crate::types::errors::BrowserMcpError;

verus! {

broadcast use vstd::std_specs::hash::group_hash_axioms;

/// What is known of one browser tab. `last_seen` is in milliseconds since the
/// Unix epoch.
#[derive(Debug)]
pub struct TabInfo {
    pub tab_id: u32,
    pub title: Option<String>,
    pub url: Option<String>,
    pub active: bool,
    pub connection_count: usize,
    pub last_seen: u64,
}

impl Clone for TabInfo {
    fn clone(&self) -> (r: Self)
        ensures
            r == *self,
    {
        TabInfo {
            tab_id: self.tab_id,
            title: clone_opt_string(&self.title),
            url: clone_opt_string(&self.url),
            active: self.active,
            connection_count: self.connection_count,
            last_seen: self.last_seen,
        }
    }
}

/// A tab that has not been seen for more than `max_age` at `now` and has no
/// connection. A sighting after `now` has age zero.
pub open spec fn is_forgotten(t: TabInfo, now: u64, max_age: u64) -> bool {
    t.connection_count == 0 && t.last_seen <= now && now - t.last_seen > max_age
}

/// With `only_connected`, the tabs of `tabs` that have a connection; else all.
pub open spec fn connected_filter(tabs: Map<u32, TabInfo>, only_connected: bool) -> spec_fn(u32) -> bool {
    |t: u32| !only_connected || tabs[t].connection_count > 0
}

/// The tabs of `m` that a cleanup at `now` keeps.
pub open spec fn remembered(m: Map<u32, TabInfo>, now: u64, max_age: u64) -> Map<u32, TabInfo> {
    m.restrict(m.dom().filter(|t: u32| !is_forgotten(m[t], now, max_age)))
}

/// The tabs known to the bridge and the tab each connection serves.
pub struct BrowserCommunicator {
    active_tabs: HashMap<u32, TabInfo>,
    tab_order: Vec<u32>,
    connection_mapping: HashMap<u128, u32>,
    connection_order: Vec<u128>,
}

impl BrowserCommunicator {
    pub closed spec fn tabs(&self) -> Map<u32, TabInfo> {
        self.active_tabs@
    }

    pub closed spec fn mapping(&self) -> Map<u128, u32> {
        self.connection_mapping@
    }

    /// The known tabs in the order they were first registered.
    pub closed spec fn order(&self) -> Seq<u32> {
        self.tab_order@
    }

    pub closed spec fn wf(&self) -> bool {
        &&& lists_keys(self.tab_order@, self.active_tabs@)
        &&& lists_keys(self.connection_order@, self.connection_mapping@)
        &&& forall|t: u32| #[trigger] self.active_tabs@.contains_key(t) ==> self.active_tabs@[t].tab_id == t
    }

    pub fn new() -> (r: Self)
        ensures
            r.wf(),
            r.tabs() == Map::<u32, TabInfo>::empty(),
            r.mapping() == Map::<u128, u32>::empty(),
    {
        let r = BrowserCommunicator {
            active_tabs: HashMap::new(),
            tab_order: Vec::new(),
            connection_mapping: HashMap::new(),
            connection_order: Vec::new(),
        };
        assert(r.active_tabs@.dom() =~= Set::<u32>::empty());
        assert(r.connection_mapping@.dom() =~= Set::<u128>::empty());
        r
    }

    fn put_tab(&mut self, info: TabInfo)
        requires
            old(self).wf(),
        ensures
            final(self).wf(),
            final(self).tabs() == old(self).tabs().insert(info.tab_id, info),
            final(self).mapping() == old(self).mapping(),
    {
        let t = info.tab_id;
        proof {
            if self.active_tabs@.contains_key(t) {
                lemma_lists_keys_update(self.tab_order@, self.active_tabs@, t, info);
            } else {
                lemma_lists_keys_insert_new(self.tab_order@, self.active_tabs@, t, info);
            }
        }
        if !self.active_tabs.contains_key(&t) {
            self.tab_order.push(t);
        }
        self.active_tabs.insert(t, info);
    }

    /// Records a tab seen at `now`, inactive and without connections; an earlier
    /// record of it is replaced.
    pub fn register_tab_at(&mut self, tab_id: u32, title: Option<String>, url: Option<String>, now: u64)
        requires
            old(self).wf(),
        ensures
            final(self).wf(),
            final(self).mapping() == old(self).mapping(),
            final(self).tabs() == old(self).tabs().insert(
                tab_id,
                TabInfo { tab_id, title, url, active: false, connection_count: 0, last_seen: now },
            ),
    {
        self.put_tab(TabInfo { tab_id, title, url, active: false, connection_count: 0, last_seen: now });
    }

    /// `register_tab_at` with the clock's time.
    pub fn register_tab(&mut self, tab_id: u32, title: Option<String>, url: Option<String>)
        requires
            old(self).wf(),
        ensures
            final(self).wf(),
            final(self).mapping() == old(self).mapping(),
            final(self).tabs().dom() == old(self).tabs().dom().insert(tab_id),
            final(self).tabs()[tab_id].tab_id == tab_id,
            final(self).tabs()[tab_id].title == title,
            final(self).tabs()[tab_id].url == url,
            !final(self).tabs()[tab_id].active,
            final(self).tabs()[tab_id].connection_count == 0,
    {
        let now = now_millis();
        self.register_tab_at(tab_id, title, url, now);
    }

    /// Maps `connection_id` to a known tab, counting the connection on it and
    /// stamping it seen at `now`; an unknown tab is `TabNotFound`.
    pub fn associate_connection_at(&mut self, connection_id: u128, tab_id: u32, now: u64) -> (r: Result<(), BrowserMcpError>)
        requires
            old(self).wf(),
        ensures
            final(self).wf(),
            old(self).tabs().contains_key(tab_id) ==> r is Ok && final(self).mapping() == old(self).mapping().insert(
                connection_id,
                tab_id,
            ) && final(self).tabs() == old(self).tabs().insert(
                tab_id,
                TabInfo {
                    connection_count: if old(self).tabs()[tab_id].connection_count < usize::MAX {
                        (old(self).tabs()[tab_id].connection_count + 1) as usize
                    } else {
                        usize::MAX
                    },
                    last_seen: now,
                    ..old(self).tabs()[tab_id]
                },
            ),
            !old(self).tabs().contains_key(tab_id) ==> r == Err::<(), BrowserMcpError>(BrowserMcpError::TabNotFound { tab_id })
                && final(self).tabs() == old(self).tabs() && final(self).mapping() == old(self).mapping(),
    {
        let mut info = match self.active_tabs.get(&tab_id) {
            Some(i) => i.clone(),
            None => {
                return Err(BrowserMcpError::TabNotFound { tab_id });
            },
        };
        info.connection_count = if info.connection_count < usize::MAX {
            info.connection_count + 1
        } else {
            usize::MAX
        };
        info.last_seen = now;
        self.put_tab(info);
        proof {
            if self.connection_mapping@.contains_key(connection_id) {
                lemma_lists_keys_update(self.connection_order@, self.connection_mapping@, connection_id, tab_id);
            } else {
                lemma_lists_keys_insert_new(self.connection_order@, self.connection_mapping@, connection_id, tab_id);
            }
        }
        if !self.connection_mapping.contains_key(&connection_id) {
            self.connection_order.push(connection_id);
        }
        self.connection_mapping.insert(connection_id, tab_id);
        Ok(())
    }

    /// `associate_connection_at` with the clock's time.
    pub fn associate_connection(&mut self, connection_id: u128, tab_id: u32) -> (r: Result<(), BrowserMcpError>)
        requires
            old(self).wf(),
        ensures
            final(self).wf(),
            r is Ok <==> old(self).tabs().contains_key(tab_id),
            r is Ok ==> final(self).mapping() == old(self).mapping().insert(connection_id, tab_id)
                && final(self).tabs().dom() == old(self).tabs().dom()
                && final(self).tabs()[tab_id].connection_count == if old(self).tabs()[tab_id].connection_count < usize::MAX {
                    (old(self).tabs()[tab_id].connection_count + 1) as usize
                } else {
                    usize::MAX
                },
            r is Err ==> r == Err::<(), BrowserMcpError>(BrowserMcpError::TabNotFound { tab_id })
                && final(self).tabs() == old(self).tabs() && final(self).mapping() == old(self).mapping(),
    {
        let now = now_millis();
        let r = self.associate_connection_at(connection_id, tab_id, now);
        proof {
            if old(self).tabs().contains_key(tab_id) {
                assert(self.active_tabs@.dom() =~= old(self).active_tabs@.dom());
            }
        }
        r
    }

    /// Unmaps `connection_id` and returns its tab; the tab's count goes down by
    /// one and it turns inactive when no connection is left.
    pub fn disassociate_connection(&mut self, connection_id: u128) -> (r: Option<u32>)
        requires
            old(self).wf(),
        ensures
            final(self).wf(),
            final(self).mapping() == old(self).mapping().remove(connection_id),
            r == (if old(self).mapping().contains_key(connection_id) {
                Some(old(self).mapping()[connection_id])
            } else {
                None
            }),
            r matches Some(t) ==> (old(self).tabs().contains_key(t) ==> final(self).tabs() == old(self).tabs().insert(t, ({
                let n = if old(self).tabs()[t].connection_count > 0 { (old(self).tabs()[t].connection_count - 1) as usize } else { 0usize };
                TabInfo {
                    connection_count: n,
                    active: if n == 0 { false } else { old(self).tabs()[t].active },
                    ..old(self).tabs()[t]
                }
            }))) && (!old(self).tabs().contains_key(t) ==> final(self).tabs() == old(self).tabs()),
            r is None ==> final(self).tabs() == old(self).tabs(),
    {
        if !self.connection_mapping.contains_key(&connection_id) {
            assert(self.connection_mapping@.remove(connection_id) =~= self.connection_mapping@);
            return None;
        }
        let t = match self.connection_mapping.get(&connection_id) {
            Some(t) => *t,
            None => 0,
        };
        proof {
            lemma_lists_keys_index_of(self.connection_order@, self.connection_mapping@, connection_id);
        }
        let i = index_of_u128(&self.connection_order, connection_id);
        proof {
            lemma_lists_keys_remove(self.connection_order@, self.connection_mapping@, i as int);
        }
        self.connection_order.remove(i);
        self.connection_mapping.remove(&connection_id);
        let found = match self.active_tabs.get(&t) {
            Some(info) => Some(info.clone()),
            None => None,
        };
        match found {
            Some(mut info) => {
                info.connection_count = if info.connection_count > 0 {
                    info.connection_count - 1
                } else {
                    0
                };
                if info.connection_count == 0 {
                    info.active = false;
                }
                self.put_tab(info);
            },
            None => {},
        }
        Some(t)
    }

    pub fn get_tab_info(&self, tab_id: u32) -> (r: Option<TabInfo>)
        ensures
            r == (if self.tabs().contains_key(tab_id) {
                Some(self.tabs()[tab_id])
            } else {
                None
            }),
    {
        match self.active_tabs.get(&tab_id) {
            Some(i) => Some(i.clone()),
            None => None,
        }
    }

    /// Copies of the known tabs, in the order they were first registered; with
    /// `only_connected`, just those with a connection.
    fn collect(&self, only_connected: bool) -> (r: Vec<TabInfo>)
        requires
            self.wf(),
        ensures
            r@ == self.order().filter(connected_filter(self.tabs(), only_connected)).map_values(|t: u32| self.tabs()[t]),
    {
        let ghost p = connected_filter(self.active_tabs@, only_connected);
        let mut out: Vec<TabInfo> = Vec::new();
        let mut i: usize = 0;
        while i < self.tab_order.len()
            invariant
                self.wf(),
                i <= self.tab_order@.len(),
                p == connected_filter(self.active_tabs@, only_connected),
                out@ == self.tab_order@.subrange(0, i as int).filter(p).map_values(|t: u32| self.active_tabs@[t]),
            decreases self.tab_order@.len() - i,
        {
            let t = self.tab_order[i];
            assert(self.active_tabs@.contains_key(self.tab_order@[i as int]));
            proof {
                let prefix = self.tab_order@.subrange(0, i as int);
                let nxt = self.tab_order@.subrange(0, i + 1);
                assert(nxt.drop_last() =~= prefix);
                assert(nxt.last() == t);
                reveal(Seq::filter);
                assert(nxt.filter(p) == if p(t) {
                    prefix.filter(p).push(t)
                } else {
                    prefix.filter(p)
                });
            }
            match self.active_tabs.get(&t) {
                Some(info) => {
                    if !only_connected || info.connection_count > 0 {
                        out.push(info.clone());
                    }
                },
                None => {},
            }
            i = i + 1;
            assert(out@ =~= self.tab_order@.subrange(0, i as int).filter(p).map_values(|t: u32| self.active_tabs@[t]));
        }
        assert(self.tab_order@.subrange(0, i as int) =~= self.tab_order@);
        out
    }

    /// Every known tab, in the order first registered.
    pub fn get_all_tabs(&self) -> (r: Vec<TabInfo>)
        requires
            self.wf(),
        ensures
            r@ == self.order().map_values(|t: u32| self.tabs()[t]),
            r@.len() == self.tabs().len(),
    {
        let r = self.collect(false);
        proof {
            lemma_filter_all(self.tab_order@, connected_filter(self.active_tabs@, false));
        }
        r
    }

    /// The tabs with at least one connection, in the order first registered.
    pub fn get_active_tabs(&self) -> (r: Vec<TabInfo>)
        requires
            self.wf(),
        ensures
            r@ == self.order().filter(connected_filter(self.tabs(), true)).map_values(|t: u32| self.tabs()[t]),
    {
        self.collect(true)
    }

    /// Replaces the title and URL of a known tab where new ones are given and
    /// stamps it seen at `now`; an unknown tab is left alone.
    pub fn update_tab_info_at(&mut self, tab_id: u32, title: Option<String>, url: Option<String>, now: u64)
        requires
            old(self).wf(),
        ensures
            final(self).wf(),
            final(self).mapping() == old(self).mapping(),
            old(self).tabs().contains_key(tab_id) ==> final(self).tabs() == old(self).tabs().insert(
                tab_id,
                TabInfo {
                    title: if title is Some { title } else { old(self).tabs()[tab_id].title },
                    url: if url is Some { url } else { old(self).tabs()[tab_id].url },
                    last_seen: now,
                    ..old(self).tabs()[tab_id]
                },
            ),
            !old(self).tabs().contains_key(tab_id) ==> final(self).tabs() == old(self).tabs(),
    {
        let mut info = match self.active_tabs.get(&tab_id) {
            Some(i) => i.clone(),
            None => {
                return;
            },
        };
        if title.is_some() {
            info.title = title;
        }
        if url.is_some() {
            info.url = url;
        }
        info.last_seen = now;
        self.put_tab(info);
    }

    /// `update_tab_info_at` with the clock's time.
    pub fn update_tab_info(&mut self, tab_id: u32, title: Option<String>, url: Option<String>)
        requires
            old(self).wf(),
        ensures
            final(self).wf(),
            final(self).mapping() == old(self).mapping(),
            final(self).tabs().dom() == old(self).tabs().dom(),
    {
        let now = now_millis();
        self.update_tab_info_at(tab_id, title, url, now);
        proof {
            if old(self).tabs().contains_key(tab_id) {
                assert(self.active_tabs@.dom() =~= old(self).active_tabs@.dom());
            }
        }
    }

    /// Forgets a tab and every connection mapped to it.
    pub fn remove_tab(&mut self, tab_id: u32)
        requires
            old(self).wf(),
        ensures
            final(self).wf(),
            final(self).tabs() == old(self).tabs().remove(tab_id),
            final(self).mapping() == Map::new(
                |c: u128| old(self).mapping().contains_key(c) && old(self).mapping()[c] != tab_id,
                |c: u128| old(self).mapping()[c],
            ),
    {
        if self.active_tabs.contains_key(&tab_id) {
            proof {
                lemma_lists_keys_index_of(self.tab_order@, self.active_tabs@, tab_id);
            }
            let i = index_of_u32(&self.tab_order, tab_id);
            proof {
                lemma_lists_keys_remove(self.tab_order@, self.active_tabs@, i as int);
            }
            self.tab_order.remove(i);
            self.active_tabs.remove(&tab_id);
        } else {
            assert(self.active_tabs@.remove(tab_id) =~= self.active_tabs@);
        }
        let ghost old_m = self.connection_mapping@;
        let ghost tabs_now = self.active_tabs@;
        let ghost order_now = self.tab_order@;
        let mut i: usize = 0;
        while i < self.connection_order.len()
            invariant
                self.active_tabs@ == tabs_now,
                self.tab_order@ == order_now,
                tabs_now == old(self).active_tabs@.remove(tab_id),
                lists_keys(order_now, tabs_now),
                old_m == old(self).connection_mapping@,
                lists_keys(self.connection_order@, self.connection_mapping@),
                i <= self.connection_order@.len(),
                forall|c: u128| #[trigger]
                    self.connection_mapping@.contains_key(c) ==> old_m.contains_key(c) && self.connection_mapping@[c] == old_m[c],
                forall|c: u128| #[trigger]
                    old_m.contains_key(c) && old_m[c] != tab_id ==> self.connection_mapping@.contains_key(c),
                forall|j: int| 0 <= j < i ==> self.connection_mapping@[#[trigger] self.connection_order@[j]] != tab_id,
            decreases self.connection_order@.len() - i,
        {
            let c = self.connection_order[i];
            assert(self.connection_mapping@.contains_key(self.connection_order@[i as int]));
            if self.connection_mapping.get(&c) == Some(&tab_id) {
                proof {
                    lemma_lists_keys_remove(self.connection_order@, self.connection_mapping@, i as int);
                }
                let ghost before = self.connection_order@;
                self.connection_order.remove(i);
                self.connection_mapping.remove(&c);
                assert forall|j: int| 0 <= j < i implies self.connection_mapping@[#[trigger] self.connection_order@[j]] != tab_id by {
                    assert(self.connection_order@[j] == before[j]);
                }
            } else {
                i = i + 1;
            }
        }
        assert forall|c: u128| self.connection_mapping@.contains_key(c) implies self.connection_mapping@[c] != tab_id by {
            let j = lemma_lists_keys_index_of(self.connection_order@, self.connection_mapping@, c);
        }
        assert(self.connection_mapping@ =~= Map::new(
            |c: u128| old_m.contains_key(c) && old_m[c] != tab_id,
            |c: u128| old_m[c],
        ));
    }

    /// Forgets every tab without connections not seen for more than `max_age`
    /// milliseconds at `now`.
    pub fn cleanup_stale_tabs_at(&mut self, max_age: u64, now: u64)
        requires
            old(self).wf(),
        ensures
            final(self).wf(),
            final(self).mapping() == old(self).mapping(),
            final(self).tabs() == remembered(old(self).tabs(), now, max_age),
    {
        let ghost old_t = self.active_tabs@;
        let mut i: usize = 0;
        while i < self.tab_order.len()
            invariant
                lists_keys(self.tab_order@, self.active_tabs@),
                lists_keys(self.connection_order@, self.connection_mapping@),
                self.connection_mapping@ == old(self).connection_mapping@,
                old_t == old(self).active_tabs@,
                i <= self.tab_order@.len(),
                forall|t: u32| #[trigger] self.active_tabs@.contains_key(t) ==> old_t.contains_key(t) && self.active_tabs@[t] == old_t[t],
                forall|t: u32| #[trigger] old_t.contains_key(t) && !is_forgotten(old_t[t], now, max_age) ==> self.active_tabs@.contains_key(t),
                forall|j: int| 0 <= j < i ==> !is_forgotten(self.active_tabs@[#[trigger] self.tab_order@[j]], now, max_age),
            decreases self.tab_order@.len() - i,
        {
            let t = self.tab_order[i];
            assert(self.active_tabs@.contains_key(self.tab_order@[i as int]));
            let forget = match self.active_tabs.get(&t) {
                Some(info) => info.connection_count == 0 && info.last_seen <= now && now - info.last_seen > max_age,
                None => false,
            };
            if forget {
                proof {
                    lemma_lists_keys_remove(self.tab_order@, self.active_tabs@, i as int);
                }
                let ghost before = self.tab_order@;
                self.tab_order.remove(i);
                self.active_tabs.remove(&t);
                assert forall|j: int| 0 <= j < i implies !is_forgotten(self.active_tabs@[#[trigger] self.tab_order@[j]], now, max_age) by {
                    assert(self.tab_order@[j] == before[j]);
                }
            } else {
                i = i + 1;
            }
        }
        assert forall|t: u32| self.active_tabs@.contains_key(t) implies !is_forgotten(self.active_tabs@[t], now, max_age) by {
            let j = lemma_lists_keys_index_of(self.tab_order@, self.active_tabs@, t);
        }
        assert(self.active_tabs@ =~= old_t.restrict(old_t.dom().filter(|t: u32| !is_forgotten(old_t[t], now, max_age))));
    }

    /// `cleanup_stale_tabs_at` with the clock's time.
    pub fn cleanup_stale_tabs(&mut self, max_age: u64)
        requires
            old(self).wf(),
        ensures
            final(self).wf(),
            final(self).mapping() == old(self).mapping(),
            exists|now: u64| final(self).tabs() == #[trigger] remembered(old(self).tabs(), now, max_age),
    {
        let now = now_millis();
        self.cleanup_stale_tabs_at(max_age, now);
    }

    pub fn get_connection_count(&self) -> (r: usize)
        requires
            self.wf(),
        ensures
            r == self.mapping().len(),
    {
        self.connection_mapping.len()
    }

    pub fn get_tab_count(&self) -> (r: usize)
        requires
            self.wf(),
        ensures
            r == self.tabs().len(),
    {
        self.active_tabs.len()
    }

    /// The number of tabs with at least one connection.
    pub fn get_active_tab_count(&self) -> (r: usize)
        requires
            self.wf(),
        ensures
            r == self.order().filter(connected_filter(self.tabs(), true)).len(),
    {
        let v = self.collect(true);
        v.len()
    }
}

/// Filtering by a predicate that holds everywhere keeps everything.
proof fn lemma_filter_all(s: Seq<u32>, p: spec_fn(u32) -> bool)
    requires
        forall|x: u32| #[trigger] p(x),
    ensures
        s.filter(p) == s,
    decreases s.len(),
{
    reveal(Seq::filter);
    if s.len() > 0 {
        lemma_filter_all(s.drop_last(), p);
        assert(s.drop_last().push(s.last()) =~= s);
    }
}



impl Default for BrowserCommunicator {
    fn default() -> (r: Self)
        ensures
            r.wf(),
            r.tabs() == Map::<u32, TabInfo>::empty(),
            r.mapping() == Map::<u128, u32>::empty(),
    {
        BrowserCommunicator::new()
    }
}

} // verus!
