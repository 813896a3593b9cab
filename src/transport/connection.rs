use vstd::prelude::*;
use vstd::string::StringExecFns;
use crate::transport::request::new_request_id;
use crate::transport::router::{Completion, MessageRouter, REQUEST_TIMEOUT_MS, completion_of, deadline_after};
use crate::types::browser::clone_opt_string;
use crate::types::errors::BrowserMcpError;
use crate::types::messages::{BrowserEvent, BrowserMessage, BrowserResponse};

verus! {

/// One live extension connection. Times are in milliseconds; `id` is the
/// 128-bit value of a version-4 UUID.
#[derive(Debug)]
pub struct WebSocketConnection {
    pub id: u128,
    pub tab_id: Option<u32>,
    pub connected_at: u64,
    pub last_activity: u64,
    pub remote_addr: Option<String>,
}

impl Clone for WebSocketConnection {
    fn clone(&self) -> (r: Self)
        ensures
            r == *self,
    {
        WebSocketConnection {
            id: self.id,
            tab_id: self.tab_id,
            connected_at: self.connected_at,
            last_activity: self.last_activity,
            remote_addr: clone_opt_string(&self.remote_addr),
        }
    }
}

/// Counters over the life of a pool.
#[derive(Debug, Clone, Copy, PartialEq, Eq, Default)]
pub struct ConnectionStats {
    pub total_connections: u64,
    pub active_connections: u64,
    pub messages_sent: u64,
    pub messages_received: u64,
    pub connection_errors: u64,
}

/// `c` plus one, wrapping to zero past the largest value, as an atomic counter does.
pub open spec fn bump(c: u64) -> u64 {
    if c == u64::MAX {
        0
    } else {
        (c + 1) as u64
    }
}

fn bumped(c: u64) -> (r: u64)
    ensures
        r == bump(c),
{
    if c == u64::MAX {
        0
    } else {
        c + 1
    }
}

/// A connection idle for more than `threshold` at `now`. Activity stamped after
/// `now` counts as idle for zero.
pub open spec fn is_idle(c: WebSocketConnection, now: u64, threshold: u64) -> bool {
    c.last_activity <= now && now - c.last_activity > threshold
}

/// The fields the lenient path reads from a frame that is JSON but no envelope:
/// its `type`, whether it has an `event`, and that event's `tabId` when it is
/// an unsigned integer.
pub struct LooseMessage {
    pub message_type: Option<String>,
    pub has_event: bool,
    pub event_tab_id: Option<u64>,
}

/// An inbound frame, already decoded as far as the wire format allows.
pub enum InboundFrame {
    /// Text that decoded as an envelope.
    Message(BrowserMessage),
    /// Text that is JSON but no envelope.
    Loose(LooseMessage),
    /// Text that is not JSON; the parser's complaint.
    Malformed(String),
    Binary,
    Ping(Vec<u8>),
    Pong,
    Close,
}

/// What the receiving side does after a frame.
pub enum FrameAction {
    Nothing,
    /// Answer a ping with a pong carrying the same payload.
    SendPong(Vec<u8>),
    /// Answer a loose heartbeat with a `pong` message.
    SendHeartbeatReply,
    /// Deliver the completion into the waiting caller's slot.
    Complete(u128, Completion),
    /// Record the event's data in the cache.
    Record(BrowserEvent),
}

/// The extension connections, in the order they were accepted, with the table
/// of requests awaiting their responses.
pub struct ConnectionPool {
    connections: Vec<WebSocketConnection>,
    stats: ConnectionStats,
    check_interval: u64,
    timeout_threshold: u64,
    message_router: MessageRouter,
}

/// Some connection in `s` has `id`.
pub open spec fn has_id(s: Seq<WebSocketConnection>, id: u128) -> bool {
    exists|i: int| 0 <= i < s.len() && s[i].id == id
}

/// No two connections in `s` share an id.
pub open spec fn unique_ids(s: Seq<WebSocketConnection>) -> bool {
    forall|i: int, j: int| 0 <= i < j < s.len() ==> s[i].id != s[j].id
}

impl ConnectionPool {
    pub closed spec fn conns(&self) -> Seq<WebSocketConnection> {
        self.connections@
    }

    pub closed spec fn counters(&self) -> ConnectionStats {
        self.stats
    }

    pub closed spec fn idle_threshold(&self) -> u64 {
        self.timeout_threshold
    }

    pub closed spec fn router(&self) -> MessageRouter {
        self.message_router
    }

    pub closed spec fn wf(&self) -> bool {
        &&& unique_ids(self.connections@)
        &&& self.message_router.wf()
    }

    /// Times in milliseconds; requests time out after thirty seconds.
    pub fn new(check_interval: u64, timeout_threshold: u64) -> (r: Self)
        ensures
            r.wf(),
            r.conns() == Seq::<WebSocketConnection>::empty(),
            r.counters() == ConnectionStats::default_spec(),
            r.idle_threshold() == timeout_threshold,
            r.router().pending() == Map::<u128, u64>::empty(),
            r.router().timeout() == REQUEST_TIMEOUT_MS,
    {
        ConnectionPool {
            connections: Vec::new(),
            stats: ConnectionStats {
                total_connections: 0,
                active_connections: 0,
                messages_sent: 0,
                messages_received: 0,
                connection_errors: 0,
            },
            check_interval,
            timeout_threshold,
            message_router: MessageRouter::new(REQUEST_TIMEOUT_MS),
        }
    }

    fn position(&self, id: u128) -> (r: Option<usize>)
        requires
            self.wf(),
        ensures
            r is None <==> !has_id(self.conns(), id),
            r matches Some(i) ==> i < self.conns().len() && self.conns()[i as int].id == id,
    {
        let mut i: usize = 0;
        while i < self.connections.len()
            invariant
                i <= self.connections@.len(),
                forall|j: int| 0 <= j < i ==> self.connections@[j].id != id,
            decreases self.connections@.len() - i,
        {
            if self.connections[i].id == id {
                return Some(i);
            }
            i = i + 1;
        }
        None
    }

    /// Registers a freshly accepted connection, unbound, with both stamps `now`;
    /// an id already present is refused.
    pub fn accept_connection(&mut self, id: u128, now: u64, remote_addr: Option<String>) -> (r: bool)
        requires
            old(self).wf(),
        ensures
            final(self).wf(),
            final(self).router() == old(self).router(),
            final(self).idle_threshold() == old(self).idle_threshold(),
            r == !has_id(old(self).conns(), id),
            r ==> final(self).conns() == old(self).conns().push(
                WebSocketConnection { id, tab_id: None, connected_at: now, last_activity: now, remote_addr },
            ) && final(self).counters() == (ConnectionStats {
                total_connections: bump(old(self).counters().total_connections),
                active_connections: bump(old(self).counters().active_connections),
                ..old(self).counters()
            }),
            !r ==> final(self).conns() == old(self).conns() && final(self).counters() == old(self).counters(),
    {
        if self.position(id).is_some() {
            return false;
        }
        let ghost before = self.connections@;
        self.connections.push(WebSocketConnection { id, tab_id: None, connected_at: now, last_activity: now, remote_addr });
        assert forall|i: int, j: int| 0 <= i < j < self.connections@.len() implies self.connections@[i].id != self.connections@[j].id by {
            if j == before.len() {
                assert(self.connections@[i] == before[i]);
            }
        }
        self.stats.total_connections = bumped(self.stats.total_connections);
        self.stats.active_connections = bumped(self.stats.active_connections);
        true
    }

    /// Replaces the connection at `i` by `c`, which keeps its id.
    fn set_at(&mut self, i: usize, c: WebSocketConnection)
        requires
            old(self).wf(),
            i < old(self).conns().len(),
            c.id == old(self).conns()[i as int].id,
        ensures
            final(self).wf(),
            final(self).conns() == old(self).conns().update(i as int, c),
            final(self).counters() == old(self).counters(),
            final(self).router() == old(self).router(),
            final(self).idle_threshold() == old(self).idle_threshold(),
    {
        let ghost before = self.connections@;
        self.connections.set(i, c);
        assert forall|a: int, b: int| 0 <= a < b < self.connections@.len() implies self.connections@[a].id != self.connections@[b].id by {
            assert(self.connections@[a].id == before[a].id);
            assert(self.connections@[b].id == before[b].id);
        }
    }

    /// Stamps activity on connection `id` at `now`.
    pub fn touch(&mut self, id: u128, now: u64)
        requires
            old(self).wf(),
        ensures
            final(self).wf(),
            final(self).counters() == old(self).counters(),
            final(self).router() == old(self).router(),
            final(self).idle_threshold() == old(self).idle_threshold(),
            final(self).conns() == touched(old(self).conns(), id, now),
    {

        match self.position(id) {
            Some(i) => {
                let mut c = self.connections[i].clone();
                c.last_activity = now;
                self.set_at(i, c);
                assert(self.connections@ =~= touched(old(self).connections@, id, now));
            },
            None => {
                assert(self.connections@ =~= touched(old(self).connections@, id, now));
            },
        }
    }

    /// Binds connection `id` to `tab_id`.
    pub fn associate_tab_with_connection(&mut self, id: u128, tab_id: u32)
        requires
            old(self).wf(),
        ensures
            final(self).wf(),
            final(self).counters() == old(self).counters(),
            final(self).router() == old(self).router(),
            final(self).idle_threshold() == old(self).idle_threshold(),
            final(self).conns() == bound_to(old(self).conns(), id, tab_id),
    {
        match self.position(id) {
            Some(i) => {
                let mut c = self.connections[i].clone();
                c.tab_id = Some(tab_id);
                self.set_at(i, c);
                assert(self.connections@ =~= bound_to(old(self).connections@, id, tab_id));
            },
            None => {
                assert(self.connections@ =~= bound_to(old(self).connections@, id, tab_id));
            },
        }
    }

    /// Unbinds connection `id` when it is bound to `tab_id`.
    pub fn disassociate_tab_from_connection(&mut self, id: u128, tab_id: u32)
        requires
            old(self).wf(),
        ensures
            final(self).wf(),
            final(self).counters() == old(self).counters(),
            final(self).router() == old(self).router(),
            final(self).idle_threshold() == old(self).idle_threshold(),
            final(self).conns() == unbound_from_tab(old(self).conns(), id, tab_id),
    {
        match self.position(id) {
            Some(i) => {
                if self.connections[i].tab_id == Some(tab_id) {
                    let mut c = self.connections[i].clone();
                    c.tab_id = None;
                    self.set_at(i, c);
                }
                assert(self.connections@ =~= unbound_from_tab(old(self).connections@, id, tab_id));
            },
            None => {
                assert(self.connections@ =~= unbound_from_tab(old(self).connections@, id, tab_id));
            },
        }
    }

    /// The first connection, in accept order, bound to `tab_id`.
    pub fn find_connection_for_tab(&self, tab_id: u32) -> (r: Option<&WebSocketConnection>)
        requires
            self.wf(),
        ensures
            r is None <==> forall|i: int| 0 <= i < self.conns().len() ==> self.conns()[i].tab_id != Some(tab_id),
            r is None <==> first_bound(self.conns(), tab_id) is None,
            r matches Some(c) ==> first_bound(self.conns(), tab_id) == Some(*c),
    {
        let ghost n = self.connections@.len() as int;
        assert(self.connections@.subrange(0, n) =~= self.connections@);
        let mut i: usize = 0;
        while i < self.connections.len()
            invariant
                i <= self.connections@.len(),
                n == self.connections@.len(),
                forall|j: int| 0 <= j < i ==> self.connections@[j].tab_id != Some(tab_id),
                first_bound(self.connections@, tab_id) == first_bound(self.connections@.subrange(i as int, n), tab_id),
            decreases self.connections@.len() - i,
        {
            assert(self.connections@.subrange(i as int, n).drop_first() =~= self.connections@.subrange(i + 1, n));
            if self.connections[i].tab_id == Some(tab_id) {
                return Some(&self.connections[i]);
            }
            i = i + 1;
        }
        assert(self.connections@.subrange(i as int, n).len() == 0);
        None
    }

    /// The ids of every connection, in accept order.
    pub fn get_active_connections(&self) -> (r: Vec<u128>)
        ensures
            r@ == self.conns().map_values(|c: WebSocketConnection| c.id),
    {
        let mut out: Vec<u128> = Vec::new();
        let mut i: usize = 0;
        while i < self.connections.len()
            invariant
                i <= self.connections@.len(),
                out@ == self.connections@.subrange(0, i as int).map_values(|c: WebSocketConnection| c.id),
            decreases self.connections@.len() - i,
        {
            out.push(self.connections[i].id);
            i = i + 1;
            assert(out@ =~= self.connections@.subrange(0, i as int).map_values(|c: WebSocketConnection| c.id));
        }
        assert(self.connections@.subrange(0, i as int) =~= self.connections@);
        out
    }

    /// The ids of the connections bound to `tab_id`, in accept order.
    pub fn get_connections_for_tab(&self, tab_id: u32) -> (r: Vec<u128>)
        ensures
            r@ == self.conns().filter(|c: WebSocketConnection| c.tab_id == Some(tab_id)).map_values(
                |c: WebSocketConnection| c.id,
            ),
    {
        let ghost pred = |c: WebSocketConnection| c.tab_id == Some(tab_id);
        let mut out: Vec<u128> = Vec::new();
        let mut i: usize = 0;
        while i < self.connections.len()
            invariant
                i <= self.connections@.len(),
                out@ == self.connections@.subrange(0, i as int).filter(pred).map_values(|c: WebSocketConnection| c.id),
                pred == (|c: WebSocketConnection| c.tab_id == Some(tab_id)),
            decreases self.connections@.len() - i,
        {
            let ghost prefix = self.connections@.subrange(0, i as int);
            proof {
                let nxt = self.connections@.subrange(0, i + 1);
                assert(nxt.drop_last() =~= prefix);
                assert(nxt.last() == self.connections@[i as int]);
                reveal(Seq::filter);
                assert(nxt.filter(pred) == if pred(nxt.last()) {
                    prefix.filter(pred).push(nxt.last())
                } else {
                    prefix.filter(pred)
                });
            }
            if self.connections[i].tab_id == Some(tab_id) {
                out.push(self.connections[i].id);
            }
            i = i + 1;
            assert(out@ =~= self.connections@.subrange(0, i as int).filter(pred).map_values(|c: WebSocketConnection| c.id));
        }
        assert(self.connections@.subrange(0, i as int) =~= self.connections@);
        out
    }

    /// Drops connection `id`; the active count goes down by one when it was there.
    pub fn remove_connection(&mut self, id: u128) -> (r: bool)
        requires
            old(self).wf(),
        ensures
            final(self).wf(),
            final(self).router() == old(self).router(),
            final(self).idle_threshold() == old(self).idle_threshold(),
            r == has_id(old(self).conns(), id),
            final(self).conns() == old(self).conns().filter(|c: WebSocketConnection| c.id != id),
            r ==> final(self).counters() == (ConnectionStats {
                active_connections: if old(self).counters().active_connections > 0 {
                    (old(self).counters().active_connections - 1) as u64
                } else {
                    0
                },
                ..old(self).counters()
            }),
            !r ==> final(self).counters() == old(self).counters(),
    {
        let ghost before = self.connections@;
        let removed = self.drop_connection(id);
        if removed {
            if self.stats.active_connections > 0 {
                self.stats.active_connections = self.stats.active_connections - 1;
            }
        }
        removed
    }

    /// Reaps every connection idle for more than the threshold at `now` and
    /// returns their ids, in accept order.
    pub fn cleanup_stale_connections(&mut self, now: u64) -> (r: Vec<u128>)
        requires
            old(self).wf(),
        ensures
            final(self).wf(),
            final(self).router() == old(self).router(),
            final(self).idle_threshold() == old(self).idle_threshold(),
            final(self).conns() == old(self).conns().filter(
                |c: WebSocketConnection| !is_idle(c, now, old(self).idle_threshold()),
            ),
            r@ == old(self).conns().filter(|c: WebSocketConnection| is_idle(c, now, old(self).idle_threshold())).map_values(
                |c: WebSocketConnection| c.id,
            ),
    {
        let thr = self.timeout_threshold;
        let ghost keep = |c: WebSocketConnection| !is_idle(c, now, thr);
        let ghost gone = |c: WebSocketConnection| is_idle(c, now, thr);
        let ghost before = self.connections@;
        let mut kept: Vec<WebSocketConnection> = Vec::new();
        let mut reaped: Vec<u128> = Vec::new();
        let mut i: usize = 0;
        while i < self.connections.len()
            invariant
                self.connections@ == before,
                self.wf(),
                self.timeout_threshold == thr,
                i <= before.len(),
                kept@ == before.subrange(0, i as int).filter(keep),
                reaped@ == before.subrange(0, i as int).filter(gone).map_values(|c: WebSocketConnection| c.id),
                keep == (|c: WebSocketConnection| !is_idle(c, now, thr)),
                gone == (|c: WebSocketConnection| is_idle(c, now, thr)),
            decreases before.len() - i,
        {
            proof {
                let prefix = before.subrange(0, i as int);
                let nxt = before.subrange(0, i + 1);
                assert(nxt.drop_last() =~= prefix);
                assert(nxt.last() == before[i as int]);
                reveal(Seq::filter);
                assert(nxt.filter(keep) == if keep(nxt.last()) {
                    prefix.filter(keep).push(nxt.last())
                } else {
                    prefix.filter(keep)
                });
                assert(nxt.filter(gone) == if gone(nxt.last()) {
                    prefix.filter(gone).push(nxt.last())
                } else {
                    prefix.filter(gone)
                });
            }
            let c = &self.connections[i];
            let idle = c.last_activity <= now && now - c.last_activity > thr;
            let ghost old_kept = kept@;
            let ghost old_reaped = reaped@;
            if idle {
                reaped.push(c.id);
                assert(reaped@ == old_reaped.push(before[i as int].id));
            } else {
                let cc = c.clone();
                kept.push(cc);
                assert(kept@ == old_kept.push(before[i as int]));
            }
            i = i + 1;
            assert(kept@ =~= before.subrange(0, i as int).filter(keep));
            assert(reaped@ =~= before.subrange(0, i as int).filter(gone).map_values(|c: WebSocketConnection| c.id));
        }
        assert(before.subrange(0, i as int) =~= before);
        proof {
            before.lemma_filter_len(keep);
            assert forall|a: int, b: int| 0 <= a < b < kept@.len() implies kept@[a].id != kept@[b].id by {
                lemma_filter_preserves_unique(before, keep);
            }
        }
        self.connections = kept;
        reaped
    }

    /// Handles one inbound frame from connection `connection_id` at `now`: the
    /// connection's activity is stamped first; an `Err` ends the connection.
    pub fn handle_message(&mut self, connection_id: u128, frame: InboundFrame, now: u64) -> (r: Result<FrameAction, BrowserMcpError>)
        requires
            old(self).wf(),
        ensures
            final(self).wf(),
            final(self).counters() == old(self).counters(),
            final(self).idle_threshold() == old(self).idle_threshold(),
            final(self).router().timeout() == old(self).router().timeout(),
            ({
                let t = touched(old(self).conns(), connection_id, now);
                let p = old(self).router().pending();
                match frame {
                    InboundFrame::Message(BrowserMessage::Response { request_id, result }) => {
                        &&& final(self).conns() == t
                        &&& final(self).router().pending() == p.remove(request_id)
                        &&& r == if p.contains_key(request_id) {
                            Ok::<FrameAction, BrowserMcpError>(FrameAction::Complete(request_id, completion_of(result)))
                        } else {
                            Ok(FrameAction::Nothing)
                        }
                    },
                    InboundFrame::Message(BrowserMessage::Notification { event }) => {
                        &&& final(self).router().pending() == p
                        &&& r == Ok::<FrameAction, BrowserMcpError>(match event {
                            BrowserEvent::ConsoleMessage { .. } => FrameAction::Record(event),
                            BrowserEvent::NetworkRequest { .. } => FrameAction::Record(event),
                            _ => FrameAction::Nothing,
                        })
                        &&& final(self).conns() == match event {
                            BrowserEvent::ConnectionEstablished { tab_id } => bound_to(t, connection_id, tab_id),
                            BrowserEvent::ConnectionLost { tab_id } => unbound_from_tab(t, connection_id, tab_id),
                            _ => t,
                        }
                    },
                    InboundFrame::Message(_) => {
                        &&& final(self).conns() == t
                        &&& final(self).router().pending() == p
                        &&& r == Ok::<FrameAction, BrowserMcpError>(FrameAction::Nothing)
                    },
                    InboundFrame::Loose(m) => {
                        &&& final(self).conns() == after_loose(t, connection_id, m)
                        &&& final(self).router().pending() == p
                        &&& r == Ok::<FrameAction, BrowserMcpError>(loose_action(m))
                    },
                    InboundFrame::Malformed(e) => {
                        &&& final(self).conns() == t
                        &&& final(self).router().pending() == p
                        &&& r matches Err(BrowserMcpError::InvalidRequest { message })
                        &&& message@ == "Invalid JSON: "@ + e@
                    },
                    InboundFrame::Ping(data) => {
                        &&& final(self).conns() == t
                        &&& final(self).router().pending() == p
                        &&& r == Ok::<FrameAction, BrowserMcpError>(FrameAction::SendPong(data))
                    },
                    InboundFrame::Close => {
                        &&& final(self).conns() == t
                        &&& final(self).router().pending() == p
                        &&& r == Err::<FrameAction, BrowserMcpError>(BrowserMcpError::ConnectionClosed)
                    },
                    _ => {
                        &&& final(self).conns() == t
                        &&& final(self).router().pending() == p
                        &&& r == Ok::<FrameAction, BrowserMcpError>(FrameAction::Nothing)
                    },
                }
            }),
    {
        self.touch(connection_id, now);
        match frame {
            InboundFrame::Message(BrowserMessage::Response { request_id, result }) => {
                match self.message_router.handle_response(request_id, result) {
                    Some(c) => Ok(FrameAction::Complete(request_id, c)),
                    None => Ok(FrameAction::Nothing),
                }
            },
            InboundFrame::Message(BrowserMessage::Notification { event }) => {
                match event {
                    BrowserEvent::ConnectionEstablished { tab_id } => {
                        self.associate_tab_with_connection(connection_id, tab_id);
                        Ok(FrameAction::Nothing)
                    },
                    BrowserEvent::ConnectionLost { tab_id } => {
                        self.disassociate_tab_from_connection(connection_id, tab_id);
                        Ok(FrameAction::Nothing)
                    },
                    BrowserEvent::ConsoleMessage { .. } => Ok(FrameAction::Record(event)),
                    BrowserEvent::NetworkRequest { .. } => Ok(FrameAction::Record(event)),
                    _ => Ok(FrameAction::Nothing),
                }
            },
            InboundFrame::Message(_) => Ok(FrameAction::Nothing),
            InboundFrame::Loose(m) => {
                let notification = String::from_str("notification");
                let heartbeat = String::from_str("heartbeat");
                let (is_notification, is_heartbeat) = match &m.message_type {
                    Some(t) => (*t == notification, *t == heartbeat),
                    None => (false, false),
                };
                if is_notification && m.has_event {
                    match m.event_tab_id {
                        Some(tab) => {
                            self.associate_tab_with_connection(connection_id, tab as u32);
                        },
                        None => {},
                    }
                }
                if is_heartbeat {
                    Ok(FrameAction::SendHeartbeatReply)
                } else {
                    Ok(FrameAction::Nothing)
                }
            },
            InboundFrame::Malformed(e) => {
                let message = String::from_str("Invalid JSON: ").concat(e.as_str());
                Err(BrowserMcpError::InvalidRequest { message })
            },
            InboundFrame::Ping(data) => Ok(FrameAction::SendPong(data)),
            InboundFrame::Close => Err(BrowserMcpError::ConnectionClosed),
            _ => Ok(FrameAction::Nothing),
        }
    }

    /// The first half of sending a request to `tab_id`: records `request_id` as
    /// pending at `now`, then picks the connection bound to the tab. With none
    /// bound the call fails at once; the entry then stays until it times out.
    pub fn prepare_request(&mut self, tab_id: u32, request_id: u128, now: u64) -> (r: Result<u128, BrowserMcpError>)
        requires
            old(self).wf(),
        ensures
            final(self).wf(),
            final(self).conns() == old(self).conns(),
            final(self).counters() == old(self).counters(),
            final(self).idle_threshold() == old(self).idle_threshold(),
            final(self).router().timeout() == old(self).router().timeout(),
            final(self).router().pending() == old(self).router().pending().insert(
                request_id,
                deadline_after(now, old(self).router().timeout()),
            ),
            r == match first_bound(old(self).conns(), tab_id) {
                Some(c) => Ok::<u128, BrowserMcpError>(c.id),
                None => Err(BrowserMcpError::ConnectionNotAvailable { tab_id }),
            },
    {
        self.message_router.register_pending_request(request_id, now);
        match self.find_connection_for_tab(tab_id) {
            Some(c) => Ok(c.id),
            None => Err(BrowserMcpError::ConnectionNotAvailable { tab_id }),
        }
    }

    /// Mints a fresh request id, then does what `prepare_request` does with it.
    pub fn begin_request(&mut self, tab_id: u32, now: u64) -> (r: (u128, Result<u128, BrowserMcpError>))
        requires
            old(self).wf(),
        ensures
            final(self).wf(),
            final(self).conns() == old(self).conns(),
            final(self).counters() == old(self).counters(),
            final(self).idle_threshold() == old(self).idle_threshold(),
            final(self).router().timeout() == old(self).router().timeout(),
            final(self).router().pending() == old(self).router().pending().insert(
                r.0,
                deadline_after(now, old(self).router().timeout()),
            ),
            r.1 == match first_bound(old(self).conns(), tab_id) {
                Some(c) => Ok::<u128, BrowserMcpError>(c.id),
                None => Err(BrowserMcpError::ConnectionNotAvailable { tab_id }),
            },
    {
        let request_id = new_request_id();
        let target = self.prepare_request(tab_id, request_id, now);
        (request_id, target)
    }

    /// Delivers `result` for `request_id` as an inbound response would.
    pub fn handle_response(&mut self, request_id: u128, result: Result<BrowserResponse, String>) -> (r: Option<Completion>)
        requires
            old(self).wf(),
        ensures
            final(self).wf(),
            final(self).conns() == old(self).conns(),
            final(self).counters() == old(self).counters(),
            final(self).idle_threshold() == old(self).idle_threshold(),
            final(self).router().timeout() == old(self).router().timeout(),
            final(self).router().pending() == old(self).router().pending().remove(request_id),
            old(self).router().pending().contains_key(request_id) ==> r == Some(completion_of(result)),
            !old(self).router().pending().contains_key(request_id) ==> r is None,
    {
        self.message_router.handle_response(request_id, result)
    }

    /// Times out every request whose deadline is at or before `now`; returns their ids.
    pub fn expire_requests(&mut self, now: u64) -> (r: Vec<u128>)
        requires
            old(self).wf(),
        ensures
            final(self).wf(),
            final(self).conns() == old(self).conns(),
            final(self).counters() == old(self).counters(),
            final(self).idle_threshold() == old(self).idle_threshold(),
            final(self).router().timeout() == old(self).router().timeout(),
            forall|id: u128| #[trigger] r@.contains(id) <==> old(self).router().pending().contains_key(id)
                && old(self).router().pending()[id] <= now,
            final(self).router().pending() == old(self).router().pending().restrict(
                old(self).router().pending().dom().filter(|id: u128| old(self).router().pending()[id] > now),
            ),
    {
        self.message_router.expire_requests(now)
    }

    /// Removes the connection with `id` when present, leaving the counters alone.
    fn drop_connection(&mut self, id: u128) -> (r: bool)
        requires
            old(self).wf(),
        ensures
            final(self).wf(),
            final(self).router() == old(self).router(),
            final(self).idle_threshold() == old(self).idle_threshold(),
            final(self).counters() == old(self).counters(),
            r == has_id(old(self).conns(), id),
            final(self).conns() == old(self).conns().filter(|c: WebSocketConnection| c.id != id),
    {
        let ghost keep = |c: WebSocketConnection| c.id != id;
        let ghost before = self.connections@;
        let mut kept: Vec<WebSocketConnection> = Vec::new();
        let mut hit = false;
        let mut i: usize = 0;
        while i < self.connections.len()
            invariant
                self.connections@ == before,
                self.wf(),
                i <= before.len(),
                kept@ == before.subrange(0, i as int).filter(keep),
                hit == exists|j: int| 0 <= j < i && before[j].id == id,
                keep == (|c: WebSocketConnection| c.id != id),
            decreases before.len() - i,
        {
            proof {
                let prefix = before.subrange(0, i as int);
                let nxt = before.subrange(0, i + 1);
                assert(nxt.drop_last() =~= prefix);
                assert(nxt.last() == before[i as int]);
                reveal(Seq::filter);
                assert(nxt.filter(keep) == if keep(nxt.last()) {
                    prefix.filter(keep).push(nxt.last())
                } else {
                    prefix.filter(keep)
                });
            }
            if self.connections[i].id == id {
                hit = true;
            } else {
                kept.push(self.connections[i].clone());
            }
            i = i + 1;
            assert(kept@ =~= before.subrange(0, i as int).filter(keep));
        }
        assert(before.subrange(0, i as int) =~= before);
        proof {
            lemma_filter_preserves_unique(before, keep);
        }
        self.connections = kept;
        hit
    }

    pub fn get_stats(&self) -> (r: ConnectionStats)
        ensures
            r == self.counters(),
    {
        self.stats
    }

    pub fn record_message_sent(&mut self)
        ensures
            final(self).conns() == old(self).conns(),
            final(self).router() == old(self).router(),
            final(self).idle_threshold() == old(self).idle_threshold(),
            final(self).counters() == (ConnectionStats { messages_sent: bump(old(self).counters().messages_sent), ..old(self).counters() }),
            old(self).wf() ==> final(self).wf(),
    {
        self.stats.messages_sent = bumped(self.stats.messages_sent);
    }

    pub fn record_message_received(&mut self)
        ensures
            final(self).conns() == old(self).conns(),
            final(self).router() == old(self).router(),
            final(self).idle_threshold() == old(self).idle_threshold(),
            final(self).counters() == (ConnectionStats { messages_received: bump(old(self).counters().messages_received), ..old(self).counters() }),
            old(self).wf() ==> final(self).wf(),
    {
        self.stats.messages_received = bumped(self.stats.messages_received);
    }

    pub fn record_connection_error(&mut self)
        ensures
            final(self).conns() == old(self).conns(),
            final(self).router() == old(self).router(),
            final(self).idle_threshold() == old(self).idle_threshold(),
            final(self).counters() == (ConnectionStats { connection_errors: bump(old(self).counters().connection_errors), ..old(self).counters() }),
            old(self).wf() ==> final(self).wf(),
    {
        self.stats.connection_errors = bumped(self.stats.connection_errors);
    }
}

/// `s` after connection `id` showed activity at `now`.
pub open spec fn touched(s: Seq<WebSocketConnection>, id: u128, now: u64) -> Seq<WebSocketConnection> {
    s.map_values(|c: WebSocketConnection| if c.id == id {
        WebSocketConnection { last_activity: now, ..c }
    } else {
        c
    })
}

/// `s` after connection `id` was bound to `tab_id`.
pub open spec fn bound_to(s: Seq<WebSocketConnection>, id: u128, tab_id: u32) -> Seq<WebSocketConnection> {
    s.map_values(|c: WebSocketConnection| if c.id == id {
        WebSocketConnection { tab_id: Some(tab_id), ..c }
    } else {
        c
    })
}

/// `s` after connection `id` lost its binding to `tab_id`; a binding to another
/// tab stays.
pub open spec fn unbound_from_tab(s: Seq<WebSocketConnection>, id: u128, tab_id: u32) -> Seq<WebSocketConnection> {
    s.map_values(|c: WebSocketConnection| if c.id == id && c.tab_id == Some(tab_id) {
        WebSocketConnection { tab_id: None, ..c }
    } else {
        c
    })
}

/// The registry after a lenient frame from `id`: a notification whose event
/// carries a `tabId` binds the connection to it, truncated to 32 bits.
pub open spec fn after_loose(s: Seq<WebSocketConnection>, id: u128, m: LooseMessage) -> Seq<WebSocketConnection> {
    if is_type(m, "notification"@) && m.has_event && m.event_tab_id is Some {
        bound_to(s, id, m.event_tab_id->Some_0 as u32)
    } else {
        s
    }
}

pub open spec fn is_type(m: LooseMessage, t: Seq<char>) -> bool {
    m.message_type matches Some(x) && x@ == t
}

/// The action for a lenient frame: a heartbeat is answered, everything else
/// (notifications, responses, legacy connection messages, unknown types) is
/// taken without reply.
pub open spec fn loose_action(m: LooseMessage) -> FrameAction {
    if is_type(m, "heartbeat"@) {
        FrameAction::SendHeartbeatReply
    } else {
        FrameAction::Nothing
    }
}

/// The connection that `find_connection_for_tab` picks: the first bound to `tab_id`.
pub open spec fn first_bound(s: Seq<WebSocketConnection>, tab_id: u32) -> Option<WebSocketConnection>
    decreases s.len(),
{
    if s.len() == 0 {
        None
    } else if s[0].tab_id == Some(tab_id) {
        Some(s[0])
    } else {
        first_bound(s.drop_first(), tab_id)
    }
}

/// Filtering keeps the ids distinct.
pub proof fn lemma_filter_preserves_unique(s: Seq<WebSocketConnection>, p: spec_fn(WebSocketConnection) -> bool)
    requires
        unique_ids(s),
    ensures
        unique_ids(s.filter(p)),
    decreases s.len(),
{
    reveal(Seq::filter);
    if s.len() > 0 {
        let init = s.drop_last();
        assert(unique_ids(init));
        lemma_filter_preserves_unique(init, p);
        if p(s.last()) {
            let f = init.filter(p);
            assert forall|i: int| 0 <= i < f.len() implies f[i].id != s.last().id by {
                init.lemma_filter_contains_rev(p, f[i]);
                assert(f.contains(f[i]));
                let k = choose|k: int| 0 <= k < init.len() && init[k] == f[i];
                assert(s[k] == init[k]);
            }
            assert forall|a: int, b: int| 0 <= a < b < s.filter(p).len() implies s.filter(p)[a].id != s.filter(p)[b].id by {
                assert(s.filter(p) == f.push(s.last()));
            }
        }
    }
}

impl ConnectionStats {
    pub open spec fn default_spec() -> ConnectionStats {
        ConnectionStats {
            total_connections: 0,
            active_connections: 0,
            messages_sent: 0,
            messages_received: 0,
            connection_errors: 0,
        }
    }
}

} // verus!
