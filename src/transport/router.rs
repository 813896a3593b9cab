use vstd::prelude::*;
use crate::types::errors::BrowserMcpError;
use crate::types::messages::BrowserResponse;

verus! {

/// How long a request may wait for its response, in milliseconds.
pub const REQUEST_TIMEOUT_MS: u64 = 30000;

/// An outstanding request and the time by which it must be answered.
pub struct PendingRequest {
    pub request_id: u128,
    pub deadline: u64,
}

/// What a waiting caller receives for its request.
pub type Completion = Result<BrowserResponse, BrowserMcpError>;

/// The completion that an answer from the extension makes: an error string
/// becomes `BrowserExtensionError`.
pub open spec fn completion_of(result: Result<BrowserResponse, String>) -> Completion {
    match result {
        Ok(r) => Ok(r),
        Err(message) => Err(BrowserMcpError::BrowserExtensionError { message }),
    }
}

/// The deadline of a request registered at `now`, capped at the largest time.
pub open spec fn deadline_after(now: u64, timeout: u64) -> u64 {
    if now + timeout <= u64::MAX {
        (now + timeout) as u64
    } else {
        u64::MAX
    }
}

/// The table of requests awaiting a response, keyed by request id.
pub struct MessageRouter {
    pending_requests: Vec<PendingRequest>,
    request_timeout: u64,
}

impl MessageRouter {
    /// Each pending request id with its deadline.
    pub closed spec fn pending(&self) -> Map<u128, u64> {
        Map::new(
            |id: u128| exists|i: int| 0 <= i < self.pending_requests@.len() && self.pending_requests@[i].request_id == id,
            |id: u128| self.pending_requests@[choose|i: int| 0 <= i < self.pending_requests@.len() && self.pending_requests@[i].request_id == id].deadline,
        )
    }

    pub closed spec fn timeout(&self) -> u64 {
        self.request_timeout
    }

    pub closed spec fn wf(&self) -> bool {
        forall|i: int, j: int|
            0 <= i < j < self.pending_requests@.len() ==> self.pending_requests@[i].request_id
                != self.pending_requests@[j].request_id
    }

    proof fn lemma_pending_at(&self, i: int)
        requires
            self.wf(),
            0 <= i < self.pending_requests@.len(),
        ensures
            self.pending().contains_key(self.pending_requests@[i].request_id),
            self.pending()[self.pending_requests@[i].request_id] == self.pending_requests@[i].deadline,
    {
        let id = self.pending_requests@[i].request_id;
        assert(self.pending().contains_key(id));
        let j = choose|j: int| 0 <= j < self.pending_requests@.len() && self.pending_requests@[j].request_id == id;
        assert(i == j);
    }

    /// `request_timeout` is in milliseconds.
    pub fn new(request_timeout: u64) -> (r: Self)
        ensures
            r.wf(),
            r.pending() == Map::<u128, u64>::empty(),
            r.timeout() == request_timeout,
    {
        let r = MessageRouter { pending_requests: Vec::new(), request_timeout };
        assert(r.pending() =~= Map::<u128, u64>::empty());
        r
    }

    pub fn request_timeout(&self) -> (r: u64)
        ensures
            r == self.timeout(),
    {
        self.request_timeout
    }

    fn position(&self, request_id: u128) -> (r: Option<usize>)
        requires
            self.wf(),
        ensures
            r is None <==> !self.pending().contains_key(request_id),
            r matches Some(i) ==> i < self.pending_requests@.len()
                && self.pending_requests@[i as int].request_id == request_id,
    {
        let mut i: usize = 0;
        while i < self.pending_requests.len()
            invariant
                i <= self.pending_requests@.len(),
                forall|j: int| 0 <= j < i ==> self.pending_requests@[j].request_id != request_id,
            decreases self.pending_requests@.len() - i,
        {
            if self.pending_requests[i].request_id == request_id {
                return Some(i);
            }
            i = i + 1;
        }
        None
    }

    fn remove_at(&mut self, i: usize)
        requires
            old(self).wf(),
            i < old(self).pending_requests@.len(),
        ensures
            final(self).wf(),
            final(self).timeout() == old(self).timeout(),
            final(self).pending() == old(self).pending().remove(old(self).pending_requests@[i as int].request_id),
            final(self).pending_requests@ == old(self).pending_requests@.remove(i as int),
    {
        let ghost id = self.pending_requests@[i as int].request_id;
        let ghost before = *self;
        proof {
            before.lemma_pending_at(i as int);
        }
        self.pending_requests.remove(i);
        assert forall|a: int, b: int|
            0 <= a < b < self.pending_requests@.len() implies self.pending_requests@[a].request_id
                != self.pending_requests@[b].request_id by {
            let a1 = if a < i { a } else { a + 1 };
            let b1 = if b < i { b } else { b + 1 };
            assert(self.pending_requests@[a] == before.pending_requests@[a1]);
            assert(self.pending_requests@[b] == before.pending_requests@[b1]);
        }
        assert forall|k: u128| #[trigger] self.pending().contains_key(k) <==> before.pending().remove(id).contains_key(k) by {
            if self.pending().contains_key(k) {
                let j = choose|j: int| 0 <= j < self.pending_requests@.len() && self.pending_requests@[j].request_id == k;
                let j1 = if j < i { j } else { j + 1 };
                assert(self.pending_requests@[j] == before.pending_requests@[j1]);
                assert(before.pending_requests@[j1].request_id == k);
            }
            if before.pending().remove(id).contains_key(k) {
                let j = choose|j: int| 0 <= j < before.pending_requests@.len() && before.pending_requests@[j].request_id == k;
                assert(j != i);
                let j1 = if j < i { j } else { j - 1 };
                assert(self.pending_requests@[j1] == before.pending_requests@[j]);
            }
        }
        assert forall|k: u128| #[trigger] self.pending().contains_key(k) implies self.pending()[k] == before.pending().remove(id)[k] by {
            let j = choose|j: int| 0 <= j < self.pending_requests@.len() && self.pending_requests@[j].request_id == k;
            self.lemma_pending_at(j);
            let j1 = if j < i { j } else { j + 1 };
            assert(self.pending_requests@[j] == before.pending_requests@[j1]);
            before.lemma_pending_at(j1);
        }
        assert(self.pending() =~= before.pending().remove(id));
    }

    /// Records `request_id` as awaiting a response until `now` plus the timeout;
    /// an earlier entry with the same id is replaced.
    pub fn register_pending_request(&mut self, request_id: u128, now: u64)
        requires
            old(self).wf(),
        ensures
            final(self).wf(),
            final(self).timeout() == old(self).timeout(),
            final(self).pending() == old(self).pending().insert(request_id, deadline_after(now, old(self).timeout())),
    {
        match self.position(request_id) {
            Some(i) => self.remove_at(i),
            None => {},
        }
        let ghost before = *self;
        let deadline = if now <= u64::MAX - self.request_timeout {
            now + self.request_timeout
        } else {
            u64::MAX
        };
        self.pending_requests.push(PendingRequest { request_id, deadline });
        let ghost n: int = self.pending_requests@.len() - 1;
        assert forall|a: int, b: int|
            0 <= a < b < self.pending_requests@.len() implies self.pending_requests@[a].request_id
                != self.pending_requests@[b].request_id by {
            if b == n {
                assert(self.pending_requests@[a] == before.pending_requests@[a]);
                if before.pending_requests@[a].request_id == request_id {
                    assert(before.pending().contains_key(request_id));
                }
            }
        }
        assert forall|k: u128| #[trigger] self.pending().contains_key(k) <==> before.pending().insert(request_id, deadline).contains_key(k) by {
            if self.pending().contains_key(k) && k != request_id {
                let j = choose|j: int| 0 <= j < self.pending_requests@.len() && self.pending_requests@[j].request_id == k;
                assert(j < n);
                assert(before.pending_requests@[j].request_id == k);
            }
            if k == request_id {
                assert(self.pending_requests@[n as int].request_id == k);
            } else if before.pending().contains_key(k) {
                let j = choose|j: int| 0 <= j < before.pending_requests@.len() && before.pending_requests@[j].request_id == k;
                assert(self.pending_requests@[j] == before.pending_requests@[j]);
            }
        }
        assert forall|k: u128| #[trigger] self.pending().contains_key(k) implies self.pending()[k] == before.pending().insert(request_id, deadline)[k] by {
            let j = choose|j: int| 0 <= j < self.pending_requests@.len() && self.pending_requests@[j].request_id == k;
            self.lemma_pending_at(j);
            if j < n {
                assert(self.pending_requests@[j] == before.pending_requests@[j]);
                before.lemma_pending_at(j);
            }
        }
        assert(self.pending() =~= before.pending().insert(request_id, deadline));
    }

    /// Takes `request_id` out of the table and returns what its caller receives;
    /// a response for an id that is not pending (late or repeated) is dropped.
    pub fn handle_response(&mut self, request_id: u128, result: Result<BrowserResponse, String>) -> (r: Option<Completion>)
        requires
            old(self).wf(),
        ensures
            final(self).wf(),
            final(self).timeout() == old(self).timeout(),
            final(self).pending() == old(self).pending().remove(request_id),
            old(self).pending().contains_key(request_id) ==> r == Some(completion_of(result)),
            !old(self).pending().contains_key(request_id) ==> r is None,
    {
        match self.position(request_id) {
            Some(i) => {
                self.remove_at(i);
                match result {
                    Ok(resp) => Some(Ok(resp)),
                    Err(message) => Some(Err(BrowserMcpError::BrowserExtensionError { message })),
                }
            },
            None => {
                assert(self.pending().remove(request_id) =~= self.pending());
                None
            },
        }
    }

    /// Takes out every request whose deadline is at or before `now` and returns
    /// their ids; each of their callers receives `RequestTimeout`.
    pub fn expire_requests(&mut self, now: u64) -> (r: Vec<u128>)
        requires
            old(self).wf(),
        ensures
            final(self).wf(),
            final(self).timeout() == old(self).timeout(),
            forall|id: u128| #[trigger] r@.contains(id) <==> old(self).pending().contains_key(id)
                && old(self).pending()[id] <= now,
            final(self).pending() == old(self).pending().restrict(
                old(self).pending().dom().filter(|id: u128| old(self).pending()[id] > now),
            ),
    {
        let ghost orig = self.pending();
        let mut expired: Vec<u128> = Vec::new();
        let mut i: usize = 0;
        while i < self.pending_requests.len()
            invariant
                self.wf(),
                self.timeout() == old(self).timeout(),
                i <= self.pending_requests@.len(),
                forall|j: int| 0 <= j < i ==> self.pending_requests@[j].deadline > now,
                forall|k: u128| #[trigger] self.pending().contains_key(k) ==> orig.contains_key(k) && self.pending()[k] == orig[k],
                forall|k: u128| #[trigger] orig.contains_key(k) && orig[k] > now ==> self.pending().contains_key(k),
                forall|k: u128| #[trigger] expired@.contains(k) <==> orig.contains_key(k) && orig[k] <= now && !self.pending().contains_key(k),
            decreases self.pending_requests@.len() - i,
        {
            if self.pending_requests[i].deadline <= now {
                let id = self.pending_requests[i].request_id;
                let ghost before = self.pending();
                proof {
                    self.lemma_pending_at(i as int);
                }
                self.remove_at(i);
                let ghost old_exp = expired@;
                expired.push(id);
                assert forall|k: u128| #[trigger] expired@.contains(k) <==> orig.contains_key(k) && orig[k] <= now && !self.pending().contains_key(k) by {
                    if k == id {
                        assert(expired@[expired@.len() - 1] == id);
                        assert(orig.contains_key(id) && orig[id] == before[id]);
                    } else {
                        assert(self.pending().contains_key(k) == before.contains_key(k));
                        if expired@.contains(k) {
                            let j = choose|j: int| 0 <= j < expired@.len() && expired@[j] == k;
                            assert(j < expired@.len() - 1);
                            assert(old_exp[j] == k);
                        }
                        if old_exp.contains(k) {
                            let j = choose|j: int| 0 <= j < old_exp.len() && old_exp[j] == k;
                            assert(expired@[j] == k);
                        }
                    }
                }
                assert forall|j: int| 0 <= j < i implies self.pending_requests@[j].deadline > now by {
                    assert(self.pending_requests@[j].deadline > now);
                }
            } else {
                i = i + 1;
            }
        }
        assert forall|k: u128| #[trigger] self.pending().contains_key(k) implies self.pending()[k] > now by {
            let j = choose|j: int| 0 <= j < self.pending_requests@.len() && self.pending_requests@[j].request_id == k;
            self.lemma_pending_at(j);
        }
        assert(self.pending() =~= orig.restrict(orig.dom().filter(|id: u128| orig[id] > now)));
        expired
    }
}

/// How the wait for a request ended.
pub enum SlotOutcome {
    /// The slot was filled by a response or by the timeout sweep.
    Delivered(Completion),
    /// The slot was dropped unfilled (the connection or the server went away).
    Dropped,
    /// The caller stopped waiting at the deadline.
    TimedOut,
}

/// What the caller of a request finally gets.
pub fn finish_request(outcome: SlotOutcome, timeout_ms: u64) -> (r: Completion)
    ensures
        match outcome {
            SlotOutcome::Delivered(c) => r == c,
            SlotOutcome::Dropped => r == Err::<BrowserResponse, BrowserMcpError>(BrowserMcpError::ConnectionClosed),
            SlotOutcome::TimedOut => r == Err::<BrowserResponse, BrowserMcpError>(BrowserMcpError::RequestTimeout { timeout_ms }),
        },
{
    match outcome {
        SlotOutcome::Delivered(c) => c,
        SlotOutcome::Dropped => Err(BrowserMcpError::ConnectionClosed),
        SlotOutcome::TimedOut => Err(BrowserMcpError::RequestTimeout { timeout_ms }),
    }
}

/// The completion that a timeout sweep delivers.
pub fn timeout_completion(timeout_ms: u64) -> (r: Completion)
    ensures
        r == Err::<BrowserResponse, BrowserMcpError>(BrowserMcpError::RequestTimeout { timeout_ms }),
{
    Err(BrowserMcpError::RequestTimeout { timeout_ms })
}

/// The table left by a sweep at `now`: the requests whose deadline lies after `now`.
pub open spec fn after_sweep(pending: Map<u128, u64>, now: u64) -> Map<u128, u64> {
    pending.restrict(pending.dom().filter(|id: u128| pending[id] > now))
}

/// A registered request is completed exactly once, and no later than its deadline.
/// Registering `request_id` at `registered_at` gives it the deadline
/// `registered_at + timeout`; a response takes it out of the table, after which
/// neither a repeated response nor a sweep completes it again; a sweep at or
/// after the deadline takes it out and completes it, after which a late
/// response completes nothing.
pub proof fn lemma_completed_exactly_once(
    pending: Map<u128, u64>,
    request_id: u128,
    registered_at: u64,
    timeout: u64,
    now: u64,
)
    ensures
        ({
            let deadline = deadline_after(registered_at, timeout);
            let registered = pending.insert(request_id, deadline);
            let answered = registered.remove(request_id);
            &&& registered.contains_key(request_id)
            &&& deadline <= registered_at + timeout
            &&& !answered.contains_key(request_id)
            &&& !after_sweep(answered, now).contains_key(request_id)
            &&& now >= deadline ==> registered[request_id] <= now && !after_sweep(registered, now).contains_key(
                request_id,
            )
            &&& now < deadline ==> after_sweep(registered, now).contains_key(request_id)
        }),
{
}

} // verus!
