use vstd::prelude::*;
use crate::clock::now_millis;
use crate::types::errors::BrowserMcpError;
use crate::types::messages::{BrowserRequest, BrowserResponse};

verus! {

/// Relies on uuid's `Uuid::new_v4` and `Uuid::as_u128`: a random version-4
/// identifier as its 128-bit value. Nothing is promised of the value.
#[verifier::external_body]
fn random_uuid() -> (r: u128) {
    uuid::Uuid::new_v4().as_u128()
}

/// A fresh request identifier.
pub fn new_request_id() -> (r: u128) {
    random_uuid()
}

/// `now` minus `start`, or zero when `start` lies after `now`.
pub open spec fn elapsed_between(start: u64, now: u64) -> u64 {
    if start <= now {
        (now - start) as u64
    } else {
        0
    }
}

/// One request's identity, start time and retry budget. Times are in milliseconds.
#[derive(Debug)]
pub struct RequestTracker {
    pub request_id: u128,
    pub start_time: u64,
    pub timeout: u64,
    pub retry_count: usize,
    pub max_retries: usize,
}

impl RequestTracker {
    /// A tracker started now, with a fresh id and no retries used.
    pub fn new(timeout: u64, max_retries: usize) -> (r: Self)
        ensures
            r.timeout == timeout,
            r.max_retries == max_retries,
            r.retry_count == 0,
    {
        RequestTracker { request_id: new_request_id(), start_time: now_millis(), timeout, retry_count: 0, max_retries }
    }

    pub fn is_expired_at(&self, now: u64) -> (r: bool)
        ensures
            r == (elapsed_between(self.start_time, now) > self.timeout),
    {
        self.elapsed_at(now) > self.timeout
    }

    /// Whether the timeout has passed, read against the clock.
    pub fn is_expired(&self) -> (r: bool)
        ensures
            exists|now: u64| r == (elapsed_between(self.start_time, now) > self.timeout),
    {
        self.is_expired_at(now_millis())
    }

    pub fn can_retry(&self) -> (r: bool)
        ensures
            r == (self.retry_count < self.max_retries),
    {
        self.retry_count < self.max_retries
    }

    /// Uses one retry, under a fresh id, when any is left.
    pub fn retry(&mut self) -> (r: bool)
        ensures
            r == (old(self).retry_count < old(self).max_retries),
            r ==> final(self).retry_count == old(self).retry_count + 1,
            !r ==> final(self).request_id == old(self).request_id && final(self).retry_count == old(self).retry_count,
            final(self).start_time == old(self).start_time,
            final(self).timeout == old(self).timeout,
            final(self).max_retries == old(self).max_retries,
    {
        if self.can_retry() {
            self.retry_count = self.retry_count + 1;
            self.request_id = new_request_id();
            true
        } else {
            false
        }
    }

    pub fn elapsed_at(&self, now: u64) -> (r: u64)
        ensures
            r == elapsed_between(self.start_time, now),
    {
        if self.start_time <= now {
            now - self.start_time
        } else {
            0
        }
    }

    /// Time since the start, read against the clock.
    pub fn elapsed(&self) -> (r: u64)
        ensures
            exists|now: u64| r == elapsed_between(self.start_time, now),
    {
        self.elapsed_at(now_millis())
    }
}

/// Counts and response times of the requests served. Times are in microseconds;
/// `min_response_time` is the largest value until a success is recorded.
#[derive(Debug, Clone, Copy, PartialEq, Eq)]
pub struct RequestMetrics {
    pub total_requests: u64,
    pub successful_requests: u64,
    pub failed_requests: u64,
    pub timeout_requests: u64,
    pub retry_requests: u64,
    pub average_response_time: u64,
    pub max_response_time: u64,
    pub min_response_time: u64,
}

impl Default for RequestMetrics {
    fn default() -> (r: Self)
        ensures
            r == RequestMetrics::zero(),
    {
        RequestMetrics {
            total_requests: 0,
            successful_requests: 0,
            failed_requests: 0,
            timeout_requests: 0,
            retry_requests: 0,
            average_response_time: 0,
            max_response_time: 0,
            min_response_time: u64::MAX,
        }
    }
}

impl RequestMetrics {
    pub open spec fn zero() -> RequestMetrics {
        RequestMetrics {
            total_requests: 0,
            successful_requests: 0,
            failed_requests: 0,
            timeout_requests: 0,
            retry_requests: 0,
            average_response_time: 0,
            max_response_time: 0,
            min_response_time: u64::MAX,
        }
    }
}

/// `c` plus one, wrapping to zero past the largest value.
pub open spec fn inc(c: u64) -> u64 {
    if c == u64::MAX {
        0
    } else {
        (c + 1) as u64
    }
}

fn incremented(c: u64) -> (r: u64)
    ensures
        r == inc(c),
{
    if c == u64::MAX {
        0
    } else {
        c + 1
    }
}

/// The sum of `s`.
pub open spec fn total(s: Seq<u64>) -> int
    decreases s.len(),
{
    if s.len() == 0 {
        0
    } else {
        total(s.drop_last()) + s.last()
    }
}

proof fn lemma_total_bound(s: Seq<u64>)
    ensures
        0 <= total(s) <= s.len() * (u64::MAX as int),
    decreases s.len(),
{
    if s.len() > 0 {
        lemma_total_bound(s.drop_last());
        assert(s.drop_last().len() * (u64::MAX as int) + u64::MAX as int == s.len() * (u64::MAX as int)) by (nonlinear_arith)
            requires s.drop_last().len() + 1 == s.len();
    }
}

/// The mean of `s`, rounded down; zero for an empty `s`.
pub open spec fn mean(s: Seq<u64>) -> int {
    if s.len() == 0 {
        0
    } else {
        total(s) / (s.len() as int)
    }
}

/// The recent history after recording `d`: appended, then the oldest dropped
/// when the history grew past `max`.
pub open spec fn history_after(h: Seq<u64>, d: u64, max: nat) -> Seq<u64> {
    if h.len() + 1 > max {
        h.push(d).drop_first()
    } else {
        h.push(d)
    }
}

/// Request metrics with a bounded history of response times.
pub struct RequestHandler {
    metrics: RequestMetrics,
    response_times: Vec<u64>,
    max_history: usize,
}

impl RequestHandler {
    pub closed spec fn current(&self) -> RequestMetrics {
        self.metrics
    }

    pub closed spec fn history(&self) -> Seq<u64> {
        self.response_times@
    }

    pub closed spec fn history_limit(&self) -> nat {
        self.max_history as nat
    }

    pub closed spec fn wf(&self) -> bool {
        self.response_times@.len() <= self.max_history || self.max_history == 0 && self.response_times@.len() == 0
    }

    pub fn new(max_history: usize) -> (r: Self)
        ensures
            r.wf(),
            r.current() == RequestMetrics::zero(),
            r.history() == Seq::<u64>::empty(),
            r.history_limit() == max_history,
    {
        RequestHandler { metrics: RequestMetrics::default(), response_times: Vec::new(), max_history }
    }

    /// Counts a request and returns its start time, read against the clock.
    pub fn record_request_start(&mut self) -> (r: u64)
        ensures
            final(self).current() == (RequestMetrics { total_requests: inc(old(self).current().total_requests), ..old(self).current() }),
            final(self).history() == old(self).history(),
            final(self).history_limit() == old(self).history_limit(),
            old(self).wf() ==> final(self).wf(),
    {
        self.metrics.total_requests = incremented(self.metrics.total_requests);
        now_millis()
    }

    /// Records a success for a request started at `start_time` (milliseconds).
    pub fn record_request_success(&mut self, start_time: u64)
        requires
            old(self).wf(),
        ensures
            final(self).wf(),
            final(self).current().successful_requests == inc(old(self).current().successful_requests),
            final(self).history().len() == if old(self).history_limit() == 0 {
                0
            } else {
                vstd::math::min((old(self).history().len() + 1) as int, old(self).history_limit() as int)
            },
    {
        let now = now_millis();
        let ms = if start_time <= now {
            now - start_time
        } else {
            0
        };
        let us = if ms <= u64::MAX / 1000 {
            ms * 1000
        } else {
            u64::MAX
        };
        self.record_response_time(us);
    }

    /// Records a success that took `duration` microseconds: counts it, updates the
    /// extremes, keeps it in the bounded history, and recomputes the mean over
    /// the history.
    pub fn record_response_time(&mut self, duration: u64)
        requires
            old(self).wf(),
        ensures
            final(self).wf(),
            final(self).history_limit() == old(self).history_limit(),
            final(self).history() == if old(self).history_limit() == 0 {
                Seq::<u64>::empty()
            } else {
                history_after(old(self).history(), duration, old(self).history_limit())
            },
            final(self).current() == (RequestMetrics {
                successful_requests: inc(old(self).current().successful_requests),
                max_response_time: if duration > old(self).current().max_response_time {
                    duration
                } else {
                    old(self).current().max_response_time
                },
                min_response_time: if duration < old(self).current().min_response_time {
                    duration
                } else {
                    old(self).current().min_response_time
                },
                average_response_time: if final(self).history().len() == 0 {
                    old(self).current().average_response_time
                } else {
                    mean(final(self).history()) as u64
                },
                ..old(self).current()
            }),
    {
        self.metrics.successful_requests = incremented(self.metrics.successful_requests);
        if duration > self.metrics.max_response_time {
            self.metrics.max_response_time = duration;
        }
        if duration < self.metrics.min_response_time {
            self.metrics.min_response_time = duration;
        }
        if self.max_history == 0 {
            return;
        }
        self.response_times.push(duration);
        if self.response_times.len() > self.max_history {
            self.response_times.remove(0);
        }
        proof {
            let h = old(self).response_times@;
            if h.len() + 1 > self.max_history {
                assert(self.response_times@ =~= h.push(duration).drop_first());
            }
        }
        let mut sum: u128 = 0;
        let mut i: usize = 0;
        let ghost h = self.response_times@;
        while i < self.response_times.len()
            invariant
                h == self.response_times@,
                i <= h.len(),
                h.len() <= usize::MAX,
                sum == total(h.subrange(0, i as int)),
            decreases h.len() - i,
        {
            proof {
                assert(h.subrange(0, i + 1).drop_last() =~= h.subrange(0, i as int));
                lemma_total_bound(h.subrange(0, i as int));
                assert(i * (u64::MAX as int) + u64::MAX as int <= (usize::MAX as int) * (u64::MAX as int) + u64::MAX as int) by (nonlinear_arith)
                    requires i <= usize::MAX;
            }
            sum = sum + self.response_times[i] as u128;
            i = i + 1;
        }
        assert(h.subrange(0, h.len() as int) =~= h);
        let n = self.response_times.len() as u128;
        proof {
            lemma_total_bound(h);
            assert(total(h) / (h.len() as int) <= u64::MAX) by (nonlinear_arith)
                requires 0 <= total(h) <= h.len() * (u64::MAX as int), h.len() > 0;
        }
        self.metrics.average_response_time = (sum / n) as u64;
    }

    /// Counts a failure; a timeout is also counted as such.
    pub fn record_request_failure(&mut self, start_time: u64, error: &BrowserMcpError)
        ensures
            final(self).history() == old(self).history(),
            final(self).history_limit() == old(self).history_limit(),
            old(self).wf() ==> final(self).wf(),
            final(self).current() == (RequestMetrics {
                failed_requests: inc(old(self).current().failed_requests),
                timeout_requests: if error is RequestTimeout {
                    inc(old(self).current().timeout_requests)
                } else {
                    old(self).current().timeout_requests
                },
                ..old(self).current()
            }),
    {
        self.metrics.failed_requests = incremented(self.metrics.failed_requests);
        match error {
            BrowserMcpError::RequestTimeout { .. } => {
                self.metrics.timeout_requests = incremented(self.metrics.timeout_requests);
            },
            _ => {},
        }
    }

    pub fn record_request_retry(&mut self)
        ensures
            final(self).history() == old(self).history(),
            final(self).history_limit() == old(self).history_limit(),
            old(self).wf() ==> final(self).wf(),
            final(self).current() == (RequestMetrics { retry_requests: inc(old(self).current().retry_requests), ..old(self).current() }),
    {
        self.metrics.retry_requests = incremented(self.metrics.retry_requests);
    }

    pub fn get_metrics(&self) -> (r: RequestMetrics)
        ensures
            r == self.current(),
    {
        self.metrics
    }

    pub fn reset_metrics(&mut self)
        ensures
            final(self).wf(),
            final(self).current() == RequestMetrics::zero(),
            final(self).history() == Seq::<u64>::empty(),
            final(self).history_limit() == old(self).history_limit(),
    {
        self.metrics = RequestMetrics::default();
        self.response_times = Vec::new();
    }
}

/// Requests to send together, each with its tab. `timeout` is in milliseconds.
#[derive(Debug)]
pub struct BatchRequest {
    pub requests: Vec<(u32, BrowserRequest)>,
    pub timeout: u64,
    pub max_parallel: usize,
}

impl BatchRequest {
    pub fn new(timeout: u64, max_parallel: usize) -> (r: Self)
        ensures
            r.requests@.len() == 0,
            r.timeout == timeout,
            r.max_parallel == max_parallel,
    {
        BatchRequest { requests: Vec::new(), timeout, max_parallel }
    }

    pub fn add_request(&mut self, tab_id: u32, request: BrowserRequest)
        ensures
            final(self).requests@ == old(self).requests@.push((tab_id, request)),
            final(self).timeout == old(self).timeout,
            final(self).max_parallel == old(self).max_parallel,
    {
        self.requests.push((tab_id, request));
    }

    pub fn is_empty(&self) -> (r: bool)
        ensures
            r == (self.requests@.len() == 0),
    {
        self.requests.len() == 0
    }

    pub fn len(&self) -> (r: usize)
        ensures
            r == self.requests@.len(),
    {
        self.requests.len()
    }
}

/// What came back for a batch. `elapsed` is in milliseconds.
#[derive(Debug)]
pub struct BatchResponse {
    pub responses: Vec<(u32, Result<BrowserResponse, BrowserMcpError>)>,
    pub completed: usize,
    pub failed: usize,
    pub elapsed: u64,
}

} // verus!
