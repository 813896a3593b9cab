use vstd::prelude::*;
use vstd::string::StringExecFns;

verus! {

/// Response times kept per tool.
pub const RESPONSE_TIME_HISTORY: usize = 100;

/// What has been recorded for one tool name. Times are in microseconds.
pub struct ToolStats {
    pub name: String,
    pub count: u64,
    pub response_times: Vec<u64>,
    pub errors: u64,
}

/// The record of one tool: its call count, its recent response times and its
/// error count.
pub struct Tally {
    pub count: u64,
    pub times: Seq<u64>,
    pub errors: u64,
}

/// `c` plus one, wrapping to zero past the largest value.
pub open spec fn plus_one(c: u64) -> u64 {
    if c == u64::MAX {
        0
    } else {
        (c + 1) as u64
    }
}

/// The tally after one more call taking `d`, successful or not. A fresh tool
/// starts from zero.
pub open spec fn tally_after(old: Option<Tally>, d: u64, success: bool) -> Tally {
    let base = match old {
        Some(t) => t,
        None => Tally { count: 0, times: Seq::empty(), errors: 0 },
    };
    let pushed = base.times.push(d);
    Tally {
        count: plus_one(base.count),
        times: if pushed.len() > RESPONSE_TIME_HISTORY {
            pushed.drop_first()
        } else {
            pushed
        },
        errors: if success {
            base.errors
        } else {
            plus_one(base.errors)
        },
    }
}

/// Per-tool call counts, response times and errors.
pub struct PerformanceMonitor {
    tools: Vec<ToolStats>,
}

impl PerformanceMonitor {
    pub closed spec fn wf(&self) -> bool {
        &&& forall|i: int, j: int| 0 <= i < j < self.tools@.len() ==> self.tools@[i].name@ != self.tools@[j].name@
        &&& forall|i: int| 0 <= i < self.tools@.len() ==> self.tools@[i].response_times@.len() <= RESPONSE_TIME_HISTORY
    }

    /// The tally of each tool name recorded so far.
    pub closed spec fn tallies(&self) -> Map<Seq<char>, Tally> {
        Map::new(
            |n: Seq<char>| exists|i: int| 0 <= i < self.tools@.len() && self.tools@[i].name@ == n,
            |n: Seq<char>| {
                let s = self.tools@[choose|i: int| 0 <= i < self.tools@.len() && self.tools@[i].name@ == n];
                Tally { count: s.count, times: s.response_times@, errors: s.errors }
            },
        )
    }

    proof fn lemma_tally_at(&self, i: int)
        requires
            self.wf(),
            0 <= i < self.tools@.len(),
        ensures
            self.tallies().contains_key(self.tools@[i].name@),
            self.tallies()[self.tools@[i].name@] == (Tally {
                count: self.tools@[i].count,
                times: self.tools@[i].response_times@,
                errors: self.tools@[i].errors,
            }),
    {
        let n = self.tools@[i].name@;
        assert(self.tallies().contains_key(n));
        let j = choose|j: int| 0 <= j < self.tools@.len() && self.tools@[j].name@ == n;
        assert(i == j);
    }

    pub fn new() -> (r: Self)
        ensures
            r.wf(),
            r.tallies() == Map::<Seq<char>, Tally>::empty(),
    {
        let r = PerformanceMonitor { tools: Vec::new() };
        assert(r.tallies() =~= Map::<Seq<char>, Tally>::empty());
        r
    }

    /// Records one call of `tool_name` that took `duration` microseconds.
    pub fn record_request(&mut self, tool_name: &str, duration: u64, success: bool)
        requires
            old(self).wf(),
        ensures
            final(self).wf(),
            final(self).tallies() == old(self).tallies().insert(
                tool_name@,
                tally_after(
                    if old(self).tallies().contains_key(tool_name@) {
                        Some(old(self).tallies()[tool_name@])
                    } else {
                        None
                    },
                    duration,
                    success,
                ),
            ),
    {
        let name = String::from_str(tool_name);
        let ghost before = *self;
        let mut i: usize = 0;
        while i < self.tools.len()
            invariant
                *self == before,
                i <= self.tools@.len(),
                name@ == tool_name@,
                forall|j: int| 0 <= j < i ==> self.tools@[j].name@ != name@,
            ensures
                *self == before,
                i <= self.tools@.len(),
                forall|j: int| 0 <= j < i ==> self.tools@[j].name@ != name@,
                i < self.tools@.len() ==> self.tools@[i as int].name@ == name@,
            decreases self.tools@.len() - i,
        {
            if self.tools[i].name == name {
                break;
            }
            i = i + 1;
        }
        let found = i < self.tools.len();
        let mut entry = if found {
            proof {
                before.lemma_tally_at(i as int);
            }
            self.tools.remove(i)
        } else {
            ToolStats { name, count: 0, response_times: Vec::new(), errors: 0 }
        };
        let ghost old_times = entry.response_times@;
        entry.count = if entry.count == u64::MAX {
            0
        } else {
            entry.count + 1
        };
        entry.response_times.push(duration);
        if entry.response_times.len() > RESPONSE_TIME_HISTORY {
            entry.response_times.remove(0);
        }
        if !success {
            entry.errors = if entry.errors == u64::MAX {
                0
            } else {
                entry.errors + 1
            };
        }
        proof {
            let pushed = old_times.push(duration);
            if pushed.len() > RESPONSE_TIME_HISTORY {
                assert(entry.response_times@ =~= pushed.drop_first());
            } else {
                assert(entry.response_times@ =~= pushed);
            }
        }
        let ghost mid = self.tools@;
        let ghost entry_name = entry.name@;
        assert(entry_name == tool_name@);
        self.tools.push(entry);
        let ghost n = tool_name@;
        let ghost t = tally_after(
            if before.tallies().contains_key(n) {
                Some(before.tallies()[n])
            } else {
                None
            },
            duration,
            success,
        );
        proof {
            if !found {
                assert(!before.tallies().contains_key(n)) by {
                    if before.tallies().contains_key(n) {
                        let j = choose|j: int| 0 <= j < before.tools@.len() && before.tools@[j].name@ == n;
                    }
                }
            }
            let last = self.tools@.len() - 1;
            assert forall|a: int| 0 <= a < last implies #[trigger] mid[a] == before.tools@[if found && a >= i { a + 1 } else { a }] by {
            }
            assert forall|a: int, b: int| 0 <= a < b < self.tools@.len() implies self.tools@[a].name@ != self.tools@[b].name@ by {
                let a1 = if found && a >= i { a + 1 } else { a };
                if b < last {
                    let b1 = if found && b >= i { b + 1 } else { b };
                    assert(self.tools@[a] == before.tools@[a1]);
                    assert(self.tools@[b] == before.tools@[b1]);
                } else {
                    assert(self.tools@[a] == before.tools@[a1]);
                    if found {
                        assert(before.tools@[a1].name@ != before.tools@[i as int].name@);
                    }
                }
            }
            assert forall|a: int| 0 <= a < self.tools@.len() implies self.tools@[a].response_times@.len() <= RESPONSE_TIME_HISTORY by {
                if a < last {
                    let a1 = if found && a >= i { a + 1 } else { a };
                    assert(self.tools@[a] == before.tools@[a1]);
                }
            }
            assert forall|k: Seq<char>| #[trigger] self.tallies().contains_key(k) <==> before.tallies().insert(n, t).contains_key(k) by {
                if self.tallies().contains_key(k) && k != n {
                    let a = choose|a: int| 0 <= a < self.tools@.len() && self.tools@[a].name@ == k;
                    let a1 = if found && a >= i { a + 1 } else { a };
                    assert(a < last);
                    assert(before.tools@[a1].name@ == k);
                }
                if k == n {
                    assert(self.tools@[last].name@ == n);
                } else if before.tallies().contains_key(k) {
                    let a = choose|a: int| 0 <= a < before.tools@.len() && before.tools@[a].name@ == k;
                    assert(!(found && a == i));
                    let a2 = if found && a > i { a - 1 } else { a };
                    assert(self.tools@[a2] == before.tools@[a]);
                }
            }
            assert forall|k: Seq<char>| #[trigger] self.tallies().contains_key(k) implies self.tallies()[k] == before.tallies().insert(n, t)[k] by {
                let a = choose|a: int| 0 <= a < self.tools@.len() && self.tools@[a].name@ == k;
                self.lemma_tally_at(a);
                if a < last {
                    let a1 = if found && a >= i { a + 1 } else { a };
                    assert(self.tools@[a] == before.tools@[a1]);
                    before.lemma_tally_at(a1);
                }
            }
            assert(self.tallies() =~= before.tallies().insert(n, t));
        }
    }

    /// For each tool recorded, in the order first seen: its name, call count,
    /// mean recent response time (rounded down) and error count.
    pub fn get_stats(&self) -> (r: Vec<(String, u64, u64, u64)>)
        requires
            self.wf(),
        ensures
            r@.len() == self.tallies().len(),
            forall|i: int| 0 <= i < r@.len() ==> {
                let (name, count, mean_time, errors) = #[trigger] r@[i];
                &&& self.tallies().contains_key(name@)
                &&& count == self.tallies()[name@].count
                &&& errors == self.tallies()[name@].errors
                &&& mean_time == mean_of(self.tallies()[name@].times)
            },
    {
        let mut out: Vec<(String, u64, u64, u64)> = Vec::new();
        let mut i: usize = 0;
        while i < self.tools.len()
            invariant
                self.wf(),
                i <= self.tools@.len(),
                out@.len() == i,
                forall|j: int| 0 <= j < i ==> {
                    let (name, count, mean_time, errors) = #[trigger] out@[j];
                    &&& name@ == self.tools@[j].name@
                    &&& count == self.tools@[j].count
                    &&& errors == self.tools@[j].errors
                    &&& mean_time == mean_of(self.tools@[j].response_times@)
                },
            decreases self.tools@.len() - i,
        {
            let s = &self.tools[i];
            let m = mean_time(&s.response_times);
            out.push((s.name.clone(), s.count, m, s.errors));
            i = i + 1;
        }
        proof {
            assert forall|j: int| 0 <= j < out@.len() implies ({
                let (name, count, mean_time, errors) = #[trigger] out@[j];
                &&& self.tallies().contains_key(name@)
                &&& count == self.tallies()[name@].count
                &&& errors == self.tallies()[name@].errors
                &&& mean_time == mean_of(self.tallies()[name@].times)
            }) by {
                self.lemma_tally_at(j);
            }
            lemma_names_count(self);
        }
        out
    }

    /// Forgets everything recorded.
    pub fn reset_stats(&mut self)
        ensures
            final(self).wf(),
            final(self).tallies() == Map::<Seq<char>, Tally>::empty(),
    {
        self.tools = Vec::new();
        assert(self.tallies() =~= Map::<Seq<char>, Tally>::empty());
    }
}

impl Default for PerformanceMonitor {
    fn default() -> (r: Self)
        ensures
            r.wf(),
            r.tallies() == Map::<Seq<char>, Tally>::empty(),
    {
        PerformanceMonitor::new()
    }
}

proof fn lemma_names_count(m: &PerformanceMonitor)
    requires
        m.wf(),
    ensures
        m.tallies().len() == m.tools@.len(),
{
    let names = m.tools@.map_values(|s: ToolStats| s.name@);
    assert(m.tallies().dom() =~= names.to_set()) by {
        assert forall|k: Seq<char>| m.tallies().dom().contains(k) <==> names.to_set().contains(k) by {
            if m.tallies().contains_key(k) {
                let a = choose|a: int| 0 <= a < m.tools@.len() && m.tools@[a].name@ == k;
                assert(names[a] == k);
            }
            if names.to_set().contains(k) {
                let a = choose|a: int| 0 <= a < names.len() && names[a] == k;
                assert(m.tools@[a].name@ == k);
            }
        }
    }
    assert(names.no_duplicates());
    names.unique_seq_to_set();
}

/// The mean of `s`, rounded down; zero for an empty `s`.
pub open spec fn mean_of(s: Seq<u64>) -> u64 {
    if s.len() == 0 {
        0
    } else {
        (sum_of(s) / (s.len() as int)) as u64
    }
}

pub open spec fn sum_of(s: Seq<u64>) -> int
    decreases s.len(),
{
    if s.len() == 0 {
        0
    } else {
        sum_of(s.drop_last()) + s.last()
    }
}

proof fn lemma_sum_bound(s: Seq<u64>)
    ensures
        0 <= sum_of(s) <= s.len() * (u64::MAX as int),
    decreases s.len(),
{
    if s.len() > 0 {
        lemma_sum_bound(s.drop_last());
        assert(s.drop_last().len() * (u64::MAX as int) + u64::MAX as int == s.len() * (u64::MAX as int)) by (nonlinear_arith)
            requires s.drop_last().len() + 1 == s.len();
    }
}

fn mean_time(times: &Vec<u64>) -> (r: u64)
    requires
        times@.len() <= RESPONSE_TIME_HISTORY,
    ensures
        r == mean_of(times@),
{
    if times.len() == 0 {
        return 0;
    }
    let mut sum: u128 = 0;
    let mut i: usize = 0;
    while i < times.len()
        invariant
            i <= times@.len(),
            times@.len() <= RESPONSE_TIME_HISTORY,
            sum == sum_of(times@.subrange(0, i as int)),
        decreases times@.len() - i,
    {
        proof {
            assert(times@.subrange(0, i + 1).drop_last() =~= times@.subrange(0, i as int));
            lemma_sum_bound(times@.subrange(0, i as int));
            assert(i * (u64::MAX as int) <= 100 * (u64::MAX as int)) by (nonlinear_arith)
                requires i <= 100;
        }
        sum = sum + times[i] as u128;
        i = i + 1;
    }
    assert(times@.subrange(0, times@.len() as int) =~= times@);
    proof {
        lemma_sum_bound(times@);
        assert(sum_of(times@) / (times@.len() as int) <= u64::MAX) by (nonlinear_arith)
            requires 0 <= sum_of(times@) <= times@.len() * (u64::MAX as int), times@.len() > 0;
    }
    (sum / (times.len() as u128)) as u64
}

} // verus!
