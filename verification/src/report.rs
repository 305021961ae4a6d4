//! The fetch report: per-URL outcomes of executing a download plan. A
//! failure on one URL never aborts the others; the report aggregates every
//! outcome, and exposes the failed subset so a caller can resubmit it as a
//! new, smaller plan.

use vstd::prelude::*;

verus! {

/// What became of one planned download: the bytes written on success, or a
/// typed failure at the transport, HTTP-status or filesystem layer.
#[derive(Clone, Copy, Debug, PartialEq, Eq, Structural)]
pub enum FetchOutcome {
    Fetched(u64),
    NetworkError,
    StatusError(u16),
    WriteError,
}

/// Whether an outcome is a success.
pub open spec fn is_success(o: FetchOutcome) -> bool {
    o is Fetched
}

/// How many of the recorded outcomes succeeded.
pub open spec fn count_successes(s: Seq<(String, FetchOutcome)>) -> int
    decreases s.len(),
{
    if s.len() == 0 {
        0
    } else {
        count_successes(s.drop_last()) + if is_success(s.last().1) {
            1int
        } else {
            0int
        }
    }
}

/// The URLs of the recorded outcomes that failed, in record order.
pub open spec fn failed_of(s: Seq<(String, FetchOutcome)>) -> Seq<Seq<char>>
    decreases s.len(),
{
    if s.len() == 0 {
        Seq::empty()
    } else if is_success(s.last().1) {
        failed_of(s.drop_last())
    } else {
        failed_of(s.drop_last()).push(s.last().0@)
    }
}

proof fn lemma_count_successes_bounds(s: Seq<(String, FetchOutcome)>)
    ensures
        0 <= count_successes(s) <= s.len(),
        count_successes(s) + failed_of(s).len() == s.len(),
    decreases s.len(),
{
    if s.len() > 0 {
        lemma_count_successes_bounds(s.drop_last());
    }
}

/// The aggregate of a plan's execution: one recorded outcome per URL.
pub struct FetchReport {
    results: Vec<(String, FetchOutcome)>,
}

impl View for FetchReport {
    type V = Seq<(String, FetchOutcome)>;

    closed spec fn view(&self) -> Seq<(String, FetchOutcome)> {
        self.results@
    }
}

impl FetchReport {
    pub fn new() -> (r: FetchReport)
        ensures
            r@ == Seq::<(String, FetchOutcome)>::empty(),
    {
        FetchReport { results: Vec::new() }
    }

    /// Records the outcome of one URL. Recording a failure leaves every
    /// other record as it was: outcomes aggregate, they never abort.
    pub fn record(&mut self, url: String, outcome: FetchOutcome)
        ensures
            final(self)@ == old(self)@.push((url, outcome)),
    {
        self.results.push((url, outcome));
    }

    /// How many outcomes are recorded.
    pub fn len(&self) -> (r: usize)
        ensures
            r == self@.len(),
    {
        self.results.len()
    }

    /// How many downloads succeeded.
    pub fn success_count(&self) -> (r: usize)
        ensures
            r == count_successes(self@),
    {
        proof {
            lemma_count_successes_bounds(self@);
        }
        let n = self.results.len();
        let mut c: usize = 0;
        let mut i: usize = 0;
        while i < n
            invariant
                0 <= i <= n,
                n == self.results@.len(),
                c == count_successes(self.results@.subrange(0, i as int)),
                c <= i,
            decreases n - i,
        {
            proof {
                assert(self.results@.subrange(0, i + 1).drop_last() =~= self.results@.subrange(
                    0,
                    i as int,
                ));
            }
            if let FetchOutcome::Fetched(_) = self.results[i].1 {
                c = c + 1;
            }
            i = i + 1;
        }
        proof {
            assert(self.results@.subrange(0, n as int) =~= self.results@);
        }
        c
    }

    /// How many downloads failed, for any of the failure reasons.
    pub fn failure_count(&self) -> (r: usize)
        ensures
            r == failed_of(self@).len(),
            r + count_successes(self@) == self@.len(),
    {
        proof {
            lemma_count_successes_bounds(self@);
        }
        let total = self.results.len();
        let ok = self.success_count();
        total - ok
    }

    /// The URLs that failed, in record order: the subset a caller may
    /// resubmit as a new plan.
    pub fn failed_urls(&self) -> (r: Vec<String>)
        ensures
            r@.map_values(|u: String| u@) == failed_of(self@),
    {
        let n = self.results.len();
        let mut r: Vec<String> = Vec::new();
        let mut i: usize = 0;
        while i < n
            invariant
                0 <= i <= n,
                n == self.results@.len(),
                r@.map_values(|u: String| u@) == failed_of(self.results@.subrange(0, i as int)),
            decreases n - i,
        {
            let ghost before = r@;
            proof {
                assert(self.results@.subrange(0, i + 1).drop_last() =~= self.results@.subrange(
                    0,
                    i as int,
                ));
            }
            match self.results[i].1 {
                FetchOutcome::Fetched(_) => {},
                _ => {
                    r.push(self.results[i].0.clone());
                    proof {
                        assert(r@.map_values(|u: String| u@) =~= before.map_values(
                            |u: String| u@,
                        ).push(self.results@[i as int].0@));
                    }
                },
            }
            i = i + 1;
        }
        proof {
            assert(self.results@.subrange(0, n as int) =~= self.results@);
        }
        r
    }
}

} // verus!
