//! Bounded-concurrency scheduling of a batch of installs, with per-package
//! failure isolation and an aggregate summary.
//!
//! The scheduler decides; its driver performs. The driver asks for the next
//! task to start, runs it, and reports each completion, in whatever order the
//! tasks finish. At no time are more than `max_concurrency` tasks running, and
//! once every task has been started and reported, the summary holds exactly
//! one outcome per request.

use vstd::prelude::*;
use crate::error::PmError;

verus! {

/// How one install ended.
pub enum InstallResult {
    Success,
    /// The install failed, for the reason given.
    Failure(String),
}

/// The outcome of one requested `(name, version)`.
pub struct InstallOutcome {
    pub name: String,
    pub version: String,
    pub result: InstallResult,
}

/// Counts of a batch, and its outcomes in request order.
pub struct InstallSummary {
    pub succeeded: usize,
    pub failed: usize,
    pub outcomes: Vec<InstallOutcome>,
}

/// Number of requests not yet reported among `s`.
pub open spec fn count_pending(s: Seq<Option<InstallResult>>) -> nat
    decreases s.len(),
{
    if s.len() == 0 {
        0
    } else {
        count_pending(s.drop_last()) + if s.last() is None { 1nat } else { 0nat }
    }
}

/// Number of successes reported among `s`.
pub open spec fn count_success(s: Seq<Option<InstallResult>>) -> nat
    decreases s.len(),
{
    if s.len() == 0 {
        0
    } else {
        count_success(s.drop_last()) + if s.last() matches Some(InstallResult::Success) {
            1nat
        } else {
            0nat
        }
    }
}

/// Number of failures reported among `s`.
pub open spec fn count_failure(s: Seq<Option<InstallResult>>) -> nat
    decreases s.len(),
{
    if s.len() == 0 {
        0
    } else {
        count_failure(s.drop_last()) + if s.last() matches Some(InstallResult::Failure(_)) {
            1nat
        } else {
            0nat
        }
    }
}

/// The outcome record of one request: name, version, result.
pub open spec fn outcome_view(o: InstallOutcome) -> (Seq<char>, Seq<char>, InstallResult) {
    (o.name@, o.version@, o.result)
}

/// The outcomes of the reported requests, in request order.
pub open spec fn reported_outcomes(
    requests: Seq<(String, String)>,
    results: Seq<Option<InstallResult>>,
) -> Seq<(Seq<char>, Seq<char>, InstallResult)>
    decreases results.len(),
{
    if results.len() == 0 || requests.len() < results.len() {
        Seq::empty()
    } else {
        let p = reported_outcomes(requests, results.drop_last());
        let i = results.len() - 1;
        match results.last() {
            Some(res) => p.push((requests[i].0@, requests[i].1@, res)),
            None => p,
        }
    }
}

/// Schedules a batch of `(name, version)` installs under a concurrency cap.
pub struct InstallScheduler {
    requests: Vec<(String, String)>,
    max_concurrency: usize,
    started: usize,
    running: usize,
    results: Vec<Option<InstallResult>>,
}

impl InstallScheduler {
    /// The scheduler's bookkeeping is consistent; every method keeps it so.
    pub closed spec fn wf(&self) -> bool {
        &&& self.max_concurrency >= 1
        &&& self.results@.len() == self.requests@.len()
        &&& self.started <= self.requests@.len()
        &&& forall|i: int| self.started <= i < self.results@.len() ==> self.results@[i] is None
        &&& self.running == count_pending(self.results@.take(self.started as int))
        &&& self.running <= self.max_concurrency
    }

    /// The requests of the batch.
    pub closed spec fn requests(&self) -> Seq<(String, String)> {
        self.requests@
    }

    /// The cap on tasks running at once.
    pub closed spec fn max_concurrency(&self) -> nat {
        self.max_concurrency as nat
    }

    /// How many requests have been started, in request order.
    pub closed spec fn started(&self) -> nat {
        self.started as nat
    }

    /// The reported result of each request, `None` while unreported.
    pub closed spec fn results(&self) -> Seq<Option<InstallResult>> {
        self.results@
    }

    /// How many started requests are not reported yet.
    pub open spec fn running(&self) -> nat {
        count_pending(self.results().take(self.started() as int))
    }

    /// Every request has been started and reported.
    pub open spec fn finished(&self) -> bool {
        self.started() == self.requests().len() && self.running() == 0
    }

    /// A scheduler for `requests`, with nothing started.
    pub fn new(requests: Vec<(String, String)>, max_concurrency: usize) -> (r: Self)
        requires
            max_concurrency >= 1,
        ensures
            r.wf(),
            r.requests() == requests@,
            r.max_concurrency() == max_concurrency,
            r.started() == 0,
            r.results().len() == requests@.len(),
            forall|i: int| 0 <= i < requests@.len() ==> r.results()[i] is None,
    {
        let mut results: Vec<Option<InstallResult>> = Vec::new();
        let mut i: usize = 0;
        while i < requests.len()
            invariant
                i <= requests@.len(),
                results@.len() == i,
                forall|j: int| 0 <= j < i ==> results@[j] is None,
            decreases requests@.len() - i,
        {
            results.push(None);
            i = i + 1;
        }
        assert(results@.take(0) =~= Seq::<Option<InstallResult>>::empty());
        InstallScheduler { requests, max_concurrency, started: 0, running: 0, results }
    }

    /// Number of requests in the batch.
    pub fn len(&self) -> (r: usize)
        requires
            self.wf(),
        ensures
            r == self.requests().len(),
    {
        self.requests.len()
    }

    /// How many tasks are running now.
    pub fn in_flight(&self) -> (r: usize)
        requires
            self.wf(),
        ensures
            r == self.running(),
            r <= self.max_concurrency(),
    {
        self.running
    }

    /// Whether every request has been started and reported.
    pub fn is_finished(&self) -> (r: bool)
        requires
            self.wf(),
        ensures
            r == self.finished(),
    {
        self.started == self.requests.len() && self.running == 0
    }

    /// Starts the next request when one is left and the cap allows it,
    /// returning its index, name and version.
    pub fn next_task(&mut self) -> (r: Option<(usize, String, String)>)
        requires
            old(self).wf(),
        ensures
            final(self).wf(),
            final(self).requests() == old(self).requests(),
            final(self).max_concurrency() == old(self).max_concurrency(),
            final(self).results() == old(self).results(),
            (old(self).started() < old(self).requests().len() && old(self).running() < old(
                self,
            ).max_concurrency()) ==> {
                &&& r matches Some(t) && t.0 == old(self).started() && t.1@ == old(
                    self,
                ).requests()[t.0 as int].0@ && t.2@ == old(self).requests()[t.0 as int].1@
                &&& final(self).started() == old(self).started() + 1
                &&& final(self).running() == old(self).running() + 1
            },
            !(old(self).started() < old(self).requests().len() && old(self).running() < old(
                self,
            ).max_concurrency()) ==> r is None && final(self).started() == old(self).started(),
    {
        if self.started < self.requests.len() && self.running < self.max_concurrency {
            let i = self.started;
            proof {
                let s = self.results@;
                assert(s.take(i as int + 1).drop_last() =~= s.take(i as int));
                assert(s.take(i as int + 1).last() is None);
            }
            self.started = i + 1;
            self.running = self.running + 1;
            let name = self.requests[i].0.clone();
            let version = self.requests[i].1.clone();
            Some((i, name, version))
        } else {
            None
        }
    }

    /// Records how a started, unreported request ended; `false`, with nothing
    /// changed, when `index` is not such a request.
    pub fn complete(&mut self, index: usize, result: InstallResult) -> (r: bool)
        requires
            old(self).wf(),
        ensures
            final(self).wf(),
            final(self).requests() == old(self).requests(),
            final(self).max_concurrency() == old(self).max_concurrency(),
            final(self).started() == old(self).started(),
            r == (index < old(self).started() && old(self).results()[index as int] is None),
            r ==> final(self).results() == old(self).results().update(index as int, Some(result)),
            r ==> final(self).running() + 1 == old(self).running(),
            !r ==> final(self).results() == old(self).results(),
    {
        if index < self.started && self.results[index].is_none() {
            let ghost s = self.results@;
            let ghost n = self.started as int;
            self.results.set(index, Some(result));
            proof {
                lemma_pending_update(s.take(n), index as int, Some(result));
                assert(s.update(index as int, Some(result)).take(n) =~= s.take(n).update(
                    index as int,
                    Some(result),
                ));
            }
            self.running = self.running - 1;
            true
        } else {
            false
        }
    }

    /// Success and failure counts of the reported requests, and their
    /// outcomes in request order.
    pub fn summary(&self) -> (r: InstallSummary)
        requires
            self.wf(),
        ensures
            r.succeeded == count_success(self.results()),
            r.failed == count_failure(self.results()),
            r.outcomes@.map_values(|o: InstallOutcome| outcome_view(o)) == reported_outcomes(
                self.requests(),
                self.results(),
            ),
    {
        let mut outcomes: Vec<InstallOutcome> = Vec::new();
        let mut succeeded: usize = 0;
        let mut failed: usize = 0;
        let mut i: usize = 0;
        let ghost res = self.results@;
        while i < self.results.len()
            invariant
                i <= res.len(),
                res == self.results@,
                res.len() == self.requests@.len(),
                succeeded == count_success(res.take(i as int)),
                failed == count_failure(res.take(i as int)),
                succeeded + failed <= i,
                outcomes@.map_values(|o: InstallOutcome| outcome_view(o)) == reported_outcomes(
                    self.requests@,
                    res.take(i as int),
                ),
            decreases res.len() - i,
        {
            let ghost before = outcomes@;
            proof {
                assert(res.take(i as int + 1).drop_last() =~= res.take(i as int));
                assert(res.take(i as int + 1).last() == res[i as int]);
            }
            match &self.results[i] {
                Some(InstallResult::Success) => {
                    succeeded = succeeded + 1;
                    outcomes.push(
                        InstallOutcome {
                            name: self.requests[i].0.clone(),
                            version: self.requests[i].1.clone(),
                            result: InstallResult::Success,
                        },
                    );
                },
                Some(InstallResult::Failure(why)) => {
                    failed = failed + 1;
                    outcomes.push(
                        InstallOutcome {
                            name: self.requests[i].0.clone(),
                            version: self.requests[i].1.clone(),
                            result: InstallResult::Failure(why.clone()),
                        },
                    );
                },
                None => {},
            }
            proof {
                assert(outcomes@.map_values(|o: InstallOutcome| outcome_view(o)) =~= reported_outcomes(
                    self.requests@,
                    res.take(i as int + 1),
                ));
            }
            i = i + 1;
        }
        assert(res.take(res.len() as int) =~= res);
        InstallSummary { succeeded, failed, outcomes }
    }
}

proof fn lemma_pending_update(s: Seq<Option<InstallResult>>, i: int, x: Option<InstallResult>)
    requires
        0 <= i < s.len(),
        s[i] is None,
        x is Some,
    ensures
        count_pending(s.update(i, x)) + 1 == count_pending(s),
    decreases s.len(),
{
    let t = s.update(i, x);
    if i < s.len() - 1 {
        assert(t.drop_last() =~= s.drop_last().update(i, x));
        lemma_pending_update(s.drop_last(), i, x);
    } else {
        assert(t.drop_last() =~= s.drop_last());
    }
}

proof fn lemma_no_pending(s: Seq<Option<InstallResult>>)
    requires
        count_pending(s) == 0,
    ensures
        forall|i: int| 0 <= i < s.len() ==> s[i] is Some,
    decreases s.len(),
{
    if s.len() > 0 {
        lemma_no_pending(s.drop_last());
        assert forall|i: int| 0 <= i < s.len() implies s[i] is Some by {
            if i < s.len() - 1 {
                assert(s[i] == s.drop_last()[i]);
            }
        }
    }
}

proof fn lemma_all_reported(requests: Seq<(String, String)>, s: Seq<Option<InstallResult>>)
    requires
        requests.len() >= s.len(),
        forall|i: int| 0 <= i < s.len() ==> s[i] is Some,
    ensures
        count_success(s) + count_failure(s) == s.len(),
        reported_outcomes(requests, s).len() == s.len(),
        forall|i: int| 0 <= i < s.len() ==> #[trigger] reported_outcomes(requests, s)[i] == (
            requests[i].0@,
            requests[i].1@,
            s[i]->Some_0,
        ),
    decreases s.len(),
{
    if s.len() > 0 {
        let init = s.drop_last();
        assert forall|i: int| 0 <= i < init.len() implies init[i] is Some by {
            assert(init[i] == s[i]);
        }
        lemma_all_reported(requests, init);
        let p = reported_outcomes(requests, init);
        assert forall|i: int| 0 <= i < s.len() implies #[trigger] reported_outcomes(requests, s)[i] == (
            requests[i].0@,
            requests[i].1@,
            s[i]->Some_0,
        ) by {
            if i < s.len() - 1 {
                assert(reported_outcomes(requests, s)[i] == p[i]);
                assert(init[i] == s[i]);
            }
        }
    }
}

proof fn lemma_counts_partition(s: Seq<Option<InstallResult>>)
    ensures
        count_success(s) + count_failure(s) + count_pending(s) == s.len(),
    decreases s.len(),
{
    if s.len() > 0 {
        lemma_counts_partition(s.drop_last());
    }
}

/// In every state of a batch, each request is exactly one of: succeeded,
/// failed, running, or not yet started; and the outcomes hold one record for
/// each reported request, never two.
pub proof fn lemma_every_request_accounted(s: InstallScheduler)
    requires
        s.wf(),
    ensures
        count_success(s.results()) + count_failure(s.results()) + s.running() + (
        s.requests().len() - s.started()) == s.requests().len(),
        reported_outcomes(s.requests(), s.results()).len() == count_success(s.results())
            + count_failure(s.results()),
{
    let r = s.results();
    let n = s.started() as int;
    lemma_counts_partition(r);
    lemma_counts_partition(r.take(n));
    lemma_counts_split(r, n);
    lemma_reported_len(s.requests(), r);
}

proof fn lemma_counts_split(s: Seq<Option<InstallResult>>, n: int)
    requires
        0 <= n <= s.len(),
        forall|i: int| n <= i < s.len() ==> s[i] is None,
    ensures
        count_success(s) == count_success(s.take(n)),
        count_failure(s) == count_failure(s.take(n)),
        count_pending(s) == count_pending(s.take(n)) + (s.len() - n),
    decreases s.len(),
{
    if s.len() > n {
        assert(s.drop_last().take(n) =~= s.take(n));
        lemma_counts_split(s.drop_last(), n);
    } else {
        assert(s.take(n) =~= s);
    }
}

proof fn lemma_reported_len(requests: Seq<(String, String)>, s: Seq<Option<InstallResult>>)
    requires
        requests.len() >= s.len(),
    ensures
        reported_outcomes(requests, s).len() == count_success(s) + count_failure(s),
    decreases s.len(),
{
    if s.len() > 0 {
        lemma_reported_len(requests, s.drop_last());
    }
}

/// Once a batch has finished, whatever the concurrency cap and the order in
/// which tasks completed: successes and failures add up to the number of
/// requests, and the outcomes hold every requested `(name, version)` exactly
/// once, at its own position.
pub proof fn lemma_finished_batch_accounts_for_every_request(s: InstallScheduler)
    requires
        s.wf(),
        s.finished(),
    ensures
        count_success(s.results()) + count_failure(s.results()) == s.requests().len(),
        reported_outcomes(s.requests(), s.results()).len() == s.requests().len(),
        forall|i: int| 0 <= i < s.requests().len() ==> {
            &&& (#[trigger] reported_outcomes(s.requests(), s.results())[i]).0 == s.requests()[i].0@
            &&& reported_outcomes(s.requests(), s.results())[i].1 == s.requests()[i].1@
        },
{
    assert(s.results().take(s.started() as int) =~= s.results());
    lemma_no_pending(s.results());
    lemma_all_reported(s.requests(), s.results());
}

/// The batch as a whole: `Ok` when nothing failed, otherwise the number of
/// failed installs.
pub fn batch_result(summary: &InstallSummary) -> (r: Result<(), PmError>)
    ensures
        summary.failed == 0 ==> r is Ok,
        summary.failed > 0 ==> r == Err::<(), PmError>(PmError::AggregateInstallFailure(summary.failed)),
{
    if summary.failed > 0 {
        Err(PmError::AggregateInstallFailure(summary.failed))
    } else {
        Ok(())
    }
}

/// The concurrency cap for a machine with `cpus` parallel units: twice that,
/// but at most 8.
pub fn concurrency_for(cpus: usize) -> (r: usize)
    ensures
        r == if 2 * cpus < 8 { 2 * cpus } else { 8 },
{
    if cpus >= 4 {
        8
    } else {
        cpus * 2
    }
}

/// Relies on `num_cpus::get`: the number of parallel units this process may
/// use, documented to be at least 1.
#[verifier::external_body]
fn available_cpus() -> (r: usize)
    ensures
        r >= 1,
{
    num_cpus::get()
}

/// The default concurrency cap on this machine: an even number from 2 to 8.
pub fn default_concurrency() -> (r: usize)
    ensures
        2 <= r <= 8,
        r % 2 == 0,
{
    concurrency_for(available_cpus())
}

} // verus!
