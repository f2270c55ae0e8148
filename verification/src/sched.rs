//! Fan-out of probe attempts over the candidate set.
//!
//! Two pieces cooperate.  [`EndpointRun`] aggregates the strictly sequential
//! attempts against one endpoint into its score.  [`Scheduler`] is the
//! cross-endpoint limiter: it hands out endpoints to probe while never letting
//! more than `max_concurrency` of them be in flight at once, and collects the
//! finished scores.  The I/O layer drives both; every decision they make is
//! verified here.

use crate::probe::{outcome_wf, ProbeOutcome};
use crate::{Endpoint, EndpointScore};
use vstd::arithmetic::div_mod::{lemma_div_is_ordered, lemma_div_multiples_vanish};
use vstd::prelude::*;

verus! {

/// The latencies of the successful attempts among `outs`, in order.
pub open spec fn success_latencies(outs: Seq<ProbeOutcome>) -> Seq<u64>
    decreases outs.len(),
{
    if outs.len() == 0 {
        Seq::empty()
    } else {
        let rest = success_latencies(outs.drop_last());
        match outs.last() {
            ProbeOutcome::Success { latency_ms } => rest.push(latency_ms),
            _ => rest,
        }
    }
}

/// The sum of a sequence of latencies.
pub open spec fn sum_of(s: Seq<u64>) -> int
    decreases s.len(),
{
    if s.len() == 0 {
        0
    } else {
        sum_of(s.drop_last()) + s.last()
    }
}

/// The score an endpoint earns from the outcomes of its attempts: the
/// integer-truncated mean of the successful latencies, or nothing when no
/// attempt succeeded.
pub open spec fn score_of(ep: Endpoint, outs: Seq<ProbeOutcome>) -> Option<EndpointScore> {
    let lats = success_latencies(outs);
    if lats.len() == 0 {
        None
    } else {
        Some(
            EndpointScore {
                endpoint: ep,
                average_latency: (sum_of(lats) / lats.len() as int) as u64,
            },
        )
    }
}

/// Successful attempts are no more numerous than attempts, and under a
/// well-formed history every successful latency respects the timeout.
pub proof fn lemma_success_latencies_bounds(outs: Seq<ProbeOutcome>, timeout_ms: u64)
    requires
        forall|i: int| 0 <= i < outs.len() ==> outcome_wf(#[trigger] outs[i], timeout_ms),
    ensures
        success_latencies(outs).len() <= outs.len(),
        forall|i: int|
            0 <= i < success_latencies(outs).len() ==> #[trigger] success_latencies(outs)[i]
                <= timeout_ms,
    decreases outs.len(),
{
    if outs.len() > 0 {
        assert forall|i: int| 0 <= i < outs.drop_last().len() implies outcome_wf(
            #[trigger] outs.drop_last()[i],
            timeout_ms,
        ) by {
            assert(outs.drop_last()[i] == outs[i]);
        }
        lemma_success_latencies_bounds(outs.drop_last(), timeout_ms);
        assert(outcome_wf(outs.last(), timeout_ms));
    }
}

/// A sequence of latencies each at most `bound` sums to at most
/// `len * bound`.
pub proof fn lemma_sum_bounded(s: Seq<u64>, bound: u64)
    requires
        forall|i: int| 0 <= i < s.len() ==> #[trigger] s[i] <= bound,
    ensures
        0 <= sum_of(s) <= s.len() * bound,
    decreases s.len(),
{
    if s.len() > 0 {
        assert forall|i: int| 0 <= i < s.drop_last().len() implies #[trigger] s.drop_last()[i]
            <= bound by {
            assert(s.drop_last()[i] == s[i]);
        }
        lemma_sum_bounded(s.drop_last(), bound);
        assert(s.last() <= bound);
        assert((s.len() - 1) * bound + bound == s.len() * bound) by (nonlinear_arith);
    }
}

/// The attempts against one endpoint, aggregated as they resolve.
///
/// Attempts against one endpoint are strictly sequential, so one value of
/// this type sees them in order: `record` once per attempt, then `finish`
/// once every attempt has resolved.
pub struct EndpointRun {
    endpoint: Endpoint,
    attempts_total: u64,
    timeout_ms: u64,
    attempts_done: u64,
    success_count: u64,
    latency_sum: u64,
    outcomes: Ghost<Seq<ProbeOutcome>>,
}

impl EndpointRun {
    /// The endpoint under test.
    pub closed spec fn endpoint(self) -> Endpoint {
        self.endpoint
    }

    /// How many attempts the run was configured with.
    pub closed spec fn attempts_total(self) -> u64 {
        self.attempts_total
    }

    /// The timeout window each attempt was bounded by.
    pub closed spec fn timeout_ms(self) -> u64 {
        self.timeout_ms
    }

    /// The outcomes recorded so far, in attempt order.
    pub closed spec fn outcomes(self) -> Seq<ProbeOutcome> {
        self.outcomes@
    }

    pub closed spec fn wf(self) -> bool {
        &&& self.attempts_done == self.outcomes@.len()
        &&& self.attempts_done <= self.attempts_total
        &&& self.attempts_total as int * self.timeout_ms as int <= u64::MAX as int
        &&& forall|i: int|
            0 <= i < self.outcomes@.len() ==> outcome_wf(
                #[trigger] self.outcomes@[i],
                self.timeout_ms,
            )
        &&& self.success_count == success_latencies(self.outcomes@).len()
        &&& self.latency_sum as int == sum_of(success_latencies(self.outcomes@))
    }

    /// Begin a run of `attempts_total` attempts against `endpoint`, each
    /// bounded by `timeout_ms`.  The product bound rules out overflow of the
    /// running latency sum.
    pub fn new(endpoint: Endpoint, attempts_total: u64, timeout_ms: u64) -> (r: EndpointRun)
        requires
            attempts_total as int * timeout_ms as int <= u64::MAX as int,
        ensures
            r.wf(),
            r.endpoint() == endpoint,
            r.attempts_total() == attempts_total,
            r.timeout_ms() == timeout_ms,
            r.outcomes() == Seq::<ProbeOutcome>::empty(),
    {
        EndpointRun {
            endpoint,
            attempts_total,
            timeout_ms,
            attempts_done: 0,
            success_count: 0,
            latency_sum: 0,
            outcomes: Ghost(Seq::empty()),
        }
    }

    /// Whether every configured attempt has resolved.
    pub fn done(&self) -> (r: bool)
        requires
            self.wf(),
        ensures
            r <==> self.outcomes().len() == self.attempts_total(),
    {
        self.attempts_done == self.attempts_total
    }

    /// Record the outcome of the next attempt.
    pub fn record(&mut self, outcome: ProbeOutcome)
        requires
            old(self).wf(),
            old(self).outcomes().len() < old(self).attempts_total(),
            outcome_wf(outcome, old(self).timeout_ms()),
        ensures
            final(self).wf(),
            final(self).outcomes() == old(self).outcomes().push(outcome),
            final(self).endpoint() == old(self).endpoint(),
            final(self).attempts_total() == old(self).attempts_total(),
            final(self).timeout_ms() == old(self).timeout_ms(),
    {
        proof {
            lemma_success_latencies_bounds(self.outcomes@, self.timeout_ms);
            lemma_sum_bounded(success_latencies(self.outcomes@), self.timeout_ms);
            assert(success_latencies(self.outcomes@).len() * self.timeout_ms as int
                <= (self.attempts_total - 1) * self.timeout_ms as int) by (nonlinear_arith)
                requires
                    success_latencies(self.outcomes@).len() <= self.attempts_total - 1,
                    self.timeout_ms >= 0,
            ;
            assert((self.attempts_total - 1) * self.timeout_ms as int + self.timeout_ms
                == self.attempts_total as int * self.timeout_ms as int) by (nonlinear_arith);
        }
        self.attempts_done = self.attempts_done + 1;
        match outcome {
            ProbeOutcome::Success { latency_ms } => {
                self.success_count = self.success_count + 1;
                self.latency_sum = self.latency_sum + latency_ms;
            },
            _ => {},
        }
        proof {
            let prev = self.outcomes@;
            self.outcomes@ = prev.push(outcome);
            assert(self.outcomes@.drop_last() =~= prev);
            assert(self.outcomes@.last() == outcome);
            assert forall|i: int| 0 <= i < self.outcomes@.len() implies outcome_wf(
                #[trigger] self.outcomes@[i],
                self.timeout_ms,
            ) by {
                if i < prev.len() {
                    assert(self.outcomes@[i] == prev[i]);
                }
            }
            let lats_prev = success_latencies(prev);
            match outcome {
                ProbeOutcome::Success { latency_ms } => {
                    assert(success_latencies(self.outcomes@) == lats_prev.push(latency_ms));
                    assert(lats_prev.push(latency_ms).drop_last() =~= lats_prev);
                    assert(lats_prev.push(latency_ms).last() == latency_ms);
                    assert(sum_of(lats_prev.push(latency_ms)) == sum_of(lats_prev) + latency_ms);
                },
                _ => {
                    assert(success_latencies(self.outcomes@) == lats_prev);
                },
            }
        }
    }

    /// Close the run: the endpoint's score, or `None` when no attempt
    /// succeeded.
    ///
    /// The score exists exactly when at least one attempt succeeded, its
    /// average is the truncated mean of the successful latencies, and that
    /// average never exceeds the timeout window.
    pub fn finish(&self) -> (r: Option<EndpointScore>)
        requires
            self.wf(),
            self.outcomes().len() == self.attempts_total(),
        ensures
            r == score_of(self.endpoint(), self.outcomes()),
            r is Some <==> success_latencies(self.outcomes()).len() > 0,
            (r matches Some(sc) ==> sc.endpoint == self.endpoint() && sc.average_latency as int
                == sum_of(success_latencies(self.outcomes())) / success_latencies(
                self.outcomes(),
            ).len() as int && sc.average_latency <= self.timeout_ms()),
    {
        if self.success_count == 0 {
            None
        } else {
            proof {
                let lats = success_latencies(self.outcomes@);
                lemma_success_latencies_bounds(self.outcomes@, self.timeout_ms);
                lemma_sum_bounded(lats, self.timeout_ms);
                lemma_div_is_ordered(
                    sum_of(lats),
                    lats.len() * self.timeout_ms as int,
                    lats.len() as int,
                );
                lemma_div_multiples_vanish(self.timeout_ms as int, lats.len() as int);
                assert(lats.len() * self.timeout_ms as int
                    == lats.len() as int * self.timeout_ms as int);
                assert(sum_of(lats) / lats.len() as int <= self.timeout_ms);
            }
            Some(
                EndpointScore {
                    endpoint: self.endpoint,
                    average_latency: self.latency_sum / self.success_count,
                },
            )
        }
    }
}

/// The bounded-concurrency limiter over the candidate set.
///
/// Endpoints wait in `pending`; at most `max_concurrency` are out being
/// probed at any moment; finished endpoints hand back an optional score,
/// which is collected in completion order.  No ordering is promised across
/// endpoints.
pub struct Scheduler {
    pending: Vec<Endpoint>,
    in_flight: usize,
    max_concurrency: usize,
    completed: usize,
    total: usize,
    scores: Vec<EndpointScore>,
}

impl Scheduler {
    /// Endpoints not yet handed out, in the order they will be handed out
    /// from the back.
    pub closed spec fn pending(self) -> Seq<Endpoint> {
        self.pending@
    }

    /// How many endpoints are out being probed.
    pub closed spec fn in_flight(self) -> int {
        self.in_flight as int
    }

    /// The concurrency bound the limiter was built with.
    pub closed spec fn max_concurrency(self) -> int {
        self.max_concurrency as int
    }

    /// How many endpoints have finished, with or without a score.
    pub closed spec fn completed(self) -> int {
        self.completed as int
    }

    /// The size of the candidate set.
    pub closed spec fn total(self) -> int {
        self.total as int
    }

    /// The scores of finished endpoints, in completion order.
    pub closed spec fn scores(self) -> Seq<EndpointScore> {
        self.scores@
    }

    pub closed spec fn wf(self) -> bool {
        &&& self.in_flight <= self.max_concurrency
        &&& 1 <= self.max_concurrency
        &&& self.completed + self.in_flight + self.pending@.len() == self.total
        &&& self.scores@.len() <= self.completed
    }

    /// The limiter never has more endpoints in flight than its bound.
    pub proof fn lemma_concurrency_bounded(self)
        requires
            self.wf(),
        ensures
            0 <= self.in_flight() <= self.max_concurrency(),
    {
    }

    /// Whether the limiter may hand out one more endpoint now.
    pub open spec fn can_start(self) -> bool {
        self.in_flight() < self.max_concurrency() && self.pending().len() > 0
    }

    /// Build the limiter over `endpoints` with the given concurrency bound.
    pub fn new(endpoints: Vec<Endpoint>, max_concurrency: usize) -> (r: Scheduler)
        requires
            max_concurrency >= 1,
        ensures
            r.wf(),
            r.pending() == endpoints@,
            r.in_flight() == 0,
            r.max_concurrency() == max_concurrency,
            r.completed() == 0,
            r.total() == endpoints@.len(),
            r.scores() == Seq::<EndpointScore>::empty(),
    {
        let total = endpoints.len();
        Scheduler {
            pending: endpoints,
            in_flight: 0,
            max_concurrency,
            completed: 0,
            total,
            scores: Vec::new(),
        }
    }

    /// Hand out the next endpoint to probe, when a concurrency slot is free
    /// and candidates remain; otherwise change nothing.
    pub fn start_next(&mut self) -> (r: Option<Endpoint>)
        requires
            old(self).wf(),
        ensures
            final(self).wf(),
            final(self).max_concurrency() == old(self).max_concurrency(),
            final(self).total() == old(self).total(),
            final(self).completed() == old(self).completed(),
            final(self).scores() == old(self).scores(),
            final(self).in_flight() <= final(self).max_concurrency(),
            (if old(self).can_start() {
                r == Some(old(self).pending().last()) && final(self).pending() == old(
                    self,
                ).pending().drop_last() && final(self).in_flight() == old(self).in_flight() + 1
            } else {
                r is None && final(self).pending() == old(self).pending() && final(self).in_flight()
                    == old(self).in_flight()
            }),
    {
        if self.in_flight < self.max_concurrency {
            match self.pending.pop() {
                Some(ep) => {
                    self.in_flight = self.in_flight + 1;
                    Some(ep)
                },
                None => None,
            }
        } else {
            None
        }
    }

    /// Take back one in-flight endpoint together with the score its run
    /// produced, if any.  The scores list grows exactly by the returned
    /// score; an endpoint with no successful attempt leaves no trace there.
    pub fn complete(&mut self, result: Option<EndpointScore>)
        requires
            old(self).wf(),
            old(self).in_flight() > 0,
        ensures
            final(self).wf(),
            final(self).max_concurrency() == old(self).max_concurrency(),
            final(self).total() == old(self).total(),
            final(self).pending() == old(self).pending(),
            final(self).in_flight() == old(self).in_flight() - 1,
            final(self).completed() == old(self).completed() + 1,
            final(self).scores() == (match result {
                Some(sc) => old(self).scores().push(sc),
                None => old(self).scores(),
            }),
    {
        self.in_flight = self.in_flight - 1;
        self.completed = self.completed + 1;
        match result {
            Some(sc) => self.scores.push(sc),
            None => {},
        }
    }

    /// Cancel the rest of the run: stop issuing new attempts by dropping
    /// every waiting candidate.  Endpoints already in flight still complete
    /// normally; the dropped candidates count as finished without a score.
    pub fn cancel(&mut self)
        requires
            old(self).wf(),
        ensures
            final(self).wf(),
            final(self).max_concurrency() == old(self).max_concurrency(),
            final(self).total() == old(self).total(),
            final(self).in_flight() == old(self).in_flight(),
            final(self).scores() == old(self).scores(),
            final(self).pending() == Seq::<Endpoint>::empty(),
            final(self).completed() == old(self).completed() + old(self).pending().len(),
    {
        self.completed = self.completed + self.pending.len();
        self.pending.clear();
    }

    /// Whether every candidate has finished.
    pub fn finished(&self) -> (r: bool)
        requires
            self.wf(),
        ensures
            r <==> self.completed() == self.total(),
    {
        self.completed == self.total
    }

    /// Give up the limiter and keep the collected scores.
    pub fn into_scores(self) -> (r: Vec<EndpointScore>)
        ensures
            r@ == self.scores(),
    {
        self.scores
    }
}

/// The views of the rows of an outcome table.
pub open spec fn rows_view(table: Seq<Vec<ProbeOutcome>>) -> Seq<Seq<ProbeOutcome>> {
    table.map_values(|row: Vec<ProbeOutcome>| row@)
}

/// The scores a whole run yields, endpoint by endpoint in input order:
/// each endpoint with at least one successful attempt contributes its score,
/// the others contribute nothing.
pub open spec fn scores_of_table(eps: Seq<Endpoint>, table: Seq<Seq<ProbeOutcome>>) -> Seq<
    EndpointScore,
>
    decreases eps.len(),
{
    if eps.len() == 0 {
        Seq::empty()
    } else {
        let rest = scores_of_table(eps.drop_last(), table.drop_last());
        match score_of(eps.last(), table.last()) {
            Some(sc) => rest.push(sc),
            None => rest,
        }
    }
}

/// Aggregate one whole run whose attempt outcomes are already in hand:
/// row `i` of `table` holds the outcomes of the `attempts` sequential
/// attempts against `endpoints[i]`.
///
/// Concurrency only changes the order in which outcomes arrive, never the
/// outcome of aggregation, so this function is the reference semantics of a
/// run: the result is exactly [`scores_of_table`] over the input.
pub fn run_with_outcomes(
    endpoints: &Vec<Endpoint>,
    table: &Vec<Vec<ProbeOutcome>>,
    attempts: u64,
    timeout_ms: u64,
) -> (r: Vec<EndpointScore>)
    requires
        table@.len() == endpoints@.len(),
        forall|i: int| 0 <= i < table@.len() ==> (#[trigger] table@[i])@.len() == attempts,
        forall|i: int, j: int|
            0 <= i < table@.len() && 0 <= j < table@[i]@.len() ==> outcome_wf(
                #[trigger] table@[i]@[j],
                timeout_ms,
            ),
        attempts as int * timeout_ms as int <= u64::MAX as int,
    ensures
        r@ == scores_of_table(endpoints@, rows_view(table@)),
{
    let n = endpoints.len();
    let mut out: Vec<EndpointScore> = Vec::new();
    let mut i: usize = 0;
    while i < n
        invariant
            0 <= i <= n,
            n == endpoints@.len(),
            table@.len() == endpoints@.len(),
            forall|k: int| 0 <= k < table@.len() ==> (#[trigger] table@[k])@.len() == attempts,
            forall|k: int, j: int|
                0 <= k < table@.len() && 0 <= j < table@[k]@.len() ==> outcome_wf(
                    #[trigger] table@[k]@[j],
                    timeout_ms,
                ),
            attempts as int * timeout_ms as int <= u64::MAX as int,
            out@ == scores_of_table(
                endpoints@.take(i as int),
                rows_view(table@).take(i as int),
            ),
        decreases n - i,
    {
        let ep = endpoints[i];
        let row = &table[i];
        let mut run = EndpointRun::new(ep, attempts, timeout_ms);
        let m = row.len();
        let mut j: usize = 0;
        while j < m
            invariant
                0 <= j <= m,
                i < n,
                n == endpoints@.len(),
                table@.len() == endpoints@.len(),
                m == row@.len(),
                row@ == table@[i as int]@,
                row@.len() == attempts,
                forall|jj: int| 0 <= jj < row@.len() ==> outcome_wf(
                    #[trigger] row@[jj],
                    timeout_ms,
                ),
                run.wf(),
                run.endpoint() == ep,
                run.attempts_total() == attempts,
                run.timeout_ms() == timeout_ms,
                run.outcomes() == row@.take(j as int),
            decreases m - j,
        {
            run.record(row[j]);
            proof {
                assert(row@.take(j as int + 1) =~= row@.take(j as int).push(row@[j as int]));
            }
            j = j + 1;
        }
        proof {
            assert(row@.take(m as int) =~= row@);
        }
        let result = run.finish();
        match result {
            Some(sc) => out.push(sc),
            None => {},
        }
        proof {
            let eps_v = endpoints@;
            let tbl_v = rows_view(table@);
            assert(eps_v.take(i as int + 1).drop_last() =~= eps_v.take(i as int));
            assert(tbl_v.take(i as int + 1).drop_last() =~= tbl_v.take(i as int));
            assert(eps_v.take(i as int + 1).last() == eps_v[i as int]);
            assert(tbl_v.take(i as int + 1).last() == row@);
        }
        i = i + 1;
    }
    proof {
        assert(endpoints@.take(n as int) =~= endpoints@);
        assert(rows_view(table@).take(n as int) =~= rows_view(table@));
    }
    out
}

/// Summary counts for reporting: the number of candidates that earned a
/// score, out of all candidates probed.
#[derive(Clone, Copy, PartialEq, Eq, Structural, Debug)]
pub struct RunSummary {
    pub working: usize,
    pub total: usize,
}

/// The counts the reporting layer shows on completion.
pub fn summarize(total: usize, scores: &Vec<EndpointScore>) -> (r: RunSummary)
    requires
        scores@.len() <= total,
    ensures
        r.working == scores@.len(),
        r.total == total,
{
    RunSummary { working: scores.len(), total }
}

} // verus!
