//! Ranking of the surviving endpoints.
//!
//! Scores are ordered by ascending average latency.  Latency ties are broken
//! by address and then by port, so that ranking the same scores always yields
//! the same list; the order is total, and the ranked list is therefore the
//! unique sorted permutation of its input.

use crate::EndpointScore;
use vstd::prelude::*;
use vstd::relations::{sorted_by, total_ordering};
use vstd::seq_lib::{lemma_sorted_unique, to_multiset_insert};

verus! {

/// The ranking order: ascending average latency, ties broken by address,
/// then by port.
pub open spec fn score_le(a: EndpointScore, b: EndpointScore) -> bool {
    ||| a.average_latency < b.average_latency
    ||| (a.average_latency == b.average_latency && a.endpoint.ip < b.endpoint.ip)
    ||| (a.average_latency == b.average_latency && a.endpoint.ip == b.endpoint.ip
        && a.endpoint.port <= b.endpoint.port)
}

/// [`score_le`] as a relation value, for vstd's ordering vocabulary.
pub open spec fn score_le_fn() -> spec_fn(EndpointScore, EndpointScore) -> bool {
    |a: EndpointScore, b: EndpointScore| score_le(a, b)
}

/// The ranking order is total: ranking has exactly one answer.
pub proof fn lemma_score_le_total()
    ensures
        total_ordering(score_le_fn()),
{
    let leq = score_le_fn();
    assert forall|a: EndpointScore, b: EndpointScore| #[trigger] leq(a, b) || #[trigger] leq(
        b,
        a,
    ) by {
        assert(score_le(a, b) || score_le(b, a));
    }
    assert forall|a: EndpointScore, b: EndpointScore| #[trigger] leq(a, b) && #[trigger] leq(b, a)
        implies a == b by {
        assert(a.endpoint.ip == b.endpoint.ip && a.endpoint.port == b.endpoint.port
            && a.average_latency == b.average_latency);
    }
}

/// Decide [`score_le`] on two scores.
fn score_le_exec(a: &EndpointScore, b: &EndpointScore) -> (r: bool)
    ensures
        r == score_le(*a, *b),
{
    if a.average_latency != b.average_latency {
        a.average_latency < b.average_latency
    } else if a.endpoint.ip != b.endpoint.ip {
        a.endpoint.ip < b.endpoint.ip
    } else {
        a.endpoint.port <= b.endpoint.port
    }
}

/// Sort the scores ascending by average latency (ties by address, then
/// port): the result is the one sorting of the input under the ranking
/// order, so adjacent average latencies never decrease.
pub fn rank(scores: &Vec<EndpointScore>) -> (r: Vec<EndpointScore>)
    ensures
        r@ == scores@.sort_by(score_le_fn()),
        sorted_by(r@, score_le_fn()),
        r@.to_multiset() == scores@.to_multiset(),
        r@.len() == scores@.len(),
        forall|i: int|
            0 <= i && i + 1 < r@.len() ==> (#[trigger] r@[i]).average_latency <= r@[i
                + 1].average_latency,
{
    broadcast use vstd::seq_lib::group_to_multiset_ensures;
    broadcast use vstd::multiset::group_multiset_axioms;

    let n = scores.len();
    let mut out: Vec<EndpointScore> = Vec::new();
    let mut i: usize = 0;
    while i < n
        invariant
            0 <= i <= n,
            n == scores@.len(),
            out@.len() == i,
            sorted_by(out@, score_le_fn()),
            out@.to_multiset() == scores@.take(i as int).to_multiset(),
        decreases n - i,
    {
        let x = scores[i];
        let mut p: usize = 0;
        while p < out.len() && score_le_exec(&out[p], &x)
            invariant
                0 <= p <= out@.len(),
                forall|q: int| 0 <= q < p ==> score_le(#[trigger] out@[q], x),
            decreases out@.len() - p,
        {
            p = p + 1;
        }
        let ghost prev = out@;
        proof {
            if (p as int) < prev.len() {
                assert(!score_le(prev[p as int], x));
            }
        }
        out.insert(p, x);
        proof {
            // The new element sits between everything at most `x` and
            // everything greater.
            assert forall|a: int, b: int| 0 <= a < b < out@.len() implies score_le(
                #[trigger] out@[a],
                #[trigger] out@[b],
            ) by {
                if a < p as int && b == p as int {
                    assert(out@[a] == prev[a]);
                    assert(score_le(prev[a], x));
                } else if a == p as int && b > p as int {
                    assert(out@[b] == prev[b - 1]);
                    assert(score_le(x, prev[p as int]));
                    if (p as int) < b - 1 {
                        assert(score_le_fn()(prev[p as int], prev[b - 1]));
                    }
                    assert(score_le(prev[p as int], prev[b - 1]));
                } else if a != p as int && b != p as int {
                    let pa: int = if a < p as int { a } else { a - 1 };
                    let pb: int = if b < p as int { b } else { b - 1 };
                    assert(out@[a] == prev[pa] && out@[b] == prev[pb]);
                    assert(score_le_fn()(prev[pa], prev[pb]));
                    assert(score_le(prev[pa], prev[pb]));
                }
            }
            // Inserting `x` anywhere adds exactly `x` to the contents.
            assert(out@ == prev.insert(p as int, x));
            to_multiset_insert(prev, p as int, x);
            assert(scores@.take(i as int + 1) =~= scores@.take(i as int).push(x));
            vstd::seq_lib::to_multiset_build(scores@.take(i as int), x);
        }
        i = i + 1;
    }
    proof {
        assert(scores@.take(n as int) =~= scores@);
        let leq = score_le_fn();
        lemma_score_le_total();
        scores@.lemma_sort_by_ensures(leq);
        lemma_sorted_unique(out@, scores@.sort_by(leq), leq);
        assert(out@ =~= scores@.sort_by(leq));
        assert forall|i: int| 0 <= i && i + 1 < out@.len() implies (
        #[trigger] out@[i]).average_latency <= out@[i + 1].average_latency by {
            assert(score_le_fn()(out@[i], out@[i + 1]));
            assert(score_le(out@[i], out@[i + 1]));
        }
    }
    out
}

/// The `k` best-ranked scores: exactly the first `min(k, len)` elements of
/// [`rank`] of the same input, in the same order.
pub fn top(scores: &Vec<EndpointScore>, k: usize) -> (r: Vec<EndpointScore>)
    ensures
        r@ == scores@.sort_by(score_le_fn()).take(
            if k as int <= scores@.len() {
                k as int
            } else {
                scores@.len() as int
            },
        ),
        r@.len() <= k,
        sorted_by(r@, score_le_fn()),
{
    let mut ranked = rank(scores);
    let ghost full = ranked@;
    ranked.truncate(k);
    proof {
        if k as int <= full.len() {
            assert(ranked@ =~= full.take(k as int));
        } else {
            assert(ranked@ =~= full.take(full.len() as int));
        }
        assert forall|a: int, b: int| 0 <= a < b < ranked@.len() implies score_le(
            #[trigger] ranked@[a],
            #[trigger] ranked@[b],
        ) by {
            assert(ranked@[a] == full[a] && ranked@[b] == full[b]);
            assert(score_le_fn()(full[a], full[b]));
        }
    }
    ranked
}

} // verus!
