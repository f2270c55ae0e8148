//! Whole-pipeline runs over scripted transport events, the way the I/O layer
//! drives the library: classify each event, aggregate per endpoint under the
//! concurrency limiter, then summarize and rank.

use probe_rank::probe::{classify_attempt, ProbeEvent, ProbeOutcome};
use probe_rank::rank::{rank, top};
use probe_rank::sched::{run_with_outcomes, summarize, EndpointRun, Scheduler};
use probe_rank::Endpoint;

fn ep(ip: u32) -> Endpoint {
    Endpoint { ip, port: 2408 }
}

/// Drive the limiter to completion with at most `max_concurrency` endpoints out
/// at once, answering every attempt of endpoint `e` with `events(e)`.
fn drive(
    endpoints: Vec<Endpoint>,
    attempts: u64,
    max_concurrency: usize,
    events: impl Fn(&Endpoint) -> ProbeEvent,
) -> (Vec<probe_rank::EndpointScore>, usize) {
    let timeout_ms = 1000;
    let mut sched = Scheduler::new(endpoints, max_concurrency);
    let mut in_flight: Vec<(Endpoint, EndpointRun)> = Vec::new();
    let mut ticks: usize = 0;
    loop {
        while let Some(e) = sched.start_next() {
            in_flight.push((e, EndpointRun::new(e, attempts, timeout_ms)));
            assert!(in_flight.len() <= max_concurrency);
        }
        let Some((e, mut run)) = in_flight.pop() else {
            break;
        };
        while !run.done() {
            ticks += 1;
            let outcome = classify_attempt(events(&e), timeout_ms);
            run.record(outcome);
        }
        sched.complete(run.finish());
    }
    assert!(sched.finished());
    (sched.into_scores(), ticks)
}

#[test]
fn eight_of_ten_responding_yield_eight_scores() {
    // candidateCount = 10, attempts = 3, maxConcurrency = 5; endpoints with
    // ip < 8 always respond, the other two always time out.
    let endpoints: Vec<Endpoint> = (0..10).map(ep).collect();
    let attempts = 3u64;
    let table: Vec<Vec<ProbeOutcome>> = (0..10)
        .map(|ip| {
            (0..attempts)
                .map(|_| {
                    if ip < 8 {
                        classify_attempt(ProbeEvent::Received { elapsed_ms: 10 + ip as u64 }, 1000)
                    } else {
                        classify_attempt(ProbeEvent::TimedOut, 1000)
                    }
                })
                .collect()
        })
        .collect();
    let scores = run_with_outcomes(&endpoints, &table, attempts, 1000);
    assert_eq!(scores.len(), 8);
    let summary = summarize(10, &scores);
    assert_eq!(summary.working, 8);
    assert_eq!(summary.total, 10);
    // Every responding endpoint scores its own constant latency.
    for sc in &scores {
        assert_eq!(sc.average_latency, 10 + sc.endpoint.ip as u64);
    }
    // The top-5 view is the five fastest of the ranking.
    let ranked = rank(&scores);
    let best = top(&scores, 5);
    assert_eq!(best.len(), 5);
    assert_eq!(&ranked[..5], &best[..]);
    assert_eq!(best[0].average_latency, 10);
    assert_eq!(best[4].average_latency, 14);
}

#[test]
fn a_single_timing_out_candidate_yields_an_empty_result() {
    // candidateCount = 1, attempts = 1, and the one endpoint never answers.
    let endpoints = vec![ep(77)];
    let table = vec![vec![classify_attempt(ProbeEvent::TimedOut, 1000)]];
    let scores = run_with_outcomes(&endpoints, &table, 1, 1000);
    assert_eq!(scores.len(), 0);
    let summary = summarize(1, &scores);
    assert_eq!(summary.working, 0);
    assert_eq!(summary.total, 1);
    assert_eq!(top(&scores, 5).len(), 0);
}

#[test]
fn limited_run_counts_one_tick_per_attempt() {
    let endpoints: Vec<Endpoint> = (0..10).map(ep).collect();
    let (scores, ticks) = drive(endpoints, 3, 5, |_| ProbeEvent::Received { elapsed_ms: 4 });
    assert_eq!(ticks, 30);
    assert_eq!(scores.len(), 10);
    for sc in &scores {
        assert_eq!(sc.average_latency, 4);
    }
}

#[test]
fn limited_run_drops_silent_endpoints() {
    let endpoints: Vec<Endpoint> = (0..4).map(ep).collect();
    let (scores, ticks) = drive(endpoints, 2, 2, |_| ProbeEvent::TimedOut);
    assert_eq!(ticks, 8);
    assert_eq!(scores.len(), 0);
}
