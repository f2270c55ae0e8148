use probe_rank::probe::ProbeOutcome;
use probe_rank::sched::{run_with_outcomes, summarize, EndpointRun, Scheduler};
use probe_rank::Endpoint;

fn ep(ip: u32) -> Endpoint {
    Endpoint { ip, port: 500 }
}

#[test]
fn average_is_the_mean_of_the_measured_latencies() {
    // An endpoint that always responds: three attempts, three latencies.
    let mut run = EndpointRun::new(ep(1), 3, 1000);
    run.record(ProbeOutcome::Success { latency_ms: 10 });
    run.record(ProbeOutcome::Success { latency_ms: 20 });
    run.record(ProbeOutcome::Success { latency_ms: 33 });
    assert!(run.done());
    let score = run.finish().expect("three successes yield a score");
    assert_eq!(score.endpoint, ep(1));
    assert_eq!(score.average_latency, (10 + 20 + 33) / 3);
}

#[test]
fn no_success_yields_no_score() {
    // An endpoint that never responds leaves no trace in the results.
    let mut run = EndpointRun::new(ep(2), 3, 1000);
    run.record(ProbeOutcome::Timeout);
    run.record(ProbeOutcome::TransportError);
    run.record(ProbeOutcome::Timeout);
    assert!(run.done());
    assert_eq!(run.finish(), None);
}

#[test]
fn failed_attempts_do_not_enter_the_average() {
    let mut run = EndpointRun::new(ep(3), 4, 1000);
    run.record(ProbeOutcome::Success { latency_ms: 10 });
    run.record(ProbeOutcome::Timeout);
    run.record(ProbeOutcome::Success { latency_ms: 30 });
    run.record(ProbeOutcome::TransportError);
    let score = run.finish().expect("two successes yield a score");
    assert_eq!(score.average_latency, 20);
}

#[test]
fn average_truncates_toward_zero() {
    let mut run = EndpointRun::new(ep(4), 2, 1000);
    run.record(ProbeOutcome::Success { latency_ms: 5 });
    run.record(ProbeOutcome::Success { latency_ms: 10 });
    assert_eq!(run.finish().unwrap().average_latency, 7);
}

#[test]
fn limiter_never_exceeds_its_concurrency_bound() {
    let endpoints: Vec<Endpoint> = (0..5).map(ep).collect();
    let mut sched = Scheduler::new(endpoints, 2);
    let first = sched.start_next();
    let second = sched.start_next();
    assert!(first.is_some() && second.is_some());
    // Both slots are taken: nothing more may start.
    assert_eq!(sched.start_next(), None);
    // Finishing one endpoint frees one slot, and only one.
    sched.complete(None);
    assert!(sched.start_next().is_some());
    assert_eq!(sched.start_next(), None);
}

#[test]
fn limiter_hands_out_each_candidate_once_and_collects_every_score() {
    let endpoints: Vec<Endpoint> = (0..4).map(ep).collect();
    let mut sched = Scheduler::new(endpoints.clone(), 10);
    let mut seen: Vec<Endpoint> = Vec::new();
    while let Some(e) = sched.start_next() {
        seen.push(e);
    }
    assert_eq!(seen.len(), 4);
    let mut seen_ips: Vec<u32> = seen.iter().map(|e| e.ip).collect();
    seen_ips.sort();
    let mut want_ips: Vec<u32> = endpoints.iter().map(|e| e.ip).collect();
    want_ips.sort();
    assert_eq!(seen_ips, want_ips);

    assert!(!sched.finished());
    for (i, e) in seen.iter().enumerate() {
        let mut run = EndpointRun::new(*e, 1, 1000);
        run.record(if i % 2 == 0 {
            ProbeOutcome::Success { latency_ms: 10 * i as u64 }
        } else {
            ProbeOutcome::Timeout
        });
        sched.complete(run.finish());
    }
    assert!(sched.finished());
    let scores = sched.into_scores();
    assert_eq!(scores.len(), 2);
    assert_eq!(scores[0].endpoint, seen[0]);
    assert_eq!(scores[1].endpoint, seen[2]);
}

#[test]
fn scripted_run_keeps_scoring_endpoints_in_order() {
    let endpoints = vec![ep(1), ep(2), ep(3)];
    let table = vec![
        vec![
            ProbeOutcome::Success { latency_ms: 40 },
            ProbeOutcome::Success { latency_ms: 20 },
        ],
        vec![ProbeOutcome::Timeout, ProbeOutcome::Timeout],
        vec![ProbeOutcome::Timeout, ProbeOutcome::Success { latency_ms: 8 }],
    ];
    let scores = run_with_outcomes(&endpoints, &table, 2, 1000);
    assert_eq!(scores.len(), 2);
    assert_eq!(scores[0].endpoint, ep(1));
    assert_eq!(scores[0].average_latency, 30);
    assert_eq!(scores[1].endpoint, ep(3));
    assert_eq!(scores[1].average_latency, 8);
}

#[test]
fn summary_counts_working_out_of_total() {
    let endpoints = vec![ep(1), ep(2)];
    let table = vec![
        vec![ProbeOutcome::Success { latency_ms: 5 }],
        vec![ProbeOutcome::Timeout],
    ];
    let scores = run_with_outcomes(&endpoints, &table, 1, 1000);
    let summary = summarize(2, &scores);
    assert_eq!(summary.working, 1);
    assert_eq!(summary.total, 2);
}

#[test]
fn cancel_stops_new_work_but_keeps_in_flight_endpoints() {
    let endpoints: Vec<Endpoint> = (0..5).map(ep).collect();
    let mut sched = Scheduler::new(endpoints, 2);
    let first = sched.start_next().expect("a free slot and candidates");
    let _second = sched.start_next().expect("a free slot and candidates");
    sched.cancel();
    // No new attempts are issued after cancellation.
    assert_eq!(sched.start_next(), None);
    assert!(!sched.finished());
    // The two in-flight endpoints still resolve normally.
    let mut run = EndpointRun::new(first, 1, 1000);
    run.record(ProbeOutcome::Success { latency_ms: 6 });
    sched.complete(run.finish());
    sched.complete(None);
    assert!(sched.finished());
    let scores = sched.into_scores();
    assert_eq!(scores.len(), 1);
    assert_eq!(scores[0].endpoint, first);
    assert_eq!(scores[0].average_latency, 6);
}
