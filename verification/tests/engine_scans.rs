use port_scanner::engine::{scan_with, ScanAction, ScanEngine};
use port_scanner::error::ScanError;
use port_scanner::probe::{PortResult, ProbeOutcome};
use port_scanner::report::ScanReport;
use port_scanner::request::{ScanRequest, TargetAddr};

const LOCALHOST: TargetAddr = TargetAddr::V4(127, 0, 0, 1);

/// How the running probes are picked to finish.
enum Order {
    OldestFirst,
    NewestFirst,
    Shuffled(u32),
}

fn outcome_for(port: u16, listening: &[u16]) -> ProbeOutcome {
    if listening.contains(&port) {
        ProbeOutcome::Open
    } else if port % 2 == 0 {
        ProbeOutcome::Closed
    } else {
        ProbeOutcome::TimedOut
    }
}

/// Drives a scan to its end against a set of listening ports and returns
/// the report with the most probes that ever ran at once.
fn run_scan(request: ScanRequest, listening: &[u16], order: Order) -> (ScanReport, usize) {
    let mut engine = ScanEngine::new(request);
    let mut running: Vec<u16> = Vec::new();
    let mut most = 0usize;
    let mut seed = match order {
        Order::Shuffled(seed) => seed,
        _ => 0,
    };
    loop {
        match engine.next_action() {
            ScanAction::Probe(port) => {
                assert!(!running.contains(&port));
                running.push(port);
            }
            ScanAction::Wait => {
                assert!(!running.is_empty());
                let at = match order {
                    Order::OldestFirst => 0,
                    Order::NewestFirst => running.len() - 1,
                    Order::Shuffled(_) => {
                        seed = seed.wrapping_mul(1664525).wrapping_add(1013904223);
                        (seed >> 8) as usize % running.len()
                    }
                };
                let port = running.remove(at);
                assert!(engine.is_in_flight(port));
                assert_eq!(engine.complete(port, outcome_for(port, listening)), Ok(()));
                assert!(!engine.is_in_flight(port));
            }
            ScanAction::Finish => break,
        }
        assert_eq!(engine.active_count(), running.len());
        assert!(engine.active_count() <= request.concurrency());
        most = most.max(engine.active_count());
    }
    assert!(running.is_empty());
    assert!(engine.is_done());
    (engine.into_report(42).expect("a finished scan has a report"), most)
}

fn ports_of(report: &ScanReport) -> Vec<u16> {
    report.results().iter().map(|r| r.port()).collect()
}

fn open_flags(report: &ScanReport) -> Vec<bool> {
    report.results().iter().map(|r| r.is_open()).collect()
}

#[test]
fn three_ports_with_one_listener() {
    let request = ScanRequest::new(LOCALHOST, 8000, 8002, 2, 200).unwrap();
    let (report, most) = run_scan(request, &[8001], Order::NewestFirst);
    let results = report.results();
    assert_eq!(results.len(), 3);
    assert_eq!((results[0].port(), results[0].is_open(), results[0].service()), (8000, false, None));
    assert_eq!((results[1].port(), results[1].is_open(), results[1].service()), (8001, true, None));
    assert_eq!((results[2].port(), results[2].is_open(), results[2].service()), (8002, false, None));
    assert_eq!(results[0].label(), "unknown");
    assert_eq!(results[1].label(), "unknown");
    assert_eq!(results[2].label(), "unknown");
    assert_eq!(report.open_count(), 1);
    assert_eq!(report.elapsed_ms(), 42);
    assert_eq!(most, 2);
}

#[test]
fn listener_on_8000_is_open_and_the_rest_is_not() {
    let request = ScanRequest::new(LOCALHOST, 8000, 8001, 2, 1000).unwrap();
    let (report, _) = run_scan(request, &[8000], Order::OldestFirst);
    assert_eq!(open_flags(&report), vec![true, false]);
}

#[test]
fn open_catalog_port_is_labelled() {
    let request = ScanRequest::new(LOCALHOST, 79, 81, 3, 200).unwrap();
    let (report, _) = run_scan(request, &[80], Order::NewestFirst);
    let results = report.results();
    assert_eq!(results[1], PortResult::from_outcome(80, ProbeOutcome::Open));
    assert_eq!(results[1].service(), Some("HTTP".to_string()));
    assert_eq!(results[0].service(), None);
    assert_eq!(results[2].service(), None);
}

#[test]
fn single_port_range_gives_one_result_for_any_concurrency() {
    for concurrency in [1usize, 2, 3, 200, 1000, usize::MAX] {
        let request = ScanRequest::new(LOCALHOST, 5000, 5000, concurrency, 100).unwrap();
        let (report, most) = run_scan(request, &[], Order::OldestFirst);
        assert_eq!(ports_of(&report), vec![5000]);
        assert_eq!(report.open_count(), 0);
        assert_eq!(most, 1);
    }
}

#[test]
fn every_port_of_the_range_is_reported_once() {
    for (start, end, concurrency) in
        [(1u16, 1024u16, 200usize), (65000, 65535, 7), (1, 1, 1), (10, 20, 50), (1, 65535, 1000)]
    {
        let request = ScanRequest::new(LOCALHOST, start, end, concurrency, 100).unwrap();
        let (report, _) = run_scan(request, &[], Order::Shuffled(start as u32 + 1));
        let expected: Vec<u16> = (start..=end).collect();
        assert_eq!(report.results().len(), (end - start) as usize + 1);
        assert_eq!(ports_of(&report), expected);
    }
}

#[test]
fn results_are_in_port_order_whatever_the_completion_order() {
    let request = ScanRequest::new(LOCALHOST, 100, 400, 32, 100).unwrap();
    for order in [
        Order::OldestFirst,
        Order::NewestFirst,
        Order::Shuffled(1),
        Order::Shuffled(2),
        Order::Shuffled(99),
    ] {
        let (report, _) = run_scan(request, &[110, 143, 399], order);
        let ports = ports_of(&report);
        assert!(ports.windows(2).all(|pair| pair[0] < pair[1]));
        assert_eq!(ports, (100..=400).collect::<Vec<u16>>());
    }
}

#[test]
fn never_more_probes_than_the_concurrency() {
    for concurrency in [1usize, 2, 5, 64] {
        let request = ScanRequest::new(LOCALHOST, 1, 300, concurrency, 100).unwrap();
        let (_, most) = run_scan(request, &[22, 80], Order::Shuffled(7));
        assert_eq!(most, concurrency);
    }
}

#[test]
fn concurrency_above_the_range_size_is_no_error() {
    let request = ScanRequest::new(LOCALHOST, 20, 25, 1000, 100).unwrap();
    let (report, most) = run_scan(request, &[22], Order::NewestFirst);
    assert_eq!(ports_of(&report), vec![20, 21, 22, 23, 24, 25]);
    assert_eq!(most, 6);
    assert_eq!(report.open_count(), 1);
}

#[test]
fn concurrency_of_one_scans_one_port_after_the_other() {
    let request = ScanRequest::new(LOCALHOST, 7, 9, 1, 100).unwrap();
    let mut engine = ScanEngine::new(request);
    for port in 7..=9u16 {
        assert_eq!(engine.next_action(), ScanAction::Probe(port));
        assert_eq!(engine.next_action(), ScanAction::Wait);
        assert_eq!(engine.active_count(), 1);
        assert_eq!(engine.complete(port, ProbeOutcome::Closed), Ok(()));
        assert_eq!(engine.active_count(), 0);
    }
    assert_eq!(engine.next_action(), ScanAction::Finish);
    assert_eq!(engine.next_action(), ScanAction::Finish);
    assert_eq!(engine.completed_count(), 3);
}

#[test]
fn scanning_twice_gives_the_same_report() {
    let request = ScanRequest::new(LOCALHOST, 1, 1024, 200, 100).unwrap();
    let listening = [22u16, 80, 443, 1000];
    let (first, _) = run_scan(request, &listening, Order::Shuffled(3));
    let (second, _) = run_scan(request, &listening, Order::NewestFirst);
    assert_eq!(open_flags(&first), open_flags(&second));
    assert_eq!(first.results(), second.results());
    assert_eq!(first.open_count(), 4);
    assert_eq!(second.open_count(), 4);
}

#[test]
fn failed_probe_counts_as_not_open_and_the_scan_goes_on() {
    let request = ScanRequest::new(LOCALHOST, 80, 82, 3, 100).unwrap();
    let mut engine = ScanEngine::new(request);
    assert_eq!(engine.next_action(), ScanAction::Probe(80));
    assert_eq!(engine.next_action(), ScanAction::Probe(81));
    assert_eq!(engine.next_action(), ScanAction::Probe(82));
    assert_eq!(engine.complete(81, ProbeOutcome::Failed), Ok(()));
    assert_eq!(engine.complete(82, ProbeOutcome::TimedOut), Ok(()));
    assert_eq!(engine.complete(80, ProbeOutcome::Open), Ok(()));
    let report = engine.into_report(1).unwrap();
    assert_eq!(open_flags(&report), vec![true, false, false]);
    assert_eq!(ports_of(&report), vec![80, 81, 82]);
    assert_eq!(report.results()[0].service(), Some("HTTP".to_string()));
}

#[test]
fn completion_of_a_port_that_is_not_running_is_refused() {
    let request = ScanRequest::new(LOCALHOST, 10, 12, 2, 100).unwrap();
    let mut engine = ScanEngine::new(request);
    assert_eq!(engine.complete(10, ProbeOutcome::Open), Err(ScanError::NotInFlight));
    assert_eq!(engine.next_action(), ScanAction::Probe(10));
    assert_eq!(engine.complete(11, ProbeOutcome::Open), Err(ScanError::NotInFlight));
    assert_eq!(engine.complete(9, ProbeOutcome::Open), Err(ScanError::NotInFlight));
    assert_eq!(engine.complete(10, ProbeOutcome::Open), Ok(()));
    assert_eq!(engine.complete(10, ProbeOutcome::Closed), Err(ScanError::NotInFlight));
    assert_eq!(engine.completed_count(), 1);
    assert_eq!(engine.active_count(), 0);
}

#[test]
fn unfinished_scan_has_no_report() {
    let request = ScanRequest::new(LOCALHOST, 10, 11, 2, 100).unwrap();
    let engine = ScanEngine::new(request);
    assert!(!engine.is_done());
    assert!(engine.into_report(0).is_none());

    let mut engine = ScanEngine::new(request);
    assert_eq!(engine.next_action(), ScanAction::Probe(10));
    assert_eq!(engine.next_action(), ScanAction::Probe(11));
    assert_eq!(engine.complete(11, ProbeOutcome::Open), Ok(()));
    assert!(!engine.is_done());
    assert_eq!(engine.next_action(), ScanAction::Wait);
    assert!(engine.into_report(0).is_none());
}

#[test]
fn engine_keeps_its_request() {
    let request = ScanRequest::new(LOCALHOST, 10, 11, 2, 100).unwrap();
    let engine = ScanEngine::new(request);
    assert_eq!(engine.request().start_port(), 10);
    assert_eq!(engine.request().end_port(), 11);
    assert_eq!(engine.request().concurrency(), 2);
    assert_eq!(engine.request().timeout_ms(), 100);
}

#[test]
fn run_with_probes_every_port_and_finishes() {
    let request = ScanRequest::new(LOCALHOST, 8000, 8002, 2, 200).unwrap();
    let mut engine = ScanEngine::new(request);
    engine.run_with(|port| if port == 8001 { ProbeOutcome::Open } else { ProbeOutcome::Closed });
    assert!(engine.is_done());
    assert_eq!(engine.active_count(), 0);
    assert_eq!(engine.completed_count(), 3);
    assert_eq!(engine.next_action(), ScanAction::Finish);
    let report = engine.into_report(3).unwrap();
    assert_eq!(ports_of(&report), vec![8000, 8001, 8002]);
    assert_eq!(open_flags(&report), vec![false, true, false]);
    assert_eq!(report.open_count(), 1);
}

#[test]
fn run_with_finishes_probes_that_were_already_running() {
    let request = ScanRequest::new(LOCALHOST, 20, 30, 4, 200).unwrap();
    let mut engine = ScanEngine::new(request);
    assert_eq!(engine.next_action(), ScanAction::Probe(20));
    assert_eq!(engine.next_action(), ScanAction::Probe(21));
    assert_eq!(engine.next_action(), ScanAction::Probe(22));
    assert_eq!(engine.complete(21, ProbeOutcome::Open), Ok(()));
    let calls = std::cell::Cell::new(0usize);
    engine.run_with(|port| {
        calls.set(calls.get() + 1);
        assert_ne!(port, 21);
        if port % 2 == 0 {
            ProbeOutcome::Open
        } else {
            ProbeOutcome::TimedOut
        }
    });
    assert_eq!(calls.get(), 10);
    let report = engine.into_report(0).unwrap();
    assert_eq!(ports_of(&report), (20..=30).collect::<Vec<u16>>());
    assert_eq!(
        open_flags(&report),
        vec![true, true, true, false, true, false, true, false, true, false, true]
    );
    assert_eq!(report.results()[1].label(), "FTP");
    assert_eq!(report.results()[2].label(), "SSH");
    assert_eq!(report.open_count(), 7);
}

#[test]
fn run_with_matches_a_scan_driven_step_by_step() {
    let request = ScanRequest::new(LOCALHOST, 1, 500, 16, 200).unwrap();
    let listening = [22u16, 80, 443];
    let (stepped, _) = run_scan(request, &listening, Order::Shuffled(11));
    let mut engine = ScanEngine::new(request);
    engine.run_with(|port| outcome_for(port, &listening));
    let direct = engine.into_report(42).unwrap();
    assert_eq!(stepped.results(), direct.results());
    assert_eq!(stepped.summary_line(), direct.summary_line());
    assert_eq!(direct.summary_line(), "Scanned: 500 ports, Found: 3 open");
}

#[test]
fn scan_with_reports_what_the_probe_gave() {
    let request = ScanRequest::new(LOCALHOST, 8000, 8002, 2, 200).unwrap();
    let report = scan_with(
        request,
        |port| if port == 8001 { ProbeOutcome::Open } else { ProbeOutcome::TimedOut },
        || 17,
    );
    assert_eq!(ports_of(&report), vec![8000, 8001, 8002]);
    assert_eq!(open_flags(&report), vec![false, true, false]);
    assert_eq!(report.open_count(), 1);
    assert_eq!(report.elapsed_ms(), 17);
    assert_eq!(report.summary_line(), "Scanned: 3 ports, Found: 1 open");
}

#[test]
fn scan_with_covers_the_whole_port_space() {
    let request = ScanRequest::new(LOCALHOST, 1, 65535, 1000, 1).unwrap();
    let report = scan_with(request, |port| outcome_for(port, &[65535, 1]), || 0);
    assert_eq!(report.results().len(), 65535);
    assert_eq!(report.results()[0].port(), 1);
    assert_eq!(report.results()[65534].port(), 65535);
    assert!(report.results()[0].is_open());
    assert!(report.results()[65534].is_open());
    assert_eq!(report.open_count(), 2);
    assert_eq!(report.summary_line(), "Scanned: 65535 ports, Found: 2 open");
}
