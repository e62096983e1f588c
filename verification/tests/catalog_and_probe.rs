use std::io::ErrorKind;

use port_scanner::catalog::get_service_name;
use port_scanner::error::ScanError;
use port_scanner::gate::ConcurrencyGate;
use port_scanner::probe::{ConnectAttempt, PortResult, ProbeOutcome};
use port_scanner::request::{ScanRequest, TargetAddr};

const LOCALHOST: TargetAddr = TargetAddr::V4(127, 0, 0, 1);

#[test]
fn catalog_knows_http_and_ssh() {
    assert_eq!(get_service_name(80), Some("HTTP".to_string()));
    assert_eq!(get_service_name(22), Some("SSH".to_string()));
}

#[test]
fn catalog_has_nothing_for_port_9999() {
    assert_eq!(get_service_name(9999), None);
}

#[test]
fn catalog_holds_the_whole_table() {
    let table: [(u16, &str); 20] = [
        (21, "FTP"),
        (22, "SSH"),
        (23, "Telnet"),
        (25, "SMTP"),
        (53, "DNS"),
        (80, "HTTP"),
        (110, "POP3"),
        (143, "IMAP"),
        (443, "HTTPS"),
        (465, "SMTPS"),
        (587, "SMTP-TLS"),
        (993, "IMAPS"),
        (995, "POP3S"),
        (3306, "MySQL"),
        (3389, "RDP"),
        (5432, "PostgreSQL"),
        (6379, "Redis"),
        (8080, "HTTP-Alt"),
        (8443, "HTTPS-Alt"),
        (27017, "MongoDB"),
    ];
    for (port, label) in table {
        assert_eq!(get_service_name(port), Some(label.to_string()), "port {}", port);
    }
}

#[test]
fn catalog_is_absent_everywhere_else() {
    let known: [u16; 20] = [
        21, 22, 23, 25, 53, 80, 110, 143, 443, 465, 587, 993, 995, 3306, 3389, 5432, 6379, 8080,
        8443, 27017,
    ];
    let mut absent = 0u32;
    for port in 0..=u16::MAX {
        match get_service_name(port) {
            Some(label) => {
                assert!(known.contains(&port));
                assert!(!label.is_empty());
            }
            None => {
                assert!(!known.contains(&port));
                absent += 1;
            }
        }
    }
    assert_eq!(absent, 65536 - 20);
}

#[test]
fn only_a_completed_connection_is_open() {
    assert!(ProbeOutcome::Open.is_open());
    assert!(!ProbeOutcome::Closed.is_open());
    assert!(!ProbeOutcome::TimedOut.is_open());
    assert!(!ProbeOutcome::Failed.is_open());
}

#[test]
fn a_connection_that_was_made_is_open() {
    assert_eq!(ProbeOutcome::from_attempt(ConnectAttempt::Connected), ProbeOutcome::Open);
    let result =
        PortResult::from_outcome(8000, ProbeOutcome::from_attempt(ConnectAttempt::Connected));
    assert!(result.is_open());
}

#[test]
fn a_refused_or_reset_connection_is_closed() {
    for kind in [ErrorKind::ConnectionRefused, ErrorKind::ConnectionReset] {
        assert_eq!(ProbeOutcome::from_attempt(ConnectAttempt::Error(kind)), ProbeOutcome::Closed);
    }
    let refused = ConnectAttempt::Error(ErrorKind::ConnectionRefused);
    let result = PortResult::from_outcome(8000, ProbeOutcome::from_attempt(refused));
    assert!(!result.is_open());
}

#[test]
fn silence_is_timed_out() {
    assert_eq!(ProbeOutcome::from_attempt(ConnectAttempt::Elapsed), ProbeOutcome::TimedOut);
    assert_eq!(
        ProbeOutcome::from_attempt(ConnectAttempt::Error(ErrorKind::TimedOut)),
        ProbeOutcome::TimedOut
    );
}

#[test]
fn any_other_end_of_an_attempt_is_a_failure() {
    for kind in [
        ErrorKind::ConnectionAborted,
        ErrorKind::NotConnected,
        ErrorKind::AddrNotAvailable,
        ErrorKind::PermissionDenied,
        ErrorKind::InvalidInput,
        ErrorKind::Interrupted,
        ErrorKind::Other,
    ] {
        assert_eq!(ProbeOutcome::from_attempt(ConnectAttempt::Error(kind)), ProbeOutcome::Failed);
    }
    assert_eq!(ProbeOutcome::from_attempt(ConnectAttempt::Lost), ProbeOutcome::Failed);
}

#[test]
fn open_port_carries_its_label() {
    let result = PortResult::from_outcome(443, ProbeOutcome::Open);
    assert_eq!(result.port(), 443);
    assert!(result.is_open());
    assert_eq!(result.service(), Some("HTTPS".to_string()));
    assert_eq!(result.label(), "HTTPS");
}

#[test]
fn open_port_outside_the_catalog_is_unknown() {
    let result = PortResult::from_outcome(8001, ProbeOutcome::Open);
    assert!(result.is_open());
    assert_eq!(result.service(), None);
    assert_eq!(result.label(), "unknown");
}

#[test]
fn closed_timed_out_and_failed_ports_are_not_open_and_have_no_label() {
    for outcome in [ProbeOutcome::Closed, ProbeOutcome::TimedOut, ProbeOutcome::Failed] {
        let result = PortResult::from_outcome(80, outcome);
        assert_eq!(result.port(), 80);
        assert!(!result.is_open());
        assert_eq!(result.service(), None);
        assert_eq!(result.label(), "unknown");
    }
}

#[test]
fn a_cloned_result_is_equal() {
    let result = PortResult::from_outcome(22, ProbeOutcome::Open);
    let copy = result.clone();
    assert_eq!(copy, result);
    assert_eq!(copy.service(), Some("SSH".to_string()));
}

#[test]
fn valid_request_keeps_its_values() {
    let request = ScanRequest::new(LOCALHOST, 8000, 8002, 2, 200).unwrap();
    assert_eq!(request.target(), LOCALHOST);
    assert_eq!(request.start_port(), 8000);
    assert_eq!(request.end_port(), 8002);
    assert_eq!(request.concurrency(), 2);
    assert_eq!(request.timeout_ms(), 200);
    assert_eq!(request.port_count(), 3);
}

#[test]
fn whole_port_space_is_a_valid_range() {
    let request = ScanRequest::new(TargetAddr::V6(1), 1, 65535, 1000, 1).unwrap();
    assert_eq!(request.port_count(), 65535);
    assert_eq!(request.target(), TargetAddr::V6(1));
}

#[test]
fn reversed_range_is_refused() {
    assert_eq!(ScanRequest::new(LOCALHOST, 8002, 8000, 2, 200).err(), Some(ScanError::InvalidRange));
}

#[test]
fn port_zero_is_refused() {
    assert_eq!(ScanRequest::new(LOCALHOST, 0, 10, 2, 200).err(), Some(ScanError::InvalidRange));
    assert_eq!(ScanRequest::new(LOCALHOST, 0, 0, 2, 200).err(), Some(ScanError::InvalidRange));
}

#[test]
fn zero_concurrency_is_refused() {
    assert_eq!(
        ScanRequest::new(LOCALHOST, 1, 10, 0, 200).err(),
        Some(ScanError::InvalidConcurrency)
    );
}

#[test]
fn zero_timeout_is_refused() {
    assert_eq!(ScanRequest::new(LOCALHOST, 1, 10, 5, 0).err(), Some(ScanError::InvalidTimeout));
}

#[test]
fn range_is_checked_before_concurrency_and_timeout() {
    assert_eq!(ScanRequest::new(LOCALHOST, 9, 3, 0, 0).err(), Some(ScanError::InvalidRange));
    assert_eq!(
        ScanRequest::new(LOCALHOST, 3, 9, 0, 0).err(),
        Some(ScanError::InvalidConcurrency)
    );
}

#[test]
fn error_messages_and_exit_code() {
    assert_eq!(ScanError::InvalidTarget.message(), "Invalid IP address");
    assert_eq!(ScanError::InvalidRange.message(), "Invalid port range");
    assert_eq!(ScanError::InvalidConcurrency.message(), "Concurrency must be at least 1");
    assert_eq!(ScanError::InvalidTimeout.message(), "Timeout must be greater than zero");
    assert_eq!(ScanError::NotInFlight.message(), "No probe is in flight for that port");
    assert_eq!(ScanError::InvalidTarget.exit_code(), 1);
    assert_eq!(ScanError::InvalidRange.exit_code(), 1);
}

#[test]
fn gate_admits_up_to_its_capacity() {
    let mut gate = ConcurrencyGate::new(3).unwrap();
    assert_eq!(gate.capacity(), 3);
    assert_eq!(gate.holders(), 0);
    assert_eq!(gate.available(), 3);
    assert!(gate.try_acquire());
    assert!(gate.try_acquire());
    assert!(gate.try_acquire());
    assert_eq!(gate.holders(), 3);
    assert_eq!(gate.available(), 0);
    assert!(!gate.try_acquire());
    assert_eq!(gate.holders(), 3);
}

#[test]
fn gate_release_frees_one_slot() {
    let mut gate = ConcurrencyGate::new(1).unwrap();
    assert!(gate.try_acquire());
    assert!(!gate.try_acquire());
    assert!(gate.release());
    assert_eq!(gate.holders(), 0);
    assert!(gate.try_acquire());
    assert_eq!(gate.holders(), 1);
}

#[test]
fn gate_release_without_holder_changes_nothing() {
    let mut gate = ConcurrencyGate::new(2).unwrap();
    assert!(!gate.release());
    assert_eq!(gate.holders(), 0);
    assert_eq!(gate.available(), 2);
}

#[test]
fn gate_without_slots_is_refused() {
    assert_eq!(ConcurrencyGate::new(0).err(), Some(ScanError::InvalidConcurrency));
}

#[test]
fn gate_never_holds_more_than_its_capacity() {
    let mut gate = ConcurrencyGate::new(4).unwrap();
    let mut state: u32 = 12345;
    for _ in 0..1000 {
        state = state.wrapping_mul(1664525).wrapping_add(1013904223);
        if (state >> 16) % 3 == 0 {
            gate.release();
        } else {
            gate.try_acquire();
        }
        assert!(gate.holders() <= gate.capacity());
        assert_eq!(gate.available(), gate.capacity() - gate.holders());
    }
}
