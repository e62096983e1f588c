//! Outcomes of single probes, and the result recorded for a port.

use vstd::prelude::*;
use std::io::ErrorKind;
use crate::catalog::{catalog_label, get_service_name};

verus! {

/// `std::io::ErrorKind`, the kinds of I/O errors, with its variants as the
/// standard library lists them.
#[verifier::external_type_specification]
pub struct ExErrorKind(ErrorKind);

/// What came back from one connection attempt that was given a timeout.
#[derive(Clone, Copy, Debug, PartialEq, Eq)]
pub enum ConnectAttempt {
    /// The connection was made.
    Connected,
    /// The attempt ended with an I/O error of this kind.
    Error(ErrorKind),
    /// The timeout ran out first.
    Elapsed,
    /// The task that made the attempt ended without an answer.
    Lost,
}

/// The outcome that an attempt stands for. A connection that was made is
/// open. One that was refused or reset is closed. Silence, whether the
/// timer or the network layer says so, has timed out. Anything else has
/// failed.
pub open spec fn outcome_of(attempt: ConnectAttempt) -> ProbeOutcome {
    match attempt {
        ConnectAttempt::Connected => ProbeOutcome::Open,
        ConnectAttempt::Error(ErrorKind::ConnectionRefused) => ProbeOutcome::Closed,
        ConnectAttempt::Error(ErrorKind::ConnectionReset) => ProbeOutcome::Closed,
        ConnectAttempt::Error(ErrorKind::TimedOut) => ProbeOutcome::TimedOut,
        ConnectAttempt::Error(_) => ProbeOutcome::Failed,
        ConnectAttempt::Elapsed => ProbeOutcome::TimedOut,
        ConnectAttempt::Lost => ProbeOutcome::Failed,
    }
}

/// How one timeout-bounded connection attempt ended.
#[derive(Clone, Copy, Debug, PartialEq, Eq, Structural)]
pub enum ProbeOutcome {
    /// The connection completed before the timeout.
    Open,
    /// The remote end refused or reset the connection.
    Closed,
    /// Nothing came back within the timeout.
    TimedOut,
    /// The attempt broke in some other way; the port counts as not open.
    Failed,
}

impl ProbeOutcome {
    /// Classifies what came back from a connection attempt.
    pub fn from_attempt(attempt: ConnectAttempt) -> (outcome: ProbeOutcome)
        ensures
            outcome == outcome_of(attempt),
    {
        match attempt {
            ConnectAttempt::Connected => ProbeOutcome::Open,
            ConnectAttempt::Error(ErrorKind::ConnectionRefused) => ProbeOutcome::Closed,
            ConnectAttempt::Error(ErrorKind::ConnectionReset) => ProbeOutcome::Closed,
            ConnectAttempt::Error(ErrorKind::TimedOut) => ProbeOutcome::TimedOut,
            ConnectAttempt::Error(_) => ProbeOutcome::Failed,
            ConnectAttempt::Elapsed => ProbeOutcome::TimedOut,
            ConnectAttempt::Lost => ProbeOutcome::Failed,
        }
    }

    /// Only a completed connection makes a port open.
    pub fn is_open(&self) -> (open: bool)
        ensures
            open == (*self is Open),
    {
        match self {
            ProbeOutcome::Open => true,
            _ => false,
        }
    }
}

/// What a `PortResult` holds, as plain mathematical values.
pub struct PortResultView {
    pub port: u16,
    pub is_open: bool,
    pub service: Option<Seq<char>>,
}

/// The result that belongs to `port` when its probe found it open or not:
/// an open port carries its catalog label, a port that is not open none.
pub open spec fn port_result(port: u16, is_open: bool) -> PortResultView {
    PortResultView {
        port,
        is_open,
        service: if is_open { catalog_label(port) } else { None },
    }
}

/// The text shown for a service: its label, or `unknown` where there is none.
pub open spec fn label_text(service: Option<Seq<char>>) -> Seq<char> {
    match service {
        Some(label) => label,
        None => "unknown"@,
    }
}

/// The reachability of one port, produced once and never changed.
#[derive(Debug, PartialEq, Eq)]
pub struct PortResult {
    port: u16,
    is_open: bool,
    service: Option<String>,
}

impl View for PortResult {
    type V = PortResultView;

    closed spec fn view(&self) -> PortResultView {
        PortResultView {
            port: self.port,
            is_open: self.is_open,
            service: match self.service {
                Some(label) => Some(label@),
                None => None,
            },
        }
    }
}

impl PortResult {
    #[verifier::type_invariant]
    spec fn consistent(self) -> bool {
        self@ == port_result(self@.port, self@.is_open)
    }

    /// Records the outcome of the probe of `port`.
    pub fn from_outcome(port: u16, outcome: ProbeOutcome) -> (result: PortResult)
        ensures
            result@ == port_result(port, outcome is Open),
    {
        let is_open = outcome.is_open();
        let service = if is_open { get_service_name(port) } else { None };
        PortResult { port, is_open, service }
    }

    /// The port this result is about.
    pub fn port(&self) -> (port: u16)
        ensures
            port == self@.port,
            self@ == port_result(self@.port, self@.is_open),
    {
        proof {
            use_type_invariant(self);
        }
        self.port
    }

    /// Whether the port accepted a connection.
    pub fn is_open(&self) -> (open: bool)
        ensures
            open == self@.is_open,
    {
        self.is_open
    }

    /// The catalog label of an open port, if the catalog has one.
    pub fn service(&self) -> (service: Option<String>)
        ensures
            match service {
                Some(label) => self@.service == Some(label@),
                None => self@.service is None,
            },
    {
        match &self.service {
            Some(label) => Some(label.clone()),
            None => None,
        }
    }

    /// The label to show for this port: the service, or `unknown`.
    pub fn label(&self) -> (text: String)
        ensures
            text@ == label_text(self@.service),
    {
        match &self.service {
            Some(label) => label.clone(),
            None => "unknown".to_owned(),
        }
    }

}

impl Clone for PortResult {
    /// A second value with the same contents.
    fn clone(&self) -> (copy: PortResult)
        ensures
            copy@ == self@,
    {
        proof {
            use_type_invariant(self);
        }
        PortResult { port: self.port, is_open: self.is_open, service: self.service() }
    }
}

/// The views of a sequence of results, in the same order.
pub open spec fn result_views(results: Seq<PortResult>) -> Seq<PortResultView> {
    results.map_values(|r: PortResult| r@)
}

} // verus!
