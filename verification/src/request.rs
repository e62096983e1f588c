//! Scan requests and their validation.

use vstd::prelude::*;
use crate::error::ScanError;

verus! {

/// The address to scan, held as plain numbers.
#[derive(Clone, Copy, Debug, PartialEq, Eq, Structural)]
pub enum TargetAddr {
    /// An IPv4 address, by its four octets in network order.
    V4(u8, u8, u8, u8),
    /// An IPv6 address, by its 128 bits in network order.
    V6(u128),
}

/// What a `ScanRequest` holds, as plain values.
pub struct ScanRequestView {
    pub target: TargetAddr,
    pub start: u16,
    pub end: u16,
    pub concurrency: usize,
    pub timeout_ms: u64,
}

impl ScanRequestView {
    /// A request can be scanned when its range is not empty and starts above
    /// port zero, at least one probe may run at a time, and the timeout is
    /// positive.
    pub open spec fn valid(self) -> bool {
        &&& 1 <= self.start <= self.end
        &&& self.concurrency >= 1
        &&& self.timeout_ms >= 1
    }

    /// The number of ports in the range, both bounds included.
    pub open spec fn port_count(self) -> int {
        self.end - self.start + 1
    }

    /// Whether `port` lies in the range.
    pub open spec fn in_range(self, port: u16) -> bool {
        self.start <= port <= self.end
    }
}

/// Which error, if any, refuses a request with these values. The range is
/// looked at first, then the concurrency, then the timeout.
pub open spec fn request_error(
    start: u16,
    end: u16,
    concurrency: usize,
    timeout_ms: u64,
) -> Option<ScanError> {
    if start == 0 || end == 0 || start > end {
        Some(ScanError::InvalidRange)
    } else if concurrency == 0 {
        Some(ScanError::InvalidConcurrency)
    } else if timeout_ms == 0 {
        Some(ScanError::InvalidTimeout)
    } else {
        None
    }
}

/// A validated request: which ports of which target to probe, how many at a
/// time, and how long each probe may take. It does not change during a scan.
#[derive(Clone, Copy, Debug)]
pub struct ScanRequest {
    target: TargetAddr,
    start_port: u16,
    end_port: u16,
    concurrency: usize,
    timeout_ms: u64,
}

impl View for ScanRequest {
    type V = ScanRequestView;

    closed spec fn view(&self) -> ScanRequestView {
        ScanRequestView {
            target: self.target,
            start: self.start_port,
            end: self.end_port,
            concurrency: self.concurrency,
            timeout_ms: self.timeout_ms,
        }
    }
}

impl ScanRequest {
    #[verifier::type_invariant]
    spec fn always_valid(self) -> bool {
        self@.valid()
    }

    /// Validates the values of a request. Nothing is probed on an error.
    pub fn new(
        target: TargetAddr,
        start_port: u16,
        end_port: u16,
        concurrency: usize,
        timeout_ms: u64,
    ) -> (outcome: Result<ScanRequest, ScanError>)
        ensures
            match outcome {
                Ok(request) => {
                    &&& request_error(start_port, end_port, concurrency, timeout_ms) is None
                    &&& request@ == (ScanRequestView {
                        target,
                        start: start_port,
                        end: end_port,
                        concurrency,
                        timeout_ms,
                    })
                    &&& request@.valid()
                },
                Err(error) => request_error(start_port, end_port, concurrency, timeout_ms)
                    == Some(error),
            },
    {
        if start_port == 0 || end_port == 0 || start_port > end_port {
            Err(ScanError::InvalidRange)
        } else if concurrency == 0 {
            Err(ScanError::InvalidConcurrency)
        } else if timeout_ms == 0 {
            Err(ScanError::InvalidTimeout)
        } else {
            Ok(ScanRequest { target, start_port, end_port, concurrency, timeout_ms })
        }
    }

    /// The address to scan.
    pub fn target(&self) -> (target: TargetAddr)
        ensures
            target == self@.target,
    {
        self.target
    }

    /// The first port of the range.
    pub fn start_port(&self) -> (port: u16)
        ensures
            port == self@.start,
            self@.valid(),
    {
        proof {
            use_type_invariant(self);
        }
        self.start_port
    }

    /// The last port of the range.
    pub fn end_port(&self) -> (port: u16)
        ensures
            port == self@.end,
            self@.valid(),
    {
        proof {
            use_type_invariant(self);
        }
        self.end_port
    }

    /// The most probes that may run at once.
    pub fn concurrency(&self) -> (cap: usize)
        ensures
            cap == self@.concurrency,
            self@.valid(),
    {
        proof {
            use_type_invariant(self);
        }
        self.concurrency
    }

    /// The time each probe may take, in milliseconds.
    pub fn timeout_ms(&self) -> (ms: u64)
        ensures
            ms == self@.timeout_ms,
            self@.valid(),
    {
        proof {
            use_type_invariant(self);
        }
        self.timeout_ms
    }

    /// The number of ports in the range, both bounds included.
    pub fn port_count(&self) -> (count: usize)
        ensures
            count == self@.port_count(),
            1 <= count <= 65535,
            self@.valid(),
    {
        proof {
            use_type_invariant(self);
        }
        (self.end_port - self.start_port) as usize + 1
    }
}

} // verus!
