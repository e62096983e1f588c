//! The scan engine: the decisions of a scan as a state machine.
//!
//! The engine never touches the network. It hands out the next thing to do
//! (start the probe of a port, wait for a probe to finish, or finish) and is
//! told how each probe ended, in whatever order the probes finish. The
//! program that drives it performs the probes.

use vstd::prelude::*;
use crate::error::ScanError;
use crate::gate::ConcurrencyGate;
use crate::order::covers;
use crate::probe::{port_result, result_views, PortResult, PortResultView, ProbeOutcome};
use crate::report::{lemma_report_ignores_collection_order, ScanReport, ScanReportView};
use crate::request::{ScanRequest, ScanRequestView};

verus! {

/// What the driver of a scan does next.
#[derive(Clone, Copy, Debug, PartialEq, Eq, Structural)]
pub enum ScanAction {
    /// Start the probe of this port now: it has been admitted.
    Probe(u16),
    /// Start nothing; let a running probe finish and report it.
    Wait,
    /// Every port has its result: ask for the report.
    Finish,
}

/// One step of a scan, as its driver may take it.
pub enum ScanStep {
    /// Hand out the next port.
    Launch,
    /// Record that the probe of this port ended with this outcome.
    Complete(u16, ProbeOutcome),
}

/// The state of a scan, as plain mathematical values.
pub struct EngineView {
    /// The request that is being scanned.
    pub request: ScanRequestView,
    /// How many ports have been handed out for probing, lowest port first.
    pub launched: nat,
    /// The ports whose probes are running.
    pub active: Set<u16>,
    /// The results so far, in the order in which the probes finished.
    pub completed: Seq<PortResultView>,
}

impl EngineView {
    /// The port that is handed out next.
    pub open spec fn next_port(self) -> int {
        self.request.start + self.launched
    }

    /// The state before anything was handed out.
    pub open spec fn initial(request: ScanRequestView) -> EngineView {
        EngineView { request, launched: 0, active: Set::empty(), completed: Seq::empty() }
    }

    /// What holds of every state of a scan. Ports are handed out from the
    /// start of the range upward; each port handed out is either running or
    /// has exactly one result; no more probes run than the request allows.
    pub open spec fn wf(self) -> bool {
        &&& self.request.valid()
        &&& self.launched <= self.request.port_count()
        &&& self.active.finite()
        &&& self.active.len() <= self.request.concurrency
        &&& self.launched == self.active.len() + self.completed.len()
        &&& forall|port: u16|
            self.active.contains(port) ==> self.request.start <= port < self.next_port()
        &&& forall|i: int|
            0 <= i < self.completed.len() ==> {
                &&& self.request.start <= (#[trigger] self.completed[i]).port < self.next_port()
                &&& !self.active.contains(self.completed[i].port)
                &&& self.completed[i] == port_result(
                    self.completed[i].port,
                    self.completed[i].is_open,
                )
            }
        &&& forall|i: int, j: int|
            0 <= i < j < self.completed.len() ==> self.completed[i].port
                != self.completed[j].port
    }

    /// A probe may start: a port is left to hand out and a slot is free.
    pub open spec fn can_launch(self) -> bool {
        self.launched < self.request.port_count() && self.active.len()
            < self.request.concurrency
    }

    /// Every port of the range has its result.
    pub open spec fn is_done(self) -> bool {
        self.completed.len() == self.request.port_count()
    }

    /// The state after the next port was handed out.
    pub open spec fn launch(self) -> EngineView {
        EngineView {
            launched: self.launched + 1,
            active: self.active.insert(self.next_port() as u16),
            ..self
        }
    }

    /// The state after the probe of `port` ended with `outcome`.
    pub open spec fn complete(self, port: u16, outcome: ProbeOutcome) -> EngineView {
        EngineView {
            active: self.active.remove(port),
            completed: self.completed.push(port_result(port, outcome is Open)),
            ..self
        }
    }

    /// The state after `step`. A step that the state has no room for
    /// changes nothing: no port is handed out while no slot is free or no
    /// port is left, and nothing is recorded for a port that is not running.
    pub open spec fn after(self, step: ScanStep) -> EngineView {
        match step {
            ScanStep::Launch => if self.can_launch() {
                self.launch()
            } else {
                self
            },
            ScanStep::Complete(port, outcome) => if self.active.contains(port) {
                self.complete(port, outcome)
            } else {
                self
            },
        }
    }

    /// The state of a scan of `request` after `steps`, taken from the
    /// initial state in their order.
    pub open spec fn after_all(request: ScanRequestView, steps: Seq<ScanStep>) -> EngineView
        decreases steps.len(),
    {
        if steps.len() == 0 {
            EngineView::initial(request)
        } else {
            EngineView::after_all(request, steps.drop_last()).after(steps.last())
        }
    }

    /// The number of steps, launches and completions, that are left.
    pub open spec fn steps_left(self) -> int {
        2 * (self.request.port_count() - self.launched) + self.active.len()
    }

    /// Whether `report` is a report of this finished scan: it answers the
    /// same request and lists the collected results, each once.
    pub open spec fn reported_by(self, report: ScanReportView) -> bool {
        &&& report.wf()
        &&& report.request == self.request
        &&& report.results.to_multiset() == self.completed.to_multiset()
    }
}

/// A scan starts in a state of which the invariant holds, with two steps
/// left for each port of the range: its launch and its completion.
pub proof fn lemma_initial_wf(request: ScanRequestView)
    requires
        request.valid(),
    ensures
        EngineView::initial(request).wf(),
        !EngineView::initial(request).is_done(),
        EngineView::initial(request).steps_left() == 2 * request.port_count(),
{
}

/// Handing out a port keeps the invariant, so the number of running probes
/// stays within the request's concurrency.
pub proof fn lemma_launch_wf(state: EngineView)
    requires
        state.wf(),
        state.can_launch(),
    ensures
        state.launch().wf(),
        state.launch().active.len() == state.active.len() + 1,
        state.launch().active.len() <= state.request.concurrency,
        state.launch().steps_left() == state.steps_left() - 1,
{
}

/// Recording the end of a running probe keeps the invariant and frees its
/// slot, whatever the outcome.
pub proof fn lemma_complete_wf(state: EngineView, port: u16, outcome: ProbeOutcome)
    requires
        state.wf(),
        state.active.contains(port),
    ensures
        state.complete(port, outcome).wf(),
        state.complete(port, outcome).active.len() == state.active.len() - 1,
        state.complete(port, outcome).steps_left() == state.steps_left() - 1,
{
}

/// Whatever steps a scan takes, in whatever order probes start and end, the
/// invariant holds after each of them: at no time do more probes run than
/// the request's concurrency allows, and no port has two results.
pub proof fn lemma_every_state_wf(request: ScanRequestView, steps: Seq<ScanStep>)
    requires
        request.valid(),
    ensures
        EngineView::after_all(request, steps).wf(),
        EngineView::after_all(request, steps).request == request,
        EngineView::after_all(request, steps).active.len() <= request.concurrency,
    decreases steps.len(),
{
    if steps.len() == 0 {
        lemma_initial_wf(request);
    } else {
        lemma_every_state_wf(request, steps.drop_last());
        let before = EngineView::after_all(request, steps.drop_last());
        match steps.last() {
            ScanStep::Launch => {
                if before.can_launch() {
                    lemma_launch_wf(before);
                }
            },
            ScanStep::Complete(port, outcome) => {
                if before.active.contains(port) {
                    lemma_complete_wf(before, port, outcome);
                }
            },
        }
    }
}

/// In every state exactly one of three things holds: a probe may start, or
/// the scan waits for a running probe, or the scan is done. While it is not
/// done, steps are left, and a scan that is done has none left and nothing
/// running.
pub proof fn lemma_progress(state: EngineView)
    requires
        state.wf(),
    ensures
        state.steps_left() >= 0,
        state.is_done() <==> state.steps_left() == 0,
        state.is_done() ==> state.active.len() == 0 && !state.can_launch(),
        !state.is_done() && !state.can_launch() ==> state.active.len() > 0,
{
}

/// A finished scan has collected each port of the range exactly once.
pub proof fn lemma_done_covers(state: EngineView)
    requires
        state.wf(),
    ensures
        state.is_done() <==> covers(state.request, state.completed),
{
    if state.is_done() {
        assert forall|i: int| 0 <= i < state.completed.len() implies state.request.in_range(
            #[trigger] state.completed[i].port,
        ) by {}
    }
}

/// Probes may finish in any order: two finished scans of one request that
/// collected the same results, in whatever order, are reported alike.
pub proof fn lemma_completion_order_is_irrelevant(
    first: EngineView,
    second: EngineView,
    first_report: ScanReportView,
    second_report: ScanReportView,
)
    requires
        first.request == second.request,
        first.completed.to_multiset() == second.completed.to_multiset(),
        first.reported_by(first_report),
        second.reported_by(second_report),
    ensures
        first_report.results == second_report.results,
{
    lemma_report_ignores_collection_order(first_report, second_report);
}

/// `entry` is what a call of `probe` for the entry's port gave.
pub open spec fn answered_by<P: Fn(u16) -> ProbeOutcome>(probe: P, entry: PortResultView) -> bool {
    exists|outcome: ProbeOutcome| #[trigger]
        call_ensures(probe, (entry.port,), outcome) && entry == port_result(
            entry.port,
            outcome is Open,
        )
}

proof fn lemma_swap_remove(s: Seq<u16>, k: int)
    requires
        0 <= k < s.len(),
        s.no_duplicates(),
    ensures
        s.update(k, s.last()).drop_last().to_set() == s.to_set().remove(s[k]),
        s.update(k, s.last()).drop_last().no_duplicates(),
{
    let t = s.update(k, s.last()).drop_last();
    assert forall|v: u16| t.to_set().contains(v) <==> s.to_set().remove(s[k]).contains(v) by {
        if t.contains(v) {
        }
        if s.contains(v) && v != s[k] {
            let i = choose|i: int| 0 <= i < s.len() && s[i] == v;
            if i == s.len() - 1 {
                assert(t[k] == v);
            } else {
                assert(t[i] == v);
            }
        }
    }
}

/// A scan in progress: the request, an admission gate that caps the running probes,
/// the ports that are running, and the results collected so far.
#[derive(Debug)]
pub struct ScanEngine {
    request: ScanRequest,
    gate: ConcurrencyGate,
    launched: usize,
    active: Vec<u16>,
    completed: Vec<PortResult>,
}

impl View for ScanEngine {
    type V = EngineView;

    closed spec fn view(&self) -> EngineView {
        EngineView {
            request: self.request@,
            launched: self.launched as nat,
            active: self.active@.to_set(),
            completed: result_views(self.completed@),
        }
    }
}

impl ScanEngine {
    /// The invariant of the engine. It says of the state what
    /// `EngineView::wf` says, and that its gate counts the running probes.
    pub closed spec fn wf(&self) -> bool {
        &&& self@.wf()
        &&& self.gate@.wf()
        &&& self.gate@.capacity == self.request@.concurrency
        &&& self.gate@.holders == self.active@.len()
        &&& self.active@.no_duplicates()
        &&& self.active@.to_set().len() == self.active@.len()
    }

    /// The engine's invariant gives the invariant of its state: at no time
    /// do more probes run than the request allows.
    pub proof fn lemma_wf(&self)
        requires
            self.wf(),
        ensures
            self@.wf(),
            self@.active.len() <= self@.request.concurrency,
    {
    }

    /// An engine for `request`, with nothing handed out yet.
    pub fn new(request: ScanRequest) -> (engine: ScanEngine)
        ensures
            engine.wf(),
            engine@ == EngineView::initial(request@),
    {
        let cap = request.concurrency();
        let gate = ConcurrencyGate::with_slots(cap);
        let engine = ScanEngine {
            request,
            gate,
            launched: 0,
            active: Vec::new(),
            completed: Vec::new(),
        };
        proof {
            assert(engine.active@.to_set() =~= Set::<u16>::empty());
            assert(result_views(engine.completed@) =~= Seq::<PortResultView>::empty());
        }
        engine
    }

    /// The request that is being scanned.
    pub fn request(&self) -> (request: ScanRequest)
        ensures
            request@ == self@.request,
    {
        self.request
    }

    /// The number of probes that are running.
    pub fn active_count(&self) -> (count: usize)
        requires
            self.wf(),
        ensures
            count == self@.active.len(),
            count <= self@.request.concurrency,
    {
        self.active.len()
    }

    /// The number of results collected so far.
    pub fn completed_count(&self) -> (count: usize)
        requires
            self.wf(),
        ensures
            count == self@.completed.len(),
    {
        self.completed.len()
    }

    /// Whether the probe of `port` is running.
    pub fn is_in_flight(&self, port: u16) -> (running: bool)
        requires
            self.wf(),
        ensures
            running == self@.active.contains(port),
    {
        self.position(port).is_some()
    }

    /// Whether every port of the range has its result.
    pub fn is_done(&self) -> (done: bool)
        requires
            self.wf(),
        ensures
            done == self@.is_done(),
    {
        self.completed.len() == self.request.port_count()
    }

    fn position(&self, port: u16) -> (at: Option<usize>)
        ensures
            match at {
                Some(k) => k < self.active@.len() && self.active@[k as int] == port,
                None => !self.active@.contains(port),
            },
    {
        let mut k: usize = 0;
        while k < self.active.len()
            invariant
                0 <= k <= self.active@.len(),
                forall|i: int| 0 <= i < k ==> self.active@[i] != port,
            decreases self.active@.len() - k,
        {
            if self.active[k] == port {
                return Some(k);
            }
            k = k + 1;
        }
        None
    }

    /// Decides what the driver does next, and counts a probe as running
    /// from the moment it is handed out. Ports are handed out lowest first,
    /// and only while a slot is free.
    pub fn next_action(&mut self) -> (action: ScanAction)
        requires
            old(self).wf(),
        ensures
            final(self).wf(),
            match action {
                ScanAction::Probe(port) => {
                    &&& old(self)@.can_launch()
                    &&& port == old(self)@.next_port()
                    &&& final(self)@ == old(self)@.launch()
                },
                ScanAction::Wait => {
                    &&& !old(self)@.can_launch()
                    &&& !old(self)@.is_done()
                    &&& final(self)@ == old(self)@
                },
                ScanAction::Finish => old(self)@.is_done() && final(self)@ == old(self)@,
            },
    {
        proof {
            lemma_progress(self@);
        }
        let count = self.request.port_count();
        if self.launched < count {
            let admitted = self.gate.try_acquire();
            if admitted {
                let port = (self.request.start_port() as usize + self.launched) as u16;
                proof {
                    broadcast use Seq::lemma_push_to_set_commute;

                    lemma_launch_wf(old(self)@);
                }
                self.active.push(port);
                self.launched = self.launched + 1;
                ScanAction::Probe(port)
            } else {
                ScanAction::Wait
            }
        } else if self.active.len() > 0 {
            ScanAction::Wait
        } else {
            ScanAction::Finish
        }
    }

    /// Records how the probe of `port` ended and frees its slot. The port
    /// must have a probe running; for any other port nothing changes and
    /// the completion is refused. A probe that failed in an unexpected way
    /// is recorded like any other that did not find the port open.
    pub fn complete(&mut self, port: u16, outcome: ProbeOutcome) -> (accepted: Result<
        (),
        ScanError,
    >)
        requires
            old(self).wf(),
        ensures
            final(self).wf(),
            match accepted {
                Ok(_) => {
                    &&& old(self)@.active.contains(port)
                    &&& final(self)@ == old(self)@.complete(port, outcome)
                },
                Err(error) => {
                    &&& error == ScanError::NotInFlight
                    &&& !old(self)@.active.contains(port)
                    &&& final(self)@ == old(self)@
                },
            },
    {
        match self.position(port) {
            None => Err(ScanError::NotInFlight),
            Some(k) => {
                let ghost before = self.active@;
                let ghost collected = self.completed@;
                proof {
                    lemma_complete_wf(old(self)@, port, outcome);
                    lemma_swap_remove(before, k as int);
                }
                self.active.swap_remove(k);
                let released = self.gate.release();
                assert(released);
                let result = PortResult::from_outcome(port, outcome);
                self.completed.push(result);
                proof {
                    assert(result_views(self.completed@) =~= result_views(collected).push(
                        result@,
                    ));
                }
                Ok(())
            },
        }
    }

    /// Runs what is left of the scan with `probe`, one port at a time: each
    /// port that is running or handed out is probed by one call of `probe`
    /// and its outcome recorded at once. The scan is done afterwards,
    /// whatever the outcomes are.
    pub fn run_with<P: Fn(u16) -> ProbeOutcome>(&mut self, probe: P)
        requires
            old(self).wf(),
            forall|port: u16|
                old(self)@.request.in_range(port) ==> call_requires(probe, (port,)),
        ensures
            final(self).wf(),
            final(self)@.is_done(),
            final(self)@.request == old(self)@.request,
            old(self)@.completed.len() <= final(self)@.completed.len(),
            forall|i: int|
                0 <= i < old(self)@.completed.len() ==> final(self)@.completed[i] == old(
                    self,
                )@.completed[i],
            forall|i: int|
                old(self)@.completed.len() <= i < final(self)@.completed.len() ==> answered_by(
                    probe,
                    #[trigger] final(self)@.completed[i],
                ),
    {
        let ghost given = self@.completed;
        while !self.is_done()
            invariant
                self.wf(),
                self@.request == old(self)@.request,
                forall|port: u16|
                    self@.request.in_range(port) ==> call_requires(probe, (port,)),
                given == old(self)@.completed,
                given.len() <= self@.completed.len(),
                forall|i: int| 0 <= i < given.len() ==> self@.completed[i] == given[i],
                forall|i: int|
                    given.len() <= i < self@.completed.len() ==> answered_by(
                        probe,
                        #[trigger] self@.completed[i],
                    ),
            decreases self@.steps_left(),
        {
            let ghost before = self@;
            proof {
                lemma_progress(before);
            }
            let port = match self.next_action() {
                ScanAction::Probe(port) => {
                    proof {
                        lemma_launch_wf(before);
                    }
                    port
                },
                ScanAction::Wait => self.active[0],
                ScanAction::Finish => vstd::pervasive::unreached(),
            };
            let ghost running = self@;
            assert(running.active.contains(port));
            assert(running.request.in_range(port));
            let outcome = probe(port);
            let accepted = self.complete(port, outcome);
            proof {
                lemma_complete_wf(running, port, outcome);
                assert(accepted is Ok);
            }
        }
    }

    /// Ends the scan. There is a report exactly when every port of the range
    /// has its result; it lists the collected results by port, whatever the
    /// order in which they came in.
    pub fn into_report(self, elapsed_ms: u64) -> (report: Option<ScanReport>)
        requires
            self.wf(),
        ensures
            report is Some <==> self@.is_done(),
            match report {
                Some(r) => self@.reported_by(r@) && r@.elapsed_ms == elapsed_ms,
                None => true,
            },
    {
        proof {
            lemma_done_covers(self@);
        }
        ScanReport::assemble(self.request, self.completed, elapsed_ms)
    }
}

/// Scans `request` from start to end with `probe`, one port at a time, and
/// reports it. `elapsed_ms` is asked once, when the last probe has ended,
/// for the time the scan took. A valid request always gets its report: one
/// result for each port of the range, in port order, each what `probe`
/// gave for its port.
pub fn scan_with<P: Fn(u16) -> ProbeOutcome, T: FnOnce() -> u64>(
    request: ScanRequest,
    probe: P,
    elapsed_ms: T,
) -> (report: ScanReport)
    requires
        forall|port: u16| request@.in_range(port) ==> call_requires(probe, (port,)),
        call_requires(elapsed_ms, ()),
    ensures
        report@.wf(),
        report@.request == request@,
        call_ensures(elapsed_ms, (), report@.elapsed_ms),
        forall|i: int|
            0 <= i < report@.results.len() ==> answered_by(probe, #[trigger] report@.results[i]),
{
    let mut engine = ScanEngine::new(request);
    engine.run_with(probe);
    let ghost done = engine@;
    let elapsed = elapsed_ms();
    let report = match engine.into_report(elapsed) {
        Some(report) => report,
        None => vstd::pervasive::unreached(),
    };
    proof {
        broadcast use vstd::seq_lib::group_to_multiset_ensures;

        assert forall|i: int| 0 <= i < report@.results.len() implies answered_by(
            probe,
            #[trigger] report@.results[i],
        ) by {
            assert(done.completed.to_multiset().count(report@.results[i]) > 0);
        }
    }
    report
}

} // verus!
