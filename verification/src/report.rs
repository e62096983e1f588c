//! The report of a finished scan, and what is shown or exported from it.

use vstd::prelude::*;
use vstd::seq_lib::group_to_multiset_ensures;
use crate::order::{
    ascending, covers, in_port_order, lemma_cover_of_permutation, lemma_port_order_covers,
    lemma_sorted_cover_is_port_order, sort_by_port,
};
use crate::probe::{label_text, port_result, result_views, PortResult, PortResultView};
use crate::request::{ScanRequest, ScanRequestView};
use crate::text::{decimal_string, decimal_text};

verus! {

/// What an exported record holds, as plain values.
pub struct ScanResultView {
    pub port: u16,
    pub status: Seq<char>,
    pub service_guess: Seq<char>,
}

/// One record of an exported report. Every scanned port gives one, open or
/// not.
#[derive(Clone, Debug, PartialEq, Eq)]
pub struct ScanResult {
    pub port: u16,
    pub status: String,
    pub service_guess: String,
}

impl View for ScanResult {
    type V = ScanResultView;

    open spec fn view(&self) -> ScanResultView {
        ScanResultView {
            port: self.port,
            status: self.status@,
            service_guess: self.service_guess@,
        }
    }
}

/// The status written for a port.
pub open spec fn status_text(is_open: bool) -> Seq<char> {
    if is_open {
        "open"@
    } else {
        "closed"@
    }
}

/// The record exported for a result. A port without a service label is
/// exported as `unknown`, never with an empty label.
pub open spec fn record_of(result: PortResultView) -> ScanResultView {
    ScanResultView {
        port: result.port,
        status: status_text(result.is_open),
        service_guess: label_text(result.service),
    }
}

/// The views of a sequence of records, in the same order.
pub open spec fn record_views(records: Seq<ScanResult>) -> Seq<ScanResultView> {
    records.map_values(|r: ScanResult| r@)
}

/// The results of open ports among `results`, in the same order.
pub open spec fn open_of(results: Seq<PortResultView>) -> Seq<PortResultView> {
    results.filter(|r: PortResultView| r.is_open)
}

/// The records exported for `results`, in the same order.
pub open spec fn records_of(results: Seq<PortResultView>) -> Seq<ScanResultView> {
    results.map_values(|r: PortResultView| record_of(r))
}

/// The summary line for `scanned` ports of which `open` were open.
pub open spec fn summary_text(scanned: nat, open: nat) -> Seq<char> {
    "Scanned: "@ + decimal_text(scanned) + " ports, Found: "@ + decimal_text(open) + " open"@
}

/// What a `ScanReport` holds, as plain values.
pub struct ScanReportView {
    pub request: ScanRequestView,
    pub results: Seq<PortResultView>,
    pub elapsed_ms: u64,
}

impl ScanReportView {
    /// A report answers a valid request with one result for each port of
    /// the range, in port order, and each result is the one that belongs to
    /// its port and to what the probe found.
    pub open spec fn wf(self) -> bool {
        &&& self.request.valid()
        &&& in_port_order(self.request, self.results)
        &&& forall|i: int|
            0 <= i < self.results.len() ==> (#[trigger] self.results[i]) == port_result(
                self.results[i].port,
                self.results[i].is_open,
            )
    }

    /// The number of open ports.
    pub open spec fn open_count(self) -> nat {
        open_of(self.results).len()
    }

    /// The ports that the report lists as open.
    pub open spec fn open_ports(self) -> Set<u16> {
        Set::new(
            |port: u16|
                exists|i: int|
                    0 <= i < self.results.len() && (#[trigger] self.results[i]).port == port
                        && self.results[i].is_open,
        )
    }
}

/// The complete result of one scan: one result for every requested port,
/// lowest port first, and the time the scan took.
#[derive(Debug)]
pub struct ScanReport {
    request: ScanRequest,
    results: Vec<PortResult>,
    elapsed_ms: u64,
}

impl View for ScanReport {
    type V = ScanReportView;

    closed spec fn view(&self) -> ScanReportView {
        ScanReportView {
            request: self.request@,
            results: result_views(self.results@),
            elapsed_ms: self.elapsed_ms,
        }
    }
}

impl ScanReport {
    #[verifier::type_invariant]
    spec fn complete(self) -> bool {
        self@.wf()
    }

    /// Builds the report of a scan from the results as they were collected,
    /// in whatever order the probes finished. There is a report exactly when
    /// the results hold each port of the request's range once; then the
    /// report lists these results by port.
    pub fn assemble(request: ScanRequest, results: Vec<PortResult>, elapsed_ms: u64) -> (report:
        Option<ScanReport>)
        ensures
            report is Some <==> covers(request@, result_views(results@)),
            match report {
                Some(r) => {
                    &&& r@.wf()
                    &&& r@.request == request@
                    &&& r@.elapsed_ms == elapsed_ms
                    &&& r@.results.to_multiset() == result_views(results@).to_multiset()
                },
                None => true,
            },
    {
        let ghost given = result_views(results@);
        let sorted = sort_by_port(results);
        let ghost views = result_views(sorted@);
        let count = request.port_count();
        let start = request.start_port();
        proof {
            if covers(request@, given) {
                lemma_cover_of_permutation(request@, given, views);
                lemma_sorted_cover_is_port_order(request@, views);
            }
        }
        if sorted.len() != count {
            return None;
        }
        let mut i: usize = 0;
        while i < count
            invariant
                0 <= i <= count,
                count == sorted@.len(),
                count == request@.port_count(),
                start == request@.start,
                views == result_views(sorted@),
                given == result_views(results@),
                covers(request@, given) ==> in_port_order(request@, views),
                forall|k: int| 0 <= k < i ==> (#[trigger] views[k]).port == start + k,
                forall|k: int|
                    0 <= k < i ==> (#[trigger] views[k]) == port_result(
                        views[k].port,
                        views[k].is_open,
                    ),
            decreases count - i,
        {
            let port = sorted[i].port();
            assert(views[i as int] == sorted@[i as int]@);
            if port as usize != start as usize + i {
                return None;
            }
            i = i + 1;
        }
        proof {
            lemma_port_order_covers(request@, views);
            lemma_cover_of_permutation(request@, views, given);
        }
        Some(ScanReport { request, results: sorted, elapsed_ms })
    }

    /// The request that the report answers.
    pub fn request(&self) -> (request: ScanRequest)
        ensures
            request@ == self@.request,
    {
        self.request
    }

    /// The results, one for each port of the range, lowest port first.
    pub fn results(&self) -> (results: &Vec<PortResult>)
        ensures
            result_views(results@) == self@.results,
            self@.wf(),
    {
        proof {
            use_type_invariant(self);
        }
        &self.results
    }

    /// The time the scan took, in milliseconds.
    pub fn elapsed_ms(&self) -> (ms: u64)
        ensures
            ms == self@.elapsed_ms,
    {
        self.elapsed_ms
    }

    /// The number of ports found open.
    pub fn open_count(&self) -> (count: usize)
        ensures
            count == self@.open_count(),
            count <= self@.results.len(),
    {
        let ghost views = self@.results;
        let mut count: usize = 0;
        let mut i: usize = 0;
        while i < self.results.len()
            invariant
                0 <= i <= self.results@.len(),
                views == result_views(self.results@),
                count == open_of(views.take(i as int)).len(),
                count <= i,
            decreases self.results@.len() - i,
        {
            proof {
                broadcast use Seq::lemma_filter_push;

                assert(views.take(i + 1) =~= views.take(i as int).push(views[i as int]));
            }
            if self.results[i].is_open() {
                count = count + 1;
            }
            i = i + 1;
        }
        assert(views.take(i as int) =~= views);
        count
    }

    /// The results of the open ports, lowest port first.
    pub fn open_results(&self) -> (open: Vec<PortResult>)
        ensures
            result_views(open@) == open_of(self@.results),
    {
        let ghost views = self@.results;
        let mut open: Vec<PortResult> = Vec::new();
        let mut i: usize = 0;
        while i < self.results.len()
            invariant
                0 <= i <= self.results@.len(),
                views == result_views(self.results@),
                result_views(open@) == open_of(views.take(i as int)),
            decreases self.results@.len() - i,
        {
            proof {
                broadcast use Seq::lemma_filter_push;

                assert(views.take(i + 1) =~= views.take(i as int).push(views[i as int]));
            }
            if self.results[i].is_open() {
                let item = self.results[i].clone();
                open.push(item);
            }
            i = i + 1;
        }
        assert(views.take(i as int) =~= views);
        open
    }

    /// The closing line of a printed report: how many ports were scanned
    /// and how many of them were open.
    pub fn summary_line(&self) -> (line: String)
        ensures
            line@ == summary_text(self@.results.len(), self@.open_count()),
    {
        let scanned = self.results.len();
        let open = self.open_count();
        let mut line = "Scanned: ".to_owned();
        line.append(decimal_string(scanned as u64).as_str());
        line.append(" ports, Found: ");
        line.append(decimal_string(open as u64).as_str());
        line.append(" open");
        line
    }

    /// The records to export, one for each scanned port, lowest port first.
    pub fn export_records(&self) -> (records: Vec<ScanResult>)
        ensures
            record_views(records@) == records_of(self@.results),
    {
        let ghost views = self@.results;
        let mut records: Vec<ScanResult> = Vec::new();
        let mut i: usize = 0;
        while i < self.results.len()
            invariant
                0 <= i <= self.results@.len(),
                views == result_views(self.results@),
                record_views(records@) == records_of(views.take(i as int)),
            decreases self.results@.len() - i,
        {
            let result = &self.results[i];
            let status = if result.is_open() {
                "open".to_owned()
            } else {
                "closed".to_owned()
            };
            let record = ScanResult {
                port: result.port(),
                status,
                service_guess: result.label(),
            };
            records.push(record);
            proof {
                assert(records_of(views.take(i + 1)) =~= records_of(views.take(i as int)).push(
                    record_of(views[i as int]),
                ));
            }
            i = i + 1;
        }
        records
    }
}

/// The order in which the results were collected does not show in a report:
/// two reports of one request that hold the same results hold them in the
/// same order.
pub proof fn lemma_report_ignores_collection_order(first: ScanReportView, second: ScanReportView)
    requires
        first.wf(),
        second.wf(),
        first.request == second.request,
        first.results.to_multiset() == second.results.to_multiset(),
    ensures
        first.results == second.results,
        ascending(first.results),
{
    broadcast use group_to_multiset_ensures;

    assert forall|i: int| 0 <= i < first.results.len() implies first.results[i]
        == second.results[i] by {
        assert(second.results.to_multiset().count(first.results[i]) > 0);
    }
}

/// Scanning twice gives the same report when the same ports are open both
/// times: two reports of one request that list the same ports as open hold
/// the same results, labels included.
pub proof fn lemma_same_open_ports_same_results(first: ScanReportView, second: ScanReportView)
    requires
        first.wf(),
        second.wf(),
        first.request == second.request,
        first.open_ports() == second.open_ports(),
    ensures
        first.results == second.results,
{
    assert forall|i: int| 0 <= i < first.results.len() implies first.results[i]
        == second.results[i] by {
        let port = first.results[i].port;
        if first.results[i].is_open {
            assert(first.open_ports().contains(port));
        }
        if second.results[i].is_open {
            assert(second.open_ports().contains(port));
        }
    }
}

/// A report holds one result for each port of the range and none else, so
/// no port is missing and none is listed twice.
pub proof fn lemma_full_coverage(report: ScanReportView)
    requires
        report.wf(),
    ensures
        report.results.len() == report.request.end - report.request.start + 1,
        covers(report.request, report.results),
        forall|port: u16|
            report.request.in_range(port) ==> (#[trigger] report.results[port
                - report.request.start]).port == port,
        report.open_count() <= report.results.len(),
{
    lemma_port_order_covers(report.request, report.results);
    report.results.lemma_filter_len(|r: PortResultView| r.is_open);
}

} // verus!
