//! Putting collected results into port order.
//!
//! Probes finish in no particular order. The report lists them by port, so
//! the collected results are sorted, and a sorted collection that holds each
//! port of the range once has the port `start + i` at index `i`.

use vstd::multiset::*;
use vstd::prelude::*;
use vstd::seq_lib::*;
use crate::probe::{result_views, PortResult, PortResultView};
use crate::request::ScanRequestView;

verus! {

/// Ports never go down along the sequence.
pub open spec fn ascending(results: Seq<PortResultView>) -> bool {
    forall|i: int, j: int| 0 <= i < j < results.len() ==> results[i].port <= results[j].port
}

/// The results hold every port of the request's range exactly once: there
/// are as many results as ports, each is about a port of the range, and no
/// two are about the same port.
pub open spec fn covers(request: ScanRequestView, results: Seq<PortResultView>) -> bool {
    &&& results.len() == request.port_count()
    &&& forall|i: int| 0 <= i < results.len() ==> request.in_range(#[trigger] results[i].port)
    &&& forall|i: int, j: int|
        0 <= i < j < results.len() ==> results[i].port != results[j].port
}

/// The results are the range in port order: index `i` is about port
/// `start + i`, up to the last port.
pub open spec fn in_port_order(request: ScanRequestView, results: Seq<PortResultView>) -> bool {
    &&& results.len() == request.port_count()
    &&& forall|i: int| 0 <= i < results.len() ==> (#[trigger] results[i]).port == request.start + i
}

proof fn lemma_at_least(results: Seq<PortResultView>, low: int, i: int)
    requires
        0 <= i < results.len(),
        results[0].port >= low,
        forall|a: int, b: int| 0 <= a < b < results.len() ==> results[a].port < results[b].port,
    ensures
        results[i].port >= low + i,
    decreases i,
{
    if i > 0 {
        lemma_at_least(results, low, i - 1);
    }
}

proof fn lemma_at_most(results: Seq<PortResultView>, high: int, i: int)
    requires
        0 <= i < results.len(),
        results[results.len() - 1].port <= high,
        forall|a: int, b: int| 0 <= a < b < results.len() ==> results[a].port < results[b].port,
    ensures
        results[i].port <= high - (results.len() - 1 - i),
    decreases results.len() - i,
{
    if i < results.len() - 1 {
        lemma_at_most(results, high, i + 1);
    }
}

/// Sorted results that cover the range are the range in port order.
pub proof fn lemma_sorted_cover_is_port_order(
    request: ScanRequestView,
    results: Seq<PortResultView>,
)
    requires
        ascending(results),
        covers(request, results),
    ensures
        in_port_order(request, results),
{
    assert forall|i: int| 0 <= i < results.len() implies (#[trigger] results[i]).port
        == request.start + i by {
        lemma_at_least(results, request.start as int, i);
        lemma_at_most(results, request.end as int, i);
    }
}

/// Results in port order are sorted and cover the range.
pub proof fn lemma_port_order_covers(request: ScanRequestView, results: Seq<PortResultView>)
    requires
        in_port_order(request, results),
    ensures
        covers(request, results),
        ascending(results),
{
}

/// Covering the range does not depend on the order of the results.
pub proof fn lemma_cover_of_permutation(
    request: ScanRequestView,
    first: Seq<PortResultView>,
    second: Seq<PortResultView>,
)
    requires
        first.to_multiset() == second.to_multiset(),
        covers(request, first),
    ensures
        covers(request, second),
{
    broadcast use group_to_multiset_ensures;

    assert(first.len() == first.to_multiset().len());
    first.lemma_multiset_has_no_duplicates();
    second.lemma_multiset_has_no_duplicates_conv();
    assert forall|i: int| 0 <= i < second.len() implies request.in_range(
        #[trigger] second[i].port,
    ) by {
        assert(first.to_multiset().count(second[i]) > 0);
    }
    assert forall|i: int, j: int| 0 <= i < j < second.len() implies second[i].port
        != second[j].port by {
        assert(first.to_multiset().count(second[i]) > 0);
        assert(first.to_multiset().count(second[j]) > 0);
    }
}

proof fn lemma_nothing_collected(results: Seq<PortResultView>)
    requires
        results.len() == 0,
    ensures
        results.to_multiset() == Multiset::<PortResultView>::empty(),
{
    broadcast use group_to_multiset_ensures;

    lemma_multiset_empty_len(results.to_multiset());
}

/// The items of `items`, last first.
fn reversed(items: Vec<PortResult>) -> (out: Vec<PortResult>)
    ensures
        out@.len() == items@.len(),
        forall|i: int| 0 <= i < out@.len() ==> out@[i] == items@[items@.len() - 1 - i],
        result_views(out@).to_multiset() == result_views(items@).to_multiset(),
{
    let ghost all = result_views(items@).to_multiset();
    let ghost given = items@;
    let mut rest = items;
    let mut out: Vec<PortResult> = Vec::new();
    proof {
        lemma_nothing_collected(result_views(out@));
    }
    while rest.len() > 0
        invariant
            out@.len() + rest@.len() == given.len(),
            rest@ == given.take(rest@.len() as int),
            forall|i: int| 0 <= i < out@.len() ==> out@[i] == given[given.len() - 1 - i],
            result_views(out@).to_multiset().add(result_views(rest@).to_multiset()) == all,
        decreases rest.len(),
    {
        let ghost before_rest = rest@;
        let ghost before_out = out@;
        let item = rest.pop().unwrap();
        out.push(item);
        proof {
            broadcast use group_to_multiset_ensures;

            assert(result_views(before_rest) =~= result_views(rest@).push(item@));
            assert(result_views(out@) =~= result_views(before_out).push(item@));
            assert(result_views(out@).to_multiset().add(result_views(rest@).to_multiset())
                =~= all);
        }
    }
    proof {
        lemma_nothing_collected(result_views(rest@));
    }
    out
}

/// Sorts results by port, lowest first. Results that are already nearly in
/// order, as those of a scan are, take little work.
pub fn sort_by_port(results: Vec<PortResult>) -> (sorted: Vec<PortResult>)
    ensures
        ascending(result_views(sorted@)),
        result_views(sorted@).to_multiset() == result_views(results@).to_multiset(),
{
    let ghost all = result_views(results@).to_multiset();
    let mut rest = reversed(results);
    let mut sorted: Vec<PortResult> = Vec::new();
    proof {
        lemma_nothing_collected(result_views(sorted@));
        assert(result_views(sorted@).to_multiset().add(result_views(rest@).to_multiset())
            =~= all);
    }
    while rest.len() > 0
        invariant
            ascending(result_views(sorted@)),
            result_views(sorted@).to_multiset().add(result_views(rest@).to_multiset()) == all,
        decreases rest.len(),
    {
        let ghost before_rest = rest@;
        let ghost before = sorted@;
        let item = rest.pop().unwrap();
        let port = item.port();
        let mut at: usize = sorted.len();
        while at > 0 && sorted[at - 1].port() > port
            invariant
                sorted@ == before,
                at <= sorted@.len(),
                forall|k: int| at <= k < sorted@.len() ==> sorted@[k]@.port > port,
            decreases at,
        {
            at = at - 1;
        }
        sorted.insert(at, item);
        proof {
            broadcast use group_to_multiset_ensures;

            let old_views = result_views(before);
            let new_views = result_views(sorted@);
            assert(new_views =~= old_views.insert(at as int, item@));
            assert(result_views(before_rest) =~= result_views(rest@).push(item@));
        }
    }
    proof {
        lemma_nothing_collected(result_views(rest@));
    }
    sorted
}

} // verus!
