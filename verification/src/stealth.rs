//! Scanning in batches: the ports are cut into runs of at most a fixed
//! length, and the probes of one run all end before the next run starts.
//!
//! Each probe is an ordinary full connection attempt like any other:
//! nothing about it is hidden from the target.

use vstd::prelude::*;

verus! {

/// How long each probe of a batch may take, in milliseconds.
pub const BATCH_PROBE_TIMEOUT_MS: u64 = 150;

/// The ports cut into batches of `size` ports. Every batch but the last
/// holds exactly `size` ports, the last one the rest; no ports, no batch.
pub open spec fn batches_of(ports: Seq<u16>, size: nat) -> Seq<Seq<u16>>
    decreases ports.len(),
{
    if size == 0 || ports.len() == 0 {
        Seq::empty()
    } else if ports.len() <= size {
        seq![ports]
    } else {
        seq![ports.take(size as int)] + batches_of(ports.skip(size as int), size)
    }
}

/// The batches as plain sequences, in the same order.
pub open spec fn batch_views(batches: Seq<Vec<u16>>) -> Seq<Seq<u16>> {
    batches.map_values(|batch: Vec<u16>| batch@)
}

/// No batch is empty and none is longer than `size`, so no more than
/// `size` probes of a batched scan run at once.
pub proof fn lemma_batches_bounded(ports: Seq<u16>, size: nat)
    requires
        size >= 1,
    ensures
        forall|k: int|
            0 <= k < batches_of(ports, size).len() ==> 1 <= (#[trigger] batches_of(
                ports,
                size,
            )[k]).len() <= size,
    decreases ports.len(),
{
    if ports.len() > size {
        let rest = batches_of(ports.skip(size as int), size);
        lemma_batches_bounded(ports.skip(size as int), size);
        assert forall|k: int| 0 <= k < batches_of(ports, size).len() implies 1 <= (
        #[trigger] batches_of(ports, size)[k]).len() <= size by {
            if k > 0 {
                assert(batches_of(ports, size)[k] == rest[k - 1]);
            }
        }
    }
}

/// The batches, one after the other, are the ports in their order: a
/// batched scan probes every port once.
pub proof fn lemma_batches_cover(ports: Seq<u16>, size: nat)
    requires
        size >= 1,
    ensures
        batches_of(ports, size).flatten() == ports,
    decreases ports.len(),
{
    broadcast use vstd::seq_lib::group_seq_properties;

    let tail = ports.skip(size as int);
    if ports.len() == 0 {
    } else if ports.len() <= size {
        assert(seq![ports].flatten() =~= ports) by {
            seq![ports].lemma_flatten_one_element();
        }
    } else {
        lemma_batches_bounded(ports, size);
        lemma_batches_cover(tail, size);
        let head = seq![ports.take(size as int)];
        let rest = batches_of(tail, size);
        assert((head + rest).flatten() =~= head.flatten() + rest.flatten()) by {
            vstd::seq_lib::lemma_flatten_concat(head, rest);
        }
        assert(head.flatten() =~= ports.take(size as int)) by {
            head.lemma_flatten_one_element();
        }
    }
}

/// A scanner that probes an IPv4 target in batches.
#[derive(Clone, Copy, Debug)]
pub struct StealthScanner {
    target: [u8; 4],
    concurrency: usize,
}

impl StealthScanner {
    /// The four octets of the target address.
    pub closed spec fn spec_target(&self) -> [u8; 4] {
        self.target
    }

    /// The length of a full batch.
    pub closed spec fn spec_concurrency(&self) -> usize {
        self.concurrency
    }

    /// A scanner for the target with these octets that probes up to
    /// `concurrency` ports at a time.
    pub fn new(target: [u8; 4], concurrency: usize) -> (scanner: StealthScanner)
        ensures
            scanner.spec_target() == target,
            scanner.spec_concurrency() == concurrency,
    {
        StealthScanner { target, concurrency }
    }

    /// The four octets of the target address.
    #[verifier::when_used_as_spec(spec_target)]
    pub fn target(&self) -> (target: [u8; 4])
        ensures
            target == self.spec_target(),
    {
        self.target
    }

    /// The length of a full batch.
    #[verifier::when_used_as_spec(spec_concurrency)]
    pub fn concurrency(&self) -> (concurrency: usize)
        ensures
            concurrency == self.spec_concurrency(),
    {
        self.concurrency
    }

    /// Cuts `ports` into the batches to probe, in order. The batch length
    /// must be at least one.
    pub fn batches(&self, ports: &Vec<u16>) -> (batches: Vec<Vec<u16>>)
        requires
            self.spec_concurrency() >= 1,
        ensures
            batch_views(batches@) == batches_of(ports@, self.spec_concurrency() as nat),
    {
        let size = self.concurrency;
        let ghost all = batches_of(ports@, size as nat);
        let mut batches: Vec<Vec<u16>> = Vec::new();
        let mut from: usize = 0;
        proof {
            assert(ports@.skip(0) =~= ports@);
        }
        while from < ports.len()
            invariant
                0 <= from <= ports@.len(),
                size >= 1,
                all == batches_of(ports@, size as nat),
                batch_views(batches@) + batches_of(ports@.skip(from as int), size as nat) == all,
            decreases ports@.len() - from,
        {
            let upto = if ports.len() - from > size {
                from + size
            } else {
                ports.len()
            };
            let mut batch: Vec<u16> = Vec::new();
            let mut at: usize = from;
            while at < upto
                invariant
                    from <= at <= upto <= ports@.len(),
                    batch@ == ports@.subrange(from as int, at as int),
                decreases upto - at,
            {
                batch.push(ports[at]);
                at = at + 1;
            }
            let ghost rest = ports@.skip(from as int);
            batches.push(batch);
            proof {
                if rest.len() > size {
                    assert(batch@ =~= rest.take(size as int));
                    assert(rest.skip(size as int) =~= ports@.skip(upto as int));
                }
                assert(batch_views(batches@) + batches_of(ports@.skip(upto as int), size as nat)
                    =~= all);
            }
            from = upto;
        }
        batches
    }
}

} // verus!
