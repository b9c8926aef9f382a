//! The exchange-pool engines: the swap indexer's per-batch pipeline
//! and the swap stream's per-record step.  Narrowing by pool happens in
//! the query itself; there is no client-side filter here.

use vstd::prelude::*;
use crate::primitives::Address;
use crate::sequencer::{sort_swap_events, sorted_by_swap_key, swap_key_is};
use crate::stream::{LogQuery, SubscriptionQuery};
use crate::types::log::RawLogRecord;
use crate::types::uniswap::{
    SwapEvent, decode_swap_event, spec_is_swap, spec_swap_matches, spec_swap_shape_ok,
    swap_signature, swap_signature_hash,
};

verus! {

/// The decode relation for swaps: `out` is exactly the events of the
/// records that decode, in order, each decoded from its record.
pub open spec fn spec_swaps_decoded(logs: Seq<RawLogRecord>, out: Seq<SwapEvent>) -> bool
    decreases logs.len(),
{
    if logs.len() == 0 {
        out.len() == 0
    } else {
        let l = logs.last();
        if spec_is_swap(&l) && spec_swap_shape_ok(&l) {
            &&& out.len() > 0
            &&& spec_swap_matches(out.last(), &l)
            &&& spec_swaps_decoded(logs.drop_last(), out.drop_last())
        } else {
            spec_swaps_decoded(logs.drop_last(), out)
        }
    }
}

/// Clone an address list element-wise.
fn clone_addresses(addrs: &Vec<Address>) -> (r: Vec<Address>)
    ensures
        r@.len() == addrs@.len(),
        forall|i: int| 0 <= i < addrs@.len() ==> (#[trigger] r@[i])@ == addrs@[i]@,
{
    let mut r: Vec<Address> = Vec::new();
    let n = addrs.len();
    let mut i: usize = 0;
    while i < n
        invariant
            i <= n,
            n == addrs@.len(),
            r@.len() == i,
            forall|j: int| 0 <= j < i ==> (#[trigger] r@[j])@ == addrs@[j]@,
        decreases n - i,
    {
        r.push(addrs[i].clone());
        i = i + 1;
    }
    r
}

/// The historical indexer for swap events across a set of pools.
///
/// An indexer over zero pools is valid and yields nothing, because its
/// queries name no emitting contract.
#[derive(Debug)]
pub struct UniswapSwapIndexer {
    /// The pools whose swaps are indexed.
    pub pool_addresses: Vec<Address>,
}

impl UniswapSwapIndexer {
    /// An indexer over the given pools.
    pub fn new(pool_addresses: Vec<Address>) -> (r: UniswapSwapIndexer)
        ensures
            r.pool_addresses@ == pool_addresses@,
    {
        UniswapSwapIndexer { pool_addresses }
    }

    /// The pools whose swaps are indexed.
    pub fn pool_addresses(&self) -> (r: &Vec<Address>)
        ensures
            r@ == self.pool_addresses@,
    {
        &self.pool_addresses
    }

    /// The bounded query that fetches swaps over a range.
    pub fn fetch_query(&self, from_block: u64, to_block: u64) -> (q: LogQuery)
        ensures
            q.from_block == from_block,
            q.to_block == to_block,
            q.addresses@.len() == self.pool_addresses@.len(),
            forall|i: int|
                0 <= i < self.pool_addresses@.len() ==> (#[trigger] q.addresses@[i])@
                    == self.pool_addresses@[i]@,
            q.signatures@.len() == 1 && q.signatures@[0]@ == swap_signature(),
    {
        let mut signatures = Vec::new();
        signatures.push(swap_signature_hash());
        LogQuery {
            from_block,
            to_block,
            addresses: clone_addresses(&self.pool_addresses),
            signatures,
        }
    }

    /// Decode and order one batch of raw records.
    ///
    /// Records that are not well-shaped swaps are dropped; the rest come
    /// out sorted chronologically and stably.  The ghost result is the
    /// decoded events in arrival order; the visible result is exactly
    /// its stable sort.
    pub fn process_logs(&self, logs: Vec<RawLogRecord>) -> (r: (
        Vec<SwapEvent>,
        Ghost<Seq<SwapEvent>>,
    ))
        ensures
            spec_swaps_decoded(logs@, r.1@),
            sorted_by_swap_key(r.0@),
            forall|k: (u64, u64, u64)| #[trigger]
                r.0@.filter(swap_key_is(k)) == r.1@.filter(swap_key_is(k)),
            r.0@.to_multiset() == r.1@.to_multiset(),
            r.0@.len() == r.1@.len(),
    {
        let ghost orig_logs = logs@;
        let mut rest = logs;
        let mut kept: Vec<SwapEvent> = Vec::new();
        let ghost mut done: Seq<RawLogRecord> = Seq::empty();
        proof {
            assert(orig_logs =~= done + rest@);
        }
        while rest.len() > 0
            invariant
                orig_logs == done + rest@,
                spec_swaps_decoded(done, kept@),
            decreases rest@.len(),
        {
            let ghost rest_before = rest@;
            let l = rest.remove(0);
            let ghost gl = l;
            proof {
                assert(rest_before =~= seq![l] + rest@);
                assert(done + rest_before =~= done.push(l) + rest@);
                assert(done.push(gl).drop_last() =~= done);
                assert(done.push(gl).last() == gl);
            }
            let ghost kept_before = kept@;
            match decode_swap_event(l) {
                Ok(ev) => {
                    kept.push(ev);
                    proof {
                        assert(kept@.drop_last() =~= kept_before);
                        assert(spec_swaps_decoded(done.push(gl), kept@));
                    }
                },
                Err(e) => {
                    proof {
                        if e == crate::types::log::DecodeError::UnknownSignature {
                            assert(!spec_is_swap(&gl));
                        } else {
                            assert(e == crate::types::log::DecodeError::MalformedPayload);
                        }
                        assert(spec_swaps_decoded(done.push(gl), kept@));
                    }
                },
            }
            proof {
                done = done.push(gl);
            }
        }
        proof {
            assert(done =~= orig_logs);
        }
        let ghost mid = kept@;
        let sorted = sort_swap_events(kept);
        (sorted, Ghost(mid))
    }
}

/// The real-time stream configuration for swap events across a set of
/// pools.
#[derive(Debug)]
pub struct UniswapSwapStream {
    /// The pools whose swaps are streamed.
    pub pool_addresses: Vec<Address>,
}

impl UniswapSwapStream {
    /// A stream over the given pools.
    pub fn new(pool_addresses: Vec<Address>) -> (r: UniswapSwapStream)
        ensures
            r.pool_addresses@ == pool_addresses@,
    {
        UniswapSwapStream { pool_addresses }
    }

    /// The subscription the configuration calls for.
    pub fn subscription_query(&self) -> (q: SubscriptionQuery)
        ensures
            q.addresses@.len() == self.pool_addresses@.len(),
            forall|i: int|
                0 <= i < self.pool_addresses@.len() ==> (#[trigger] q.addresses@[i])@
                    == self.pool_addresses@[i]@,
            q.signatures@.len() == 1 && q.signatures@[0]@ == swap_signature(),
    {
        let mut signatures = Vec::new();
        signatures.push(swap_signature_hash());
        SubscriptionQuery { addresses: clone_addresses(&self.pool_addresses), signatures }
    }

    /// What becomes of one pushed record: the decoded swap when the
    /// record is a well-shaped swap, nothing otherwise.
    pub fn stream_step(&self, log: RawLogRecord) -> (r: Option<SwapEvent>)
        ensures
            r is Some <==> (spec_is_swap(&log) && spec_swap_shape_ok(&log)),
            r matches Some(ev) ==> spec_swap_matches(ev, &log),
    {
        let ghost gl = log;
        match decode_swap_event(log) {
            Ok(ev) => Some(ev),
            Err(e) => {
                proof {
                    if e == crate::types::log::DecodeError::UnknownSignature {
                        assert(!spec_is_swap(&gl));
                    } else {
                        assert(e == crate::types::log::DecodeError::MalformedPayload);
                    }
                }
                None
            },
        }
    }
}

} // verus!
