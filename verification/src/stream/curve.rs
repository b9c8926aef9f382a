//! The bonding-curve engines: the historical indexer's per-batch
//! pipeline and the real-time stream's per-record step.

use vstd::prelude::*;
use crate::constants::{bonding_curve_address_bytes, bonding_curve_contract_address};
use crate::filter::{AddressFilterSet, spec_passes};
use crate::primitives::{Address, B256};
use crate::sequencer::{key_is, sort_events, sorted_by_key};
use crate::stream::{LogQuery, SubscriptionQuery};
use crate::types::bonding_curve::{
    BondingCurveEvent, EventType, decode_bonding_curve_event, lemma_matched_event_token,
    spec_curve_event_matches, spec_curve_kind, spec_curve_shape_ok, spec_log_token, spec_signature,
};
use crate::types::log::RawLogRecord;

verus! {

/// Whether the codec and the client-side filter together keep a record:
/// its first topic names a kind, the payload has that kind's shape, and
/// the record's token passes the filter.
pub open spec fn spec_log_kept(log: &RawLogRecord, filter: &Option<AddressFilterSet>) -> bool {
    match spec_curve_kind(log) {
        Some(k) => spec_curve_shape_ok(k, log) && spec_passes(filter, spec_log_token(k, log)),
        None => false,
    }
}

/// The decode-and-filter relation: `out` is exactly the events of the
/// kept records of `logs`, in order, each decoded from its record.
pub open spec fn spec_decoded_filtered(
    logs: Seq<RawLogRecord>,
    filter: Option<AddressFilterSet>,
    out: Seq<BondingCurveEvent>,
) -> bool
    decreases logs.len(),
{
    if logs.len() == 0 {
        out.len() == 0
    } else {
        let l = logs.last();
        if spec_log_kept(&l, &filter) {
            &&& out.len() > 0
            &&& (spec_curve_kind(&l) matches Some(k) && out.last().spec_event_type() == k)
            &&& spec_curve_event_matches(&out.last(), &l)
            &&& spec_decoded_filtered(logs.drop_last(), filter, out.drop_last())
        } else {
            spec_decoded_filtered(logs.drop_last(), filter, out)
        }
    }
}

/// Every event of a decode-and-filter result passes the filter.
pub proof fn lemma_decoded_filtered_passes(
    logs: Seq<RawLogRecord>,
    filter: Option<AddressFilterSet>,
    out: Seq<BondingCurveEvent>,
)
    requires
        spec_decoded_filtered(logs, filter, out),
    ensures
        forall|i: int|
            0 <= i < out.len() ==> spec_passes(&filter, (#[trigger] out[i]).spec_token()),
    decreases logs.len(),
{
    if logs.len() != 0 {
        let l = logs.last();
        if spec_log_kept(&l, &filter) {
            lemma_decoded_filtered_passes(logs.drop_last(), filter, out.drop_last());
            let k = spec_curve_kind(&l)->Some_0;
            lemma_matched_event_token(&out.last(), &l, k);
            assert(forall|i: int| 0 <= i < out.len() - 1 ==> out[i] == out.drop_last()[i]);
        } else {
            lemma_decoded_filtered_passes(logs.drop_last(), filter, out);
        }
    }
}

/// The decode relation without any filter: `out` is exactly the events
/// of the records that decode, in order.
pub open spec fn spec_decoded_all(logs: Seq<RawLogRecord>, out: Seq<BondingCurveEvent>) -> bool
    decreases logs.len(),
{
    if logs.len() == 0 {
        out.len() == 0
    } else {
        let l = logs.last();
        if spec_curve_kind(&l) matches Some(k) && spec_curve_shape_ok(k, &l) {
            &&& out.len() > 0
            &&& (spec_curve_kind(&l) matches Some(k) && out.last().spec_event_type() == k)
            &&& spec_curve_event_matches(&out.last(), &l)
            &&& spec_decoded_all(logs.drop_last(), out.drop_last())
        } else {
            spec_decoded_all(logs.drop_last(), out)
        }
    }
}

/// Filter pass-through: with no filter configured, the kept events are
/// exactly the decodable events — filtering changes nothing.
pub proof fn lemma_filter_passthrough(logs: Seq<RawLogRecord>, out: Seq<BondingCurveEvent>)
    ensures
        spec_decoded_filtered(logs, None, out) <==> spec_decoded_all(logs, out),
    decreases logs.len(),
{
    if logs.len() != 0 {
        let l = logs.last();
        lemma_filter_passthrough(logs.drop_last(), out);
        if out.len() > 0 {
            lemma_filter_passthrough(logs.drop_last(), out.drop_last());
        }
    }
}

/// Filter exclusion: with a filter configured, an event whose subject
/// token is outside it never appears among the kept events.
pub proof fn lemma_filter_exclusion(
    logs: Seq<RawLogRecord>,
    f: AddressFilterSet,
    out: Seq<BondingCurveEvent>,
    excluded: Seq<u8>,
)
    requires
        spec_decoded_filtered(logs, Some(f), out),
        !f@.contains(excluded),
    ensures
        forall|i: int| 0 <= i < out.len() ==> (#[trigger] out[i]).spec_token() != excluded,
{
    lemma_decoded_filtered_passes(logs, Some(f), out);
}

/// Build the signature list of an event-kind list.
pub fn signatures_of(event_types: &Vec<EventType>) -> (r: Vec<B256>)
    ensures
        r@.len() == event_types@.len(),
        forall|i: int|
            0 <= i < event_types@.len() ==> (#[trigger] r@[i])@ == spec_signature(
                event_types@[i],
            ),
{
    let mut r: Vec<B256> = Vec::new();
    let n = event_types.len();
    let mut i: usize = 0;
    while i < n
        invariant
            i <= n,
            n == event_types@.len(),
            r@.len() == i,
            forall|j: int|
                0 <= j < i ==> (#[trigger] r@[j])@ == spec_signature(event_types@[j]),
        decreases n - i,
    {
        r.push(event_types[i].signature());
        i = i + 1;
    }
    r
}

/// The historical indexer for bonding-curve events.
///
/// It owns everything that can be decided without a network: which
/// bounded query a block range needs, and what becomes of the raw
/// records a query returned.  Issuing the query is the caller's.
#[derive(Debug)]
pub struct CurveIndexer {
    /// The bonding-curve contract whose log is read.
    pub contract: Address,
}

impl CurveIndexer {
    /// An indexer for the ecosystem's bonding-curve contract.
    pub fn new() -> (r: CurveIndexer)
        ensures
            r.contract@ == bonding_curve_address_bytes(),
    {
        CurveIndexer { contract: bonding_curve_contract_address() }
    }

    /// The contract whose log is read.
    pub fn bonding_curve_address(&self) -> (r: Address)
        ensures
            r@ == self.contract@,
    {
        self.contract.clone()
    }

    /// The bounded query that fetches the given kinds over a range.
    pub fn fetch_query(&self, from_block: u64, to_block: u64, event_types: &Vec<EventType>) -> (q:
        LogQuery)
        ensures
            q.from_block == from_block,
            q.to_block == to_block,
            q.addresses@.len() == 1 && q.addresses@[0]@ == self.contract@,
            q.signatures@.len() == event_types@.len(),
            forall|i: int|
                0 <= i < event_types@.len() ==> (#[trigger] q.signatures@[i])@ == spec_signature(
                    event_types@[i],
                ),
    {
        let mut addresses: Vec<Address> = Vec::new();
        addresses.push(self.contract.clone());
        LogQuery { from_block, to_block, addresses, signatures: signatures_of(event_types) }
    }

    /// Decode, filter and order one batch of raw records.
    ///
    /// Records that decode to no recognized, well-shaped event are
    /// dropped, as are events whose token fails the filter; the rest
    /// come out sorted chronologically and stably.  The ghost result is
    /// the kept events in arrival order; the visible result is exactly
    /// its stable sort.
    pub fn process_logs(&self, logs: Vec<RawLogRecord>, token_filter: &Option<AddressFilterSet>)
        -> (r: (Vec<BondingCurveEvent>, Ghost<Seq<BondingCurveEvent>>))
        ensures
            spec_decoded_filtered(logs@, *token_filter, r.1@),
            sorted_by_key(r.0@),
            forall|k: (u64, u64, u64)| #[trigger] r.0@.filter(key_is(k)) == r.1@.filter(key_is(k)),
            r.0@.to_multiset() == r.1@.to_multiset(),
            r.0@.len() == r.1@.len(),
            forall|i: int|
                0 <= i < r.0@.len() ==> spec_passes(token_filter, (#[trigger] r.0@[i]).spec_token()),
    {
        let ghost orig_logs = logs@;
        let mut rest = logs;
        let mut kept: Vec<BondingCurveEvent> = Vec::new();
        let ghost mut done: Seq<RawLogRecord> = Seq::empty();
        proof {
            assert(orig_logs =~= done + rest@);
        }
        while rest.len() > 0
            invariant
                orig_logs == done + rest@,
                spec_decoded_filtered(done, *token_filter, kept@),
            decreases rest@.len(),
        {
            let ghost rest_before = rest@;
            let l = rest.remove(0);
            let ghost gl = l;
            proof {
                assert(rest_before =~= seq![l] + rest@);
                assert(done + rest_before =~= done.push(l) + rest@);
                assert(done.push(gl).drop_last() =~= done);
                assert(done.push(gl).last() == gl);
            }
            let ghost kept_before = kept@;
            match decode_bonding_curve_event(l) {
                Ok(ev) => {
                    if crate::filter::matches(&ev, token_filter) {
                        proof {
                            let k = spec_curve_kind(&gl)->Some_0;
                            lemma_matched_event_token(&ev, &gl, k);
                            assert(spec_log_kept(&gl, token_filter));
                        }
                        kept.push(ev);
                        proof {
                            assert(kept@.drop_last() =~= kept_before);
                            assert(spec_decoded_filtered(done.push(gl), *token_filter, kept@));
                        }
                    } else {
                        proof {
                            let k = spec_curve_kind(&gl)->Some_0;
                            lemma_matched_event_token(&ev, &gl, k);
                            assert(!spec_log_kept(&gl, token_filter));
                        }
                    }
                },
                Err(e) => {
                    proof {
                        if e == crate::types::log::DecodeError::UnknownSignature {
                            assert(spec_curve_kind(&gl) is None);
                        } else {
                            assert(e == crate::types::log::DecodeError::MalformedPayload);
                        }
                        assert(!spec_log_kept(&gl, token_filter));
                    }
                },
            }
            proof {
                done = done.push(gl);
            }
        }
        proof {
            assert(done =~= orig_logs);
            lemma_decoded_filtered_passes(orig_logs, *token_filter, kept@);
        }
        let ghost mid = kept@;
        let sorted = sort_events(kept);
        proof {
            assert forall|i: int| 0 <= i < sorted@.len() implies spec_passes(
                token_filter,
                (#[trigger] sorted@[i]).spec_token(),
            ) by {
                broadcast use vstd::seq_lib::group_to_multiset_ensures;

                assert(sorted@.to_multiset().contains(sorted@[i]));
                assert(mid.to_multiset().count(sorted@[i]) > 0);
                assert(mid.contains(sorted@[i]));
                let j = choose|j: int| 0 <= j < mid.len() && mid[j] == sorted@[i];
                assert(spec_passes(token_filter, mid[j].spec_token()));
            }
        }
        (sorted, Ghost(mid))
    }
}

/// The real-time stream configuration for bonding-curve events: an
/// optional server-side narrowing by event kind and an optional
/// client-side narrowing by token.
#[derive(Debug)]
pub struct CurveStream {
    /// The kinds to subscribe to; `None` subscribes to all of them.
    pub event_types: Option<Vec<EventType>>,
    /// The client-side token allow-list; `None` passes everything.
    pub token_filter: Option<AddressFilterSet>,
}

/// The kinds a stream subscription asks the source for: the configured
/// list, or every kind when none was configured.
pub open spec fn spec_effective_event_types(s: &CurveStream) -> Seq<EventType> {
    match s.event_types {
        Some(v) => v@,
        None => seq![
            EventType::Create,
            EventType::Buy,
            EventType::Sell,
            EventType::Sync,
            EventType::Lock,
            EventType::Listed,
        ],
    }
}

impl CurveStream {
    /// A stream over every event kind, unfiltered.
    pub fn new() -> (r: CurveStream)
        ensures
            r.event_types is None,
            r.token_filter is None,
    {
        CurveStream { event_types: None, token_filter: None }
    }

    /// Narrow the subscription to the given kinds (source-side).
    pub fn subscribe_events(self, event_types: Vec<EventType>) -> (r: CurveStream)
        ensures
            r.event_types matches Some(v) && v@ == event_types@,
            r.token_filter == self.token_filter,
    {
        CurveStream { event_types: Some(event_types), token_filter: self.token_filter }
    }

    /// Narrow the visible events to the given tokens (client-side).
    pub fn filter_tokens(self, tokens: Vec<Address>) -> (r: CurveStream)
        ensures
            r.token_filter matches Some(f) && (forall|s: Seq<u8>|
                f@.contains(s) <==> exists|i: int| 0 <= i < tokens@.len() && tokens@[i]@ == s),
            r.event_types == self.event_types,
    {
        CurveStream {
            event_types: self.event_types,
            token_filter: Some(AddressFilterSet::from_addresses(tokens)),
        }
    }

    /// The configured client-side token filter, for manual filtering.
    pub fn get_token_filter(&self) -> (r: Option<&AddressFilterSet>)
        ensures
            r is Some <==> self.token_filter is Some,
            r matches Some(f) ==> self.token_filter matches Some(g) && f@ == g@,
    {
        self.token_filter.as_ref()
    }

    /// The subscription the configuration calls for.
    pub fn subscription_query(&self) -> (q: SubscriptionQuery)
        ensures
            q.addresses@.len() == 1 && q.addresses@[0]@ == bonding_curve_address_bytes(),
            q.signatures@.len() == spec_effective_event_types(self).len(),
            forall|i: int|
                0 <= i < q.signatures@.len() ==> (#[trigger] q.signatures@[i])@ == spec_signature(
                    spec_effective_event_types(self)[i],
                ),
    {
        let mut addresses: Vec<Address> = Vec::new();
        addresses.push(bonding_curve_contract_address());
        let signatures = match &self.event_types {
            Some(v) => signatures_of(v),
            None => {
                let mut all: Vec<EventType> = Vec::new();
                all.push(EventType::Create);
                all.push(EventType::Buy);
                all.push(EventType::Sell);
                all.push(EventType::Sync);
                all.push(EventType::Lock);
                all.push(EventType::Listed);
                proof {
                    assert(all@ =~= spec_effective_event_types(self));
                }
                signatures_of(&all)
            },
        };
        SubscriptionQuery { addresses, signatures }
    }

    /// What becomes of one pushed record: the decoded event when the
    /// record decodes and its token passes the filter, nothing
    /// otherwise.  A malformed record and a filtered-out event are
    /// dropped alike; the stream just moves on.
    pub fn stream_step(&self, log: RawLogRecord) -> (r: Option<BondingCurveEvent>)
        ensures
            r is Some <==> spec_log_kept(&log, &self.token_filter),
            r matches Some(ev) ==> (spec_curve_kind(&log) matches Some(k)
                && ev.spec_event_type() == k) && spec_curve_event_matches(&ev, &log),
    {
        let ghost gl = log;
        match decode_bonding_curve_event(log) {
            Ok(ev) => {
                if crate::filter::matches(&ev, &self.token_filter) {
                    proof {
                        let k = spec_curve_kind(&gl)->Some_0;
                        lemma_matched_event_token(&ev, &gl, k);
                    }
                    Some(ev)
                } else {
                    proof {
                        let k = spec_curve_kind(&gl)->Some_0;
                        lemma_matched_event_token(&ev, &gl, k);
                    }
                    None
                }
            },
            Err(e) => {
                proof {
                    if e == crate::types::log::DecodeError::UnknownSignature {
                        assert(spec_curve_kind(&gl) is None);
                    } else {
                        assert(e == crate::types::log::DecodeError::MalformedPayload);
                    }
                    assert(!spec_log_kept(&gl, &self.token_filter));
                }
                None
            },
        }
    }
}

} // verus!
