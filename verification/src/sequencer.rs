//! The chronological sequencer: a stable sort of decoded events by
//! `(block number, transaction index, log index)`, ascending.
//!
//! Stability is stated through filters: for every key, the subsequence
//! of events carrying that key is exactly the input's subsequence with
//! that key, in the input's order.  Together with sortedness this pins
//! the output completely.

use vstd::prelude::*;
use vstd::seq_lib::lemma_multiset_commutative;
use vstd::multiset::Multiset;
use crate::types::bonding_curve::BondingCurveEvent;
use crate::types::uniswap::SwapEvent;

verus! {

/// Lexicographic "at most" on chronological keys.
pub open spec fn key_le(a: (u64, u64, u64), b: (u64, u64, u64)) -> bool {
    ||| a.0 < b.0
    ||| (a.0 == b.0 && a.1 < b.1)
    ||| (a.0 == b.0 && a.1 == b.1 && a.2 <= b.2)
}

/// The chronological key of a bonding-curve event.
pub open spec fn event_key(e: BondingCurveEvent) -> (u64, u64, u64) {
    (e.spec_block_number(), e.spec_transaction_index(), e.spec_log_index())
}

/// The predicate "carries chronological key `k`".
pub open spec fn key_is(k: (u64, u64, u64)) -> spec_fn(BondingCurveEvent) -> bool {
    |e: BondingCurveEvent| event_key(e) == k
}

/// Non-decreasing in the chronological key.
pub open spec fn sorted_by_key(s: Seq<BondingCurveEvent>) -> bool {
    forall|i: int, j: int| 0 <= i < j < s.len() ==> key_le(event_key(s[i]), event_key(s[j]))
}

/// The chronological key of a swap event.
pub open spec fn swap_key(e: SwapEvent) -> (u64, u64, u64) {
    (e.block_number, e.transaction_index, e.log_index)
}

/// The predicate "carries chronological key `k`", for swaps.
pub open spec fn swap_key_is(k: (u64, u64, u64)) -> spec_fn(SwapEvent) -> bool {
    |e: SwapEvent| swap_key(e) == k
}

/// Non-decreasing in the chronological key, for swaps.
pub open spec fn sorted_by_swap_key(s: Seq<SwapEvent>) -> bool {
    forall|i: int, j: int| 0 <= i < j < s.len() ==> key_le(swap_key(s[i]), swap_key(s[j]))
}

/// The chronological order is total: any two keys compare.
pub proof fn lemma_key_le_total(a: (u64, u64, u64), b: (u64, u64, u64))
    ensures
        key_le(a, b) || key_le(b, a),
        key_le(a, b) && key_le(b, a) ==> a == b,
{
}

/// The chronological order is transitive.
pub proof fn lemma_key_le_transitive(a: (u64, u64, u64), b: (u64, u64, u64), c: (u64, u64, u64))
    requires
        key_le(a, b),
        key_le(b, c),
    ensures
        key_le(a, c),
{
}

/// Concatenating per-batch sorted results keeps the global order when
/// every key of the earlier batch is at most every key of the later
/// one — which holds for disjoint, increasing block ranges.
pub proof fn lemma_sorted_concat(s1: Seq<BondingCurveEvent>, s2: Seq<BondingCurveEvent>)
    requires
        sorted_by_key(s1),
        sorted_by_key(s2),
        forall|i: int, j: int|
            0 <= i < s1.len() && 0 <= j < s2.len() ==> key_le(
                event_key(#[trigger] s1[i]),
                event_key(#[trigger] s2[j]),
            ),
    ensures
        sorted_by_key(s1 + s2),
{
    assert forall|i: int, j: int| 0 <= i < j < (s1 + s2).len() implies key_le(
        event_key((s1 + s2)[i]),
        event_key((s1 + s2)[j]),
    ) by {
        if i < s1.len() && j < s1.len() {
            assert(key_le(event_key(s1[i]), event_key(s1[j])));
        } else if i < s1.len() {
            assert(key_le(event_key(s1[i]), event_key(s2[j - s1.len()])));
        } else {
            assert(key_le(event_key(s2[i - s1.len()]), event_key(s2[j - s1.len()])));
        }
    }
}

/// Exec comparison deciding `key_le`.
fn key_lte(a: (u64, u64, u64), b: (u64, u64, u64)) -> (r: bool)
    ensures
        r == key_le(a, b),
{
    if a.0 < b.0 {
        true
    } else if a.0 == b.0 && a.1 < b.1 {
        true
    } else if a.0 == b.0 && a.1 == b.1 && a.2 <= b.2 {
        true
    } else {
        false
    }
}

/// A filter of elements none of which satisfy the predicate is empty.
proof fn lemma_filter_none<A>(s: Seq<A>, pred: spec_fn(A) -> bool)
    requires
        forall|i: int| 0 <= i < s.len() ==> !pred(s[i]),
    ensures
        s.filter(pred) == Seq::<A>::empty(),
    decreases s.len(),
{
    reveal(Seq::filter);
    if s.len() != 0 {
        lemma_filter_none(s.drop_last(), pred);
    }
}

/// Filtering a single element keeps or drops it.
proof fn lemma_filter_singleton<A>(e: A, pred: spec_fn(A) -> bool)
    ensures
        seq![e].filter(pred) == if pred(e) {
            seq![e]
        } else {
            Seq::<A>::empty()
        },
{
    reveal(Seq::filter);
    assert(seq![e].drop_last() =~= Seq::<A>::empty());
    assert(Seq::<A>::empty().filter(pred) =~= Seq::<A>::empty());
    if pred(e) {
        assert(seq![e].filter(pred) =~= Seq::<A>::empty().push(e));
        assert(Seq::<A>::empty().push(e) =~= seq![e]);
    }
}

/// Filtering past a pushed element appends it exactly when it passes.
pub proof fn lemma_filter_push<A>(s: Seq<A>, e: A, pred: spec_fn(A) -> bool)
    ensures
        s.push(e).filter(pred) == if pred(e) {
            s.filter(pred).push(e)
        } else {
            s.filter(pred)
        },
{
    assert(s.push(e) =~= s + seq![e]);
    Seq::<A>::filter_distributes_over_add(s, seq![e], pred);
    lemma_filter_singleton(e, pred);
    if pred(e) {
        assert(s.filter(pred) + seq![e] =~= s.filter(pred).push(e));
    } else {
        assert(s.filter(pred) + Seq::<A>::empty() =~= s.filter(pred));
    }
}

/// A singleton's multiset is the empty multiset plus that element.
proof fn lemma_singleton_multiset<A>(e: A)
    ensures
        seq![e].to_multiset() == Multiset::<A>::empty().insert(e),
{
    broadcast use vstd::seq_lib::group_to_multiset_ensures;

    assert(seq![e] =~= Seq::<A>::empty().push(e));
    Seq::<A>::empty().to_multiset_ensures();
    assert(Seq::<A>::empty().push(e).to_multiset() =~= Seq::<A>::empty().to_multiset().insert(e));
}

/// Inserting an event after everything at-most-its-key and before
/// everything above it preserves, for every key, the filtered
/// subsequence — with the new event appended to its own key's class —
/// and grows the multiset by exactly that event.
proof fn lemma_stable_insert(s: Seq<BondingCurveEvent>, e: BondingCurveEvent, p: int)
    requires
        0 <= p <= s.len(),
        forall|i: int| 0 <= i < p ==> key_le(event_key(#[trigger] s[i]), event_key(e)),
        forall|i: int| p <= i < s.len() ==> !key_le(event_key(#[trigger] s[i]), event_key(e)),
    ensures
        forall|k: (u64, u64, u64)| #[trigger]
            s.insert(p, e).filter(key_is(k)) == if k == event_key(e) {
                s.filter(key_is(k)).push(e)
            } else {
                s.filter(key_is(k))
            },
        s.insert(p, e).to_multiset() == s.to_multiset().insert(e),
{
    broadcast use vstd::seq_lib::group_to_multiset_ensures;

    let a = s.subrange(0, p);
    let b = s.subrange(p, s.len() as int);
    let mid = seq![e];
    assert(s =~= a + b);
    assert(s.insert(p, e) =~= a + (mid + b));
    assert forall|k: (u64, u64, u64)| #[trigger]
        s.insert(p, e).filter(key_is(k)) == (if k == event_key(e) {
            s.filter(key_is(k)).push(e)
        } else {
            s.filter(key_is(k))
        }) by {
        let pred = key_is(k);
        Seq::<BondingCurveEvent>::filter_distributes_over_add(a, mid + b, pred);
        Seq::<BondingCurveEvent>::filter_distributes_over_add(mid, b, pred);
        Seq::<BondingCurveEvent>::filter_distributes_over_add(a, b, pred);
        lemma_filter_singleton(e, pred);
        if k == event_key(e) {
            lemma_filter_none(b, pred);
            assert(a.filter(pred) + (mid + Seq::<BondingCurveEvent>::empty()) =~= a.filter(pred)
                + mid);
            assert(a.filter(pred) + Seq::<BondingCurveEvent>::empty() =~= a.filter(pred));
            assert(a.filter(pred) + mid =~= a.filter(pred).push(e));
        } else {
            assert(Seq::<BondingCurveEvent>::empty() + b.filter(pred) =~= b.filter(pred));
        }
    }
    lemma_multiset_commutative(a, mid + b);
    lemma_multiset_commutative(mid, b);
    lemma_multiset_commutative(a, b);
    lemma_singleton_multiset(e);
    assert(s.insert(p, e).to_multiset() =~= s.to_multiset().insert(e));
}

/// Sort a batch of bonding-curve events chronologically, stably.
///
/// The result is non-decreasing in `(block number, transaction index,
/// log index)`; events sharing all three keys keep their input order,
/// stated as: for every key, the events carrying it come out exactly as
/// they went in.  Nothing is added or lost.
pub fn sort_events(events: Vec<BondingCurveEvent>) -> (r: Vec<BondingCurveEvent>)
    ensures
        sorted_by_key(r@),
        forall|k: (u64, u64, u64)| #[trigger] r@.filter(key_is(k)) == events@.filter(key_is(k)),
        r@.to_multiset() == events@.to_multiset(),
        r@.len() == events@.len(),
{
    broadcast use vstd::seq_lib::group_to_multiset_ensures;

    let ghost orig = events@;
    let mut rest = events;
    let mut out: Vec<BondingCurveEvent> = Vec::new();
    let ghost mut processed: Seq<BondingCurveEvent> = Seq::empty();
    proof {
        assert(orig =~= processed + rest@);
    }
    while rest.len() > 0
        invariant
            orig == processed + rest@,
            sorted_by_key(out@),
            forall|k: (u64, u64, u64)| #[trigger]
                out@.filter(key_is(k)) == processed.filter(key_is(k)),
            out@.to_multiset() == processed.to_multiset(),
            out@.len() == processed.len(),
        decreases rest@.len(),
    {
        let ghost rest_before = rest@;
        let e = rest.remove(0);
        proof {
            assert(rest_before =~= seq![e] + rest@);
            assert(processed + rest_before =~= (processed + seq![e]) + rest@);
            assert(processed + seq![e] =~= processed.push(e));
        }
        let ekey = event_key_of(&e);
        let mut p: usize = 0;
        while p < out.len() && key_lte(event_key_of_ref(&out, p), ekey)
            invariant
                p <= out@.len(),
                ekey == event_key(e),
                sorted_by_key(out@),
                forall|i: int| 0 <= i < p ==> key_le(event_key(#[trigger] out@[i]), event_key(e)),
            decreases out@.len() - p,
        {
            p = p + 1;
        }
        proof {
            if p < out@.len() {
                assert(!key_le(event_key(out@[p as int]), event_key(e)));
                assert forall|i: int| p <= i < out@.len() implies !key_le(
                    event_key(#[trigger] out@[i]),
                    event_key(e),
                ) by {
                    if i > p {
                        assert(key_le(event_key(out@[p as int]), event_key(out@[i])));
                    }
                }
            }
        }
        let ghost out_before = out@;
        out.insert(p, e);
        proof {
            lemma_stable_insert(out_before, e, p as int);
            assert(out@ == out_before.insert(p as int, e));
            // Sortedness of the new sequence, seen through the split.
            let a = out_before.subrange(0, p as int);
            let b = out_before.subrange(p as int, out_before.len() as int);
            assert(out@ =~= a + (seq![e] + b));
            assert forall|i: int, j: int| 0 <= i < j < out@.len() implies key_le(
                event_key(out@[i]),
                event_key(out@[j]),
            ) by {
                assert(forall|i: int|
                    0 <= i < out@.len() ==> out@[i] == if i < p {
                        out_before[i]
                    } else if i == p {
                        e
                    } else {
                        out_before[i - 1]
                    });
            }
            // Per-key filters track the processed prefix.
            assert forall|k: (u64, u64, u64)| #[trigger]
                out@.filter(key_is(k)) == processed.push(e).filter(key_is(k)) by {
                lemma_filter_push(processed, e, key_is(k));
                assert(out_before.filter(key_is(k)) == processed.filter(key_is(k)));
            }
            processed.to_multiset_ensures();
            assert(processed.push(e).to_multiset() =~= processed.to_multiset().insert(e));
            assert(out@.to_multiset() == out_before.to_multiset().insert(e));
            processed = processed.push(e);
        }
    }
    proof {
        assert(rest@ =~= Seq::<BondingCurveEvent>::empty());
        assert(processed + rest@ =~= processed);
    }
    out
}

/// The swap counterpart of `lemma_stable_insert`.
proof fn lemma_stable_insert_swap(s: Seq<SwapEvent>, e: SwapEvent, p: int)
    requires
        0 <= p <= s.len(),
        forall|i: int| 0 <= i < p ==> key_le(swap_key(#[trigger] s[i]), swap_key(e)),
        forall|i: int| p <= i < s.len() ==> !key_le(swap_key(#[trigger] s[i]), swap_key(e)),
    ensures
        forall|k: (u64, u64, u64)| #[trigger]
            s.insert(p, e).filter(swap_key_is(k)) == if k == swap_key(e) {
                s.filter(swap_key_is(k)).push(e)
            } else {
                s.filter(swap_key_is(k))
            },
        s.insert(p, e).to_multiset() == s.to_multiset().insert(e),
{
    broadcast use vstd::seq_lib::group_to_multiset_ensures;

    let a = s.subrange(0, p);
    let b = s.subrange(p, s.len() as int);
    let mid = seq![e];
    assert(s =~= a + b);
    assert(s.insert(p, e) =~= a + (mid + b));
    assert forall|k: (u64, u64, u64)| #[trigger]
        s.insert(p, e).filter(swap_key_is(k)) == (if k == swap_key(e) {
            s.filter(swap_key_is(k)).push(e)
        } else {
            s.filter(swap_key_is(k))
        }) by {
        let pred = swap_key_is(k);
        Seq::<SwapEvent>::filter_distributes_over_add(a, mid + b, pred);
        Seq::<SwapEvent>::filter_distributes_over_add(mid, b, pred);
        Seq::<SwapEvent>::filter_distributes_over_add(a, b, pred);
        lemma_filter_singleton(e, pred);
        if k == swap_key(e) {
            lemma_filter_none(b, pred);
            assert(a.filter(pred) + (mid + Seq::<SwapEvent>::empty()) =~= a.filter(pred) + mid);
            assert(a.filter(pred) + Seq::<SwapEvent>::empty() =~= a.filter(pred));
            assert(a.filter(pred) + mid =~= a.filter(pred).push(e));
        } else {
            assert(Seq::<SwapEvent>::empty() + b.filter(pred) =~= b.filter(pred));
        }
    }
    lemma_multiset_commutative(a, mid + b);
    lemma_multiset_commutative(mid, b);
    lemma_multiset_commutative(a, b);
    lemma_singleton_multiset(e);
    assert(s.insert(p, e).to_multiset() =~= s.to_multiset().insert(e));
}

/// Sort a batch of swap events chronologically, stably; the same
/// contract as `sort_events`, for the swap type.
pub fn sort_swap_events(events: Vec<SwapEvent>) -> (r: Vec<SwapEvent>)
    ensures
        sorted_by_swap_key(r@),
        forall|k: (u64, u64, u64)| #[trigger]
            r@.filter(swap_key_is(k)) == events@.filter(swap_key_is(k)),
        r@.to_multiset() == events@.to_multiset(),
        r@.len() == events@.len(),
{
    broadcast use vstd::seq_lib::group_to_multiset_ensures;

    let ghost orig = events@;
    let mut rest = events;
    let mut out: Vec<SwapEvent> = Vec::new();
    let ghost mut processed: Seq<SwapEvent> = Seq::empty();
    proof {
        assert(orig =~= processed + rest@);
    }
    while rest.len() > 0
        invariant
            orig == processed + rest@,
            sorted_by_swap_key(out@),
            forall|k: (u64, u64, u64)| #[trigger]
                out@.filter(swap_key_is(k)) == processed.filter(swap_key_is(k)),
            out@.to_multiset() == processed.to_multiset(),
            out@.len() == processed.len(),
        decreases rest@.len(),
    {
        let ghost rest_before = rest@;
        let e = rest.remove(0);
        proof {
            assert(rest_before =~= seq![e] + rest@);
            assert(processed + rest_before =~= (processed + seq![e]) + rest@);
            assert(processed + seq![e] =~= processed.push(e));
        }
        let ekey = swap_key_of(&e);
        let mut p: usize = 0;
        while p < out.len() && key_lte(swap_key_of_ref(&out, p), ekey)
            invariant
                p <= out@.len(),
                ekey == swap_key(e),
                sorted_by_swap_key(out@),
                forall|i: int| 0 <= i < p ==> key_le(swap_key(#[trigger] out@[i]), swap_key(e)),
            decreases out@.len() - p,
        {
            p = p + 1;
        }
        proof {
            if p < out@.len() {
                assert(!key_le(swap_key(out@[p as int]), swap_key(e)));
                assert forall|i: int| p <= i < out@.len() implies !key_le(
                    swap_key(#[trigger] out@[i]),
                    swap_key(e),
                ) by {
                    if i > p {
                        assert(key_le(swap_key(out@[p as int]), swap_key(out@[i])));
                    }
                }
            }
        }
        let ghost out_before = out@;
        out.insert(p, e);
        proof {
            lemma_stable_insert_swap(out_before, e, p as int);
            assert(out@ == out_before.insert(p as int, e));
            let a = out_before.subrange(0, p as int);
            let b = out_before.subrange(p as int, out_before.len() as int);
            assert(out@ =~= a + (seq![e] + b));
            assert forall|i: int, j: int| 0 <= i < j < out@.len() implies key_le(
                swap_key(out@[i]),
                swap_key(out@[j]),
            ) by {
                assert(forall|i: int|
                    0 <= i < out@.len() ==> out@[i] == if i < p {
                        out_before[i]
                    } else if i == p {
                        e
                    } else {
                        out_before[i - 1]
                    });
            }
            assert forall|k: (u64, u64, u64)| #[trigger]
                out@.filter(swap_key_is(k)) == processed.push(e).filter(swap_key_is(k)) by {
                lemma_filter_push(processed, e, swap_key_is(k));
                assert(out_before.filter(swap_key_is(k)) == processed.filter(swap_key_is(k)));
            }
            processed.to_multiset_ensures();
            assert(processed.push(e).to_multiset() =~= processed.to_multiset().insert(e));
            assert(out@.to_multiset() == out_before.to_multiset().insert(e));
            processed = processed.push(e);
        }
    }
    proof {
        assert(rest@ =~= Seq::<SwapEvent>::empty());
        assert(processed + rest@ =~= processed);
    }
    out
}

/// The chronological key of a swap event.
fn swap_key_of(e: &SwapEvent) -> (r: (u64, u64, u64))
    ensures
        r == swap_key(*e),
{
    (e.block_number, e.transaction_index, e.log_index)
}

/// The chronological key of the swap at an index.
fn swap_key_of_ref(v: &Vec<SwapEvent>, i: usize) -> (r: (u64, u64, u64))
    requires
        i < v@.len(),
    ensures
        r == swap_key(v@[i as int]),
{
    swap_key_of(&v[i])
}

/// The chronological key of a bonding-curve event.
fn event_key_of(e: &BondingCurveEvent) -> (r: (u64, u64, u64))
    ensures
        r == event_key(*e),
{
    (e.block_number(), e.transaction_index(), e.log_index())
}

/// The chronological key of the event at an index.
fn event_key_of_ref(v: &Vec<BondingCurveEvent>, i: usize) -> (r: (u64, u64, u64))
    requires
        i < v@.len(),
    ensures
        r == event_key(v@[i as int]),
{
    event_key_of(&v[i])
}

} // verus!
