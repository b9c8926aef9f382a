//! Batch planning for historical retrieval: split `[start_block, head]`
//! into consecutive bounded ranges, each a single query.
//!
//! A cursor starting at `start_block` repeatedly claims the range up to
//! `min(cursor + batch_size, head)` and resumes one block after it, so
//! every range but the last spans `batch_size + 1` blocks and the last
//! ends exactly at the head.

use vstd::prelude::*;
use vstd::arithmetic::div_mod::{lemma_fundamental_div_mod_converse, lemma_div_plus_one};

verus! {

/// One bounded query range, inclusive on both ends.
#[derive(Debug, Clone, Copy, PartialEq, Eq, Hash, Structural)]
pub struct BlockRange {
    /// First block of the range.
    pub from_block: u64,
    /// Last block of the range, at least `from_block`.
    pub to_block: u64,
}

/// The ranges are consecutive: each begins right after the one before.
pub open spec fn spec_contiguous(r: Seq<BlockRange>) -> bool {
    forall|i: int| 0 <= i < r.len() - 1 ==> #[trigger] r[i].to_block + 1 == r[i + 1].from_block
}

/// Every range is non-degenerate and stays within `[start, head]`.
pub open spec fn spec_ranges_bounded(r: Seq<BlockRange>, start: u64, head: u64) -> bool {
    forall|i: int|
        0 <= i < r.len() ==> start <= #[trigger] r[i].from_block && r[i].from_block <= r[i].to_block
            && r[i].to_block <= head
}

/// All ranges but the last span exactly `batch_size + 1` blocks.
pub open spec fn spec_full_width(r: Seq<BlockRange>, batch_size: u64) -> bool {
    forall|i: int|
        0 <= i < r.len() - 1 ==> #[trigger] r[i].to_block - r[i].from_block == batch_size
}

/// Plan the bounded queries that cover `[start_block, head]`.
///
/// If `start_block` is beyond the head, no query is planned.  Otherwise
/// the ranges begin at `start_block`, are consecutive with no gap and
/// no overlap, end exactly at `head`, and number
/// `(head - start_block) / (batch_size + 1) + 1` — the count of
/// `batch_size + 1`-block strides needed, the last possibly short.
pub fn plan_batches(start_block: u64, batch_size: u64, head: u64) -> (r: Vec<BlockRange>)
    ensures
        start_block > head ==> r@.len() == 0,
        start_block <= head ==> {
            &&& r@.len() >= 1
            &&& r@[0].from_block == start_block
            &&& r@.last().to_block == head
            &&& r@.len() - 1 == (head - start_block) as int / (batch_size + 1) as int
        },
        spec_contiguous(r@),
        spec_ranges_bounded(r@, start_block, head),
        spec_full_width(r@, batch_size),
{
    let mut r: Vec<BlockRange> = Vec::new();
    if start_block > head {
        return r;
    }
    // The cursor runs one step past a `u64` range when the head is the
    // largest block number, so it is tracked in the next width up.
    let mut current: u128 = start_block as u128;
    while current <= head as u128
        invariant
            start_block <= head,
            start_block as u128 <= current <= head as u128 + 1,
            spec_contiguous(r@),
            spec_ranges_bounded(r@, start_block, head),
            spec_full_width(r@, batch_size),
            forall|i: int|
                0 <= i < r@.len() ==> (#[trigger] r@[i].to_block == head || r@[i].to_block
                    - r@[i].from_block == batch_size),
            r@.len() == 0 ==> current == start_block as u128,
            r@.len() > 0 ==> r@[0].from_block == start_block,
            r@.len() > 0 ==> current == r@.last().to_block + 1,
            current <= head as u128 ==> current - start_block == r@.len() * (batch_size + 1),
            current > head as u128 ==> {
                &&& r@.len() >= 1
                &&& r@.last().to_block == head
                &&& r@.len() - 1 == (head - start_block) as int / (batch_size + 1) as int
            },
        decreases head as int + 1 - current,
    {
        let cur: u64 = current as u64;
        let to_block: u64 = if batch_size <= head - cur {
            cur + batch_size
        } else {
            head
        };
        let ghost r_before = r@;
        let ghost len_before = r@.len() as int;
        r.push(BlockRange { from_block: cur, to_block });
        proof {
            assert(r@[len_before] == BlockRange { from_block: cur, to_block });
            assert(forall|i: int| 0 <= i < len_before ==> r@[i] == r_before[i]);
            if to_block == head {
                // The final stride: division pins the count.
                let w = (batch_size + 1) as int;
                let rem = (head - cur) as int;
                assert((head - start_block) as int == len_before * w + rem);
                assert(0 <= rem < w);
                lemma_fundamental_div_mod_converse((head - start_block) as int, w, len_before, rem);
            } else {
                assert((len_before + 1) * (batch_size + 1) == len_before * (batch_size + 1)
                    + batch_size + 1) by (nonlinear_arith);
            }
        }
        current = to_block as u128 + 1;
    }
    r
}

/// Whether some planned range contains block `b`.
pub open spec fn spec_covered(r: Seq<BlockRange>, b: u64) -> bool {
    exists|i: int| 0 <= i < r.len() && (#[trigger] r[i].from_block) <= b && b <= r[i].to_block
}

/// Pagination coverage: consecutive, bounded ranges that begin at the
/// start and end at the head touch every block of `[start, head]`
/// exactly once — no gaps, no overlaps.
pub proof fn lemma_pagination_coverage(r: Seq<BlockRange>, start: u64, head: u64)
    requires
        start <= head,
        r.len() >= 1,
        r[0].from_block == start,
        r.last().to_block == head,
        spec_contiguous(r),
        spec_ranges_bounded(r, start, head),
    ensures
        forall|b: u64| start <= b <= head ==> #[trigger] spec_covered(r, b),
        forall|i: int, j: int|
            0 <= i < j < r.len() ==> #[trigger] r[i].to_block < #[trigger] r[j].from_block,
{
    assert forall|i: int, j: int| 0 <= i < j < r.len() implies #[trigger] r[i].to_block
        < #[trigger] r[j].from_block by {
        lemma_from_blocks_increase(r, i, j);
    }
    assert forall|b: u64| start <= b <= head implies #[trigger] spec_covered(r, b) by {
        lemma_block_is_covered(r, head, b);
    }
}

/// Ranges appearing later begin strictly after an earlier range ends.
proof fn lemma_from_blocks_increase(r: Seq<BlockRange>, i: int, j: int)
    requires
        spec_contiguous(r),
        spec_ranges_bounded(r, r[0].from_block, r.last().to_block),
        0 <= i < j < r.len(),
    ensures
        r[i].to_block < r[j].from_block,
    decreases j - i,
{
    if j == i + 1 {
        assert(r[i].to_block + 1 == r[j].from_block);
    } else {
        lemma_from_blocks_increase(r, i, j - 1);
        assert(r[j - 1].to_block + 1 == r[j].from_block);
    }
}

/// Every range is non-degenerate and ends by the head.
pub open spec fn spec_ranges_wellformed(r: Seq<BlockRange>, head: u64) -> bool {
    forall|i: int|
        0 <= i < r.len() ==> (#[trigger] r[i].from_block) <= r[i].to_block && r[i].to_block <= head
}

/// Every block of the covered span lies in some range.
proof fn lemma_block_is_covered(r: Seq<BlockRange>, head: u64, b: u64)
    requires
        r.len() >= 1,
        r.last().to_block == head,
        spec_contiguous(r),
        spec_ranges_wellformed(r, head),
        r[0].from_block <= b <= head,
    ensures
        spec_covered(r, b),
    decreases r.len(),
{
    if b <= r[0].to_block {
        assert(r[0].from_block <= b && b <= r[0].to_block);
    } else {
        let rest = r.drop_first();
        assert(rest[0].from_block == r[0].to_block + 1);
        assert(rest.last() == r.last());
        assert(forall|i: int| 0 <= i < rest.len() ==> rest[i] == r[i + 1]);
        lemma_block_is_covered(rest, head, b);
        let i = choose|i: int|
            0 <= i < rest.len() && (#[trigger] rest[i].from_block) <= b && b <= rest[i].to_block;
        assert(r[i + 1].from_block <= b && b <= r[i + 1].to_block);
    }
}

/// The stride count equals the ceiling of the span over the stride
/// width: planning `[start, head]` in strides of `batch_size + 1`
/// blocks takes `⌈(head - start + 1) / (batch_size + 1)⌉` queries.
pub proof fn lemma_batch_count_is_ceiling(start: u64, batch_size: u64, head: u64)
    requires
        start <= head,
    ensures
        (head - start) as int / (batch_size + 1) as int + 1 == ((head - start + 1) + batch_size)
            as int / (batch_size + 1) as int,
{
    let w = (batch_size + 1) as int;
    let m = (head - start) as int;
    lemma_div_plus_one(m, w);
    assert((m + w) / w == m / w + 1);
    assert((head - start + 1) + batch_size == m + w);
}

} // verus!
