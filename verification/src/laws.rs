//! The laws the allocator and its latch obey, stated and proved once for all
//! inputs. Each law speaks over the same spec functions that the executable
//! functions' contracts use, so what it states holds of every run.

use vstd::prelude::*;

verus! {

use crate::backing::Block;
use crate::backing::BackingAllocator;
use crate::backing::block_end;
use crate::backing::block_wf;
use crate::backing::grant;
use crate::backing::placement;
use crate::backing::round_up;
use crate::backing::state_wf;
use crate::backing::watermark;
use crate::latch::LazyHeap;
use crate::latch::alloc_step;

/// The watermark never lies below the base of the region.
proof fn lemma_watermark_ge_base(base: int, blocks: Seq<Block>)
    ensures
        base <= watermark(base, blocks),
    decreases blocks.len(),
{
    if blocks.len() > 0 {
        lemma_watermark_ge_base(base, blocks.drop_last());
    }
}

/// The watermark lies past every live block.
proof fn lemma_watermark_past_blocks(base: int, blocks: Seq<Block>, i: int)
    requires
        0 <= i < blocks.len(),
    ensures
        block_end(blocks[i]) <= watermark(base, blocks),
    decreases blocks.len(),
{
    if i < blocks.len() - 1 {
        lemma_watermark_past_blocks(base, blocks.drop_last(), i);
    }
}

/// Rounding up to an alignment moves an address by less than the alignment
/// and lands on a multiple of it.
proof fn lemma_round_up_bounds(x: int, align: int)
    requires
        0 <= x,
        1 <= align,
    ensures
        x <= round_up(x, align),
        round_up(x, align) < x + align,
{
}

/// The initializer of a well-formed latch has run exactly once the moment
/// the latch is ready, and has never run before that: whichever caller's
/// first touch materialized the backing allocator, every later caller finds
/// the latch ready with the same run count, and no operation of the latch
/// ever takes the count past one.
pub proof fn lemma_initializer_exactly_once<F>(g: &LazyHeap<F>) where F: Fn() -> BackingAllocator
    requires
        g.wf(),
    ensures
        g.is_ready() ==> g.runs@ == 1,
        !g.is_ready() ==> g.runs@ == 0,
{
}

/// Against an allocator whose region was never configured — the state the
/// default initializer produces — every request fails: no size and no
/// alignment is ever granted an address.
pub proof fn lemma_unconfigured_never_grants(h: BackingAllocator, size: int, align: int)
    requires
        h.wf(),
        h.len == 0,
        1 <= size,
        1 <= align,
    ensures
        h.spec_alloc(size, align) is None,
{
    lemma_watermark_ge_base(h.base as int, h.blocks@);
    lemma_round_up_bounds(watermark(h.base as int, h.blocks@), align);
}

/// A freshly configured region grants every fitting request: with nothing
/// live, a request whose aligned placement leaves room inside the region is
/// granted the first aligned address of the region, which is not null and
/// lies inside the region.
pub proof fn lemma_fresh_region_grants_fitting_request(
    h: BackingAllocator,
    size: int,
    align: int,
)
    requires
        h.wf(),
        h.blocks@.len() == 0,
        1 <= size,
        1 <= align,
        round_up(h.base as int, align) + size <= h.region_end(),
    ensures
        ({
            let p = round_up(h.base as int, align);
            &&& h.spec_alloc(size, align) == Some(p)
            &&& 0 < h.base <= p
            &&& p + size <= h.region_end()
        }),
{
    assert(watermark(h.base as int, h.blocks@) == h.base as int);
    lemma_round_up_bounds(h.base as int, align);
}

/// Every granted address is past the end of every live block, so a granted
/// block overlaps nothing that is live.
pub proof fn lemma_grant_past_live_blocks(h: BackingAllocator, size: int, align: int, i: int)
    requires
        h.wf(),
        1 <= align,
        h.spec_alloc(size, align) is Some,
        0 <= i < h.blocks@.len(),
    ensures
        block_end(h.blocks@[i]) <= placement(h.base as int, h.blocks@, align),
{
    lemma_watermark_past_blocks(h.base as int, h.blocks@, i);
    lemma_watermark_ge_base(h.base as int, h.blocks@);
    lemma_round_up_bounds(watermark(h.base as int, h.blocks@), align);
}

/// A latch whose initializer only ever produces unconfigured allocators —
/// as the default one of [`crate::latch::lazy_heap_empty`] does — refuses
/// every request made before a region is configured: whichever allocator
/// the first touch materialized and however it stepped, the answer was the
/// null sentinel, never a usable address.
pub proof fn lemma_untouched_latch_refuses<F>(
    g: &LazyHeap<F>,
    b: BackingAllocator,
    h1: BackingAllocator,
    size: usize,
    align: usize,
    r: usize,
) where F: Fn() -> BackingAllocator
    requires
        g.wf(),
        forall|b2: BackingAllocator|
            #[trigger] call_ensures(g.initializer, (), b2) ==> b2.is_unconfigured(),
        call_ensures(g.initializer, (), b),
        alloc_step(b, h1, size, align, r),
        1 <= size,
        1 <= align,
    ensures
        r == 0,
{
    lemma_unconfigured_never_grants(b, size as int, align as int);
}

/// The round trip: a granted request, freed again with the very address and
/// size that were granted, restores the live blocks word for word — so a
/// subsequent identical request is granted again, at the same address.
pub proof fn lemma_alloc_dealloc_round_trip(
    base: usize,
    len: usize,
    blocks: Seq<Block>,
    size: usize,
    align: usize,
)
    requires
        state_wf(base as int, len as int, blocks),
        1 <= size,
        1 <= align,
        grant(base as int, len as int, blocks, size as int, align as int) is Some,
    ensures
        ({
            let p = placement(base as int, blocks, align as int) as usize;
            let granted = blocks.push((p, size));
            let freed = granted.remove_value((p, size));
            &&& freed == blocks
            &&& grant(base as int, len as int, freed, size as int, align as int) == grant(
                base as int,
                len as int,
                blocks,
                size as int,
                align as int,
            )
        }),
{
    let pi = placement(base as int, blocks, align as int);
    lemma_watermark_ge_base(base as int, blocks);
    lemma_round_up_bounds(watermark(base as int, blocks), align as int);
    assert(0 <= pi <= usize::MAX);
    let p = pi as usize;
    assert(forall|j: int| 0 <= j < blocks.len() ==> (#[trigger] blocks[j]).0 < pi) by {
        assert forall|j: int| 0 <= j < blocks.len() implies (#[trigger] blocks[j]).0 < pi by {
            lemma_watermark_past_blocks(base as int, blocks, j);
            assert(block_wf(base as int, base as int + len as int, blocks[j]));
        }
    }
    let granted = blocks.push((p, size));
    let needle: Block = (p, size);
    granted.index_of_first_ensures(needle);
    assert(granted[blocks.len() as int] == needle);
    assert(granted.index_of_first(needle) == Some(blocks.len() as int));
    assert(granted.remove_value(needle) =~= blocks);
}

} // verus!
