//! The backing allocator, modelled over plain addresses.
//!
//! The latch in [`crate::latch`] wraps one bounded-region heap allocator. The
//! real allocator of a freestanding target hands out raw pointers from an
//! unsafe region, which a verifier cannot look into; this module holds what
//! the latch's logic actually reads of it as plain values: the managed region
//! `[base, base + len)` and the live blocks inside it. Placement follows a
//! watermark policy: a request goes to the first aligned address past every
//! live block, and fails when that address does not leave room inside the
//! region. Freeing the topmost block lowers the watermark again.

use vstd::prelude::*;

verus! {

use vstd::arithmetic::div_mod::lemma_fundamental_div_mod;
use vstd::arithmetic::div_mod::lemma_mod_multiples_basic;

/// A live block: its starting address and its size in bytes.
pub type Block = (usize, usize);

/// The address just past a block.
pub open spec fn block_end(b: Block) -> int {
    b.0 + b.1
}

/// The least address at or above `x` that is a multiple of `align`.
pub open spec fn round_up(x: int, align: int) -> int
    recommends
        0 <= x,
        1 <= align,
{
    if x % align == 0 {
        x
    } else {
        x + (align - x % align)
    }
}

/// The watermark of a set of live blocks: the least address at or above
/// `base` that lies past every live block.
pub open spec fn watermark(base: int, blocks: Seq<Block>) -> int
    decreases blocks.len(),
{
    if blocks.len() == 0 {
        base
    } else if block_end(blocks.last()) > watermark(base, blocks.drop_last()) {
        block_end(blocks.last())
    } else {
        watermark(base, blocks.drop_last())
    }
}

/// A block the region `[base, end)` can hold: inside the region and at
/// least one byte long.
pub open spec fn block_wf(base: int, end: int, b: Block) -> bool {
    &&& base <= b.0
    &&& b.0 + b.1 <= end
    &&& 1 <= b.1
}

/// A well-formed allocator state: the region lies within the address space,
/// address zero never belongs to a region, and every live block is a
/// non-empty block of the region.
pub open spec fn state_wf(base: int, len: int, blocks: Seq<Block>) -> bool {
    &&& base + len <= usize::MAX
    &&& base == 0 ==> len == 0
    &&& forall|i: int|
        0 <= i < blocks.len() ==> block_wf(base, base + len, #[trigger] blocks[i])
}

/// Where the next request with the given alignment would be placed.
pub open spec fn placement(base: int, blocks: Seq<Block>, align: int) -> int {
    round_up(watermark(base, blocks), align)
}

/// What an allocation request is granted: the placed address when the
/// placement leaves room inside the region, and nothing otherwise.
pub open spec fn grant(base: int, len: int, blocks: Seq<Block>, size: int, align: int) -> Option<
    int,
> {
    if placement(base, blocks, align) + size <= base + len {
        Some(placement(base, blocks, align))
    } else {
        None
    }
}

/// The bounded-region allocator the latch materializes, over plain values:
/// it records which blocks are live and where the next one goes, and never
/// touches real memory.
pub struct BackingAllocator {
    /// First address of the managed region; 0 while no region is configured.
    pub base: usize,
    /// Length of the managed region in bytes; 0 while no region is configured.
    pub len: usize,
    /// The live blocks, in order of allocation.
    pub blocks: Vec<Block>,
}

impl BackingAllocator {
    /// The address just past the managed region.
    pub open spec fn region_end(&self) -> int {
        self.base + self.len
    }

    /// Well-formed allocator.
    pub open spec fn wf(&self) -> bool {
        state_wf(self.base as int, self.len as int, self.blocks@)
    }

    /// No region configured and nothing live: the state the initializer of
    /// the latch produces.
    pub open spec fn is_unconfigured(&self) -> bool {
        &&& self.base == 0
        &&& self.len == 0
        &&& self.blocks@ == Seq::<Block>::empty()
    }

    /// What `allocate` is granted in this state.
    pub open spec fn spec_alloc(&self, size: int, align: int) -> Option<int> {
        grant(self.base as int, self.len as int, self.blocks@, size, align)
    }

    /// An allocator that manages no region yet; every request against it
    /// fails.
    pub fn empty() -> (r: Self)
        ensures
            r.is_unconfigured(),
            r.wf(),
    {
        let r = BackingAllocator { base: 0, len: 0, blocks: Vec::new() };
        proof {
            assert(r.blocks@ =~= Seq::<Block>::empty());
        }
        r
    }

    /// Configure the managed region `[base, base + len)`. The region must
    /// lie within the address space and leave out address zero, and nothing
    /// may be live: reconfiguring under live blocks would orphan them.
    pub fn init(&mut self, base: usize, len: usize)
        requires
            old(self).wf(),
            old(self).blocks@.len() == 0,
            1 <= base,
            base + len <= usize::MAX,
        ensures
            final(self).wf(),
            final(self).base == base,
            final(self).len == len,
            final(self).blocks@ == old(self).blocks@,
    {
        self.base = base;
        self.len = len;
    }

    /// Grant `size` bytes aligned to `align`: the request is placed at
    /// the first aligned address past every live block if that leaves room
    /// inside the region, and is refused — returning the null sentinel 0 —
    /// otherwise. Exactly [`grant`] decides, so equal states answer equal
    /// requests alike.
    #[verifier::loop_isolation(false)]
    pub fn allocate(&mut self, size: usize, align: usize) -> (r: usize)
        requires
            old(self).wf(),
            1 <= size,
            1 <= align,
        ensures
            final(self).wf(),
            final(self).base == old(self).base,
            final(self).len == old(self).len,
            (match old(self).spec_alloc(size as int, align as int) {
                Some(p) => {
                    &&& r == p
                    &&& r != 0
                    &&& old(self).base <= r
                    &&& r + size <= old(self).region_end()
                    &&& r as int % align as int == 0
                    &&& final(self).blocks@ == old(self).blocks@.push((r, size))
                },
                None => {
                    &&& r == 0
                    &&& final(self).blocks@ == old(self).blocks@
                },
            }),
    {
        let end = self.base + self.len;
        let n = self.blocks.len();
        let mut hw: usize = self.base;
        let mut i: usize = 0;
        while i < n
            invariant
                i <= n,
                self == old(self),
                hw == watermark(self.base as int, self.blocks@.take(i as int)),
                self.base <= hw <= self.region_end(),
            decreases n - i,
        {
            let b = self.blocks[i];
            proof {
                assert(block_wf(
                    self.base as int,
                    self.region_end(),
                    self.blocks@[i as int],
                ));
                assert(self.blocks@.take(i + 1).drop_last() =~= self.blocks@.take(i as int));
                assert(self.blocks@.take(i + 1).last() == self.blocks@[i as int]);
            }
            let e = b.0 + b.1;
            if e > hw {
                hw = e;
            }
            i += 1;
        }
        proof {
            assert(self.blocks@.take(n as int) =~= self.blocks@);
        }
        let rem = hw % align;
        let cand: usize;
        if rem == 0 {
            cand = hw;
        } else if align - rem <= usize::MAX - hw {
            cand = hw + (align - rem);
        } else {
            // the aligned placement lies beyond the address space, so past
            // the region
            return 0;
        }
        proof {
            assert(cand == round_up(hw as int, align as int));
            if rem != 0 {
                lemma_fundamental_div_mod(hw as int, align as int);
                assert(cand as int == (hw as int / align as int + 1) * (align as int))
                    by (nonlinear_arith)
                    requires
                        hw as int == (align as int) * (hw as int / align as int) + rem as int,
                        cand as int == hw as int + (align as int - rem as int),
                ;
                lemma_mod_multiples_basic(hw as int / align as int + 1, align as int);
            }
        }
        if cand <= end && size <= end - cand {
            proof {
                assert(self.base >= 1) by {
                    if self.base == 0 {
                        assert(self.len == 0);
                    }
                }
            }
            self.blocks.push((cand, size));
            cand
        } else {
            0
        }
    }

    /// Free the live block that `allocate` granted at `ptr` with size `size`:
    /// it is struck from the live blocks, and nothing else changes.
    #[verifier::loop_isolation(false)]
    pub fn deallocate(&mut self, ptr: usize, size: usize)
        requires
            old(self).wf(),
            old(self).blocks@.contains((ptr, size)),
        ensures
            final(self).wf(),
            final(self).base == old(self).base,
            final(self).len == old(self).len,
            final(self).blocks@ == old(self).blocks@.remove_value((ptr, size)),
            final(self).blocks@.len() == old(self).blocks@.len() - 1,
    {
        let n = self.blocks.len();
        let mut i: usize = 0;
        while i < n && !(self.blocks[i].0 == ptr && self.blocks[i].1 == size)
            invariant
                i <= n,
                self == old(self),
                forall|j: int| 0 <= j < i ==> #[trigger] self.blocks@[j] != (ptr, size),
            decreases n - i,
        {
            i += 1;
        }
        proof {
            let needle: Block = (ptr, size);
            assert(i < n) by {
                if i == n {
                    assert(forall|j: int|
                        0 <= j < self.blocks@.len() ==> #[trigger] self.blocks@[j] != needle);
                }
            }
            self.blocks@.index_of_first_ensures(needle);
            assert(self.blocks@.index_of_first(needle) == Some(i as int));
        }
        self.blocks.remove(i);
    }
}

} // verus!
