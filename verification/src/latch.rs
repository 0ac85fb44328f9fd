//! The lazy initialization latch.
//!
//! [`LazyHeap`] wraps one [`BackingAllocator`] behind a one-time
//! materialization step: construction stores an initializer without running
//! it, and the first call to `init`, `allocate` or `deallocate` runs it,
//! exactly once, to produce the instance that every later call finds again.
//! The state machine has two states — not ready, then ready — and the
//! transition fires once and never reverses; the ghost run counter in the
//! latch pins that down: it is 0 before the transition and 1 ever after.

use vstd::prelude::*;

verus! {

use crate::backing::BackingAllocator;
use crate::backing::Block;

/// How one `allocate` call moves the backing allocator from `h0` to `h1`
/// and returns `r`: exactly the transition [`BackingAllocator::allocate`]
/// promises.
pub open spec fn alloc_step(
    h0: BackingAllocator,
    h1: BackingAllocator,
    size: usize,
    align: usize,
    r: usize,
) -> bool {
    &&& h1.base == h0.base
    &&& h1.len == h0.len
    &&& match h0.spec_alloc(size as int, align as int) {
        Some(p) => {
            &&& r == p
            &&& r != 0
            &&& h0.base <= r
            &&& r + size <= h0.region_end()
            &&& r as int % align as int == 0
            &&& h1.blocks@ == h0.blocks@.push((r, size))
        },
        None => {
            &&& r == 0
            &&& h1.blocks@ == h0.blocks@
        },
    }
}

/// How one `deallocate` call moves the backing allocator from `h0` to `h1`:
/// exactly the transition [`BackingAllocator::deallocate`] promises.
pub open spec fn dealloc_step(
    h0: BackingAllocator,
    h1: BackingAllocator,
    ptr: usize,
    size: usize,
) -> bool {
    &&& h1.base == h0.base
    &&& h1.len == h0.len
    &&& h1.blocks@ == h0.blocks@.remove_value((ptr, size))
}

/// The lazy initialization latch around one backing allocator.
pub struct LazyHeap<F> where F: Fn() -> BackingAllocator {
    /// The initializer; stored at construction, run at most once, ever.
    pub initializer: F,
    /// The materialized backing allocator; `None` until first touch.
    pub inner: Option<BackingAllocator>,
    /// How many times the initializer has run.
    pub runs: Ghost<int>,
}

impl<F> LazyHeap<F> where F: Fn() -> BackingAllocator {
    /// The latch is ready once the backing allocator is materialized.
    pub open spec fn is_ready(&self) -> bool {
        self.inner is Some
    }

    /// The materialized backing allocator.
    pub open spec fn backing(&self) -> BackingAllocator {
        self.inner->0
    }

    /// A reachable latch state: the stored initializer can be run and yields
    /// a well-formed allocator with nothing live; the initializer has run
    /// exactly once if the latch is ready and never otherwise; and a
    /// materialized allocator is well-formed.
    pub open spec fn wf(&self) -> bool {
        &&& call_requires(self.initializer, ())
        &&& forall|b: BackingAllocator|
            #[trigger] call_ensures(self.initializer, (), b) ==> b.wf() && b.blocks@.len() == 0
        &&& self.runs@ == if self.is_ready() {
            1int
        } else {
            0int
        }
        &&& self.is_ready() ==> self.backing().wf()
    }

    /// Store `initializer` without running it. The initializer must be
    /// infallible and must produce a well-formed backing allocator with
    /// nothing live: the memory region itself is wired up later, through
    /// [`LazyHeap::init`].
    pub fn new(initializer: F) -> (r: LazyHeap<F>)
        requires
            call_requires(initializer, ()),
            forall|b: BackingAllocator|
                #[trigger] call_ensures(initializer, (), b) ==> b.wf() && b.blocks@.len() == 0,
        ensures
            r.wf(),
            !r.is_ready(),
            r.runs@ == 0,
            r.initializer == initializer,
    {
        LazyHeap { initializer, inner: None, runs: Ghost(0int) }
    }

    /// The latch itself: materialize the backing allocator on first touch.
    /// A ready latch is left word for word as it was — the initializer never
    /// runs a second time — and a latch that was not ready holds, from here
    /// on, one allocator the initializer produced.
    pub fn ensure_ready(&mut self)
        requires
            old(self).wf(),
        ensures
            final(self).wf(),
            final(self).is_ready(),
            final(self).runs@ == 1,
            final(self).initializer == old(self).initializer,
            old(self).is_ready() ==> *final(self) == *old(self),
            !old(self).is_ready() ==> call_ensures(
                old(self).initializer,
                (),
                final(self).backing(),
            ) && final(self).backing().blocks@.len() == 0,
    {
        if self.inner.is_none() {
            let b = (self.initializer)();
            self.inner = Some(b);
            proof {
                self.runs@ = self.runs@ + 1;
            }
        }
    }

    /// Materialize the backing allocator if need be, then configure it to
    /// manage `[base, base + len)`. Nothing may be live in a ready latch:
    /// reconfiguring under live blocks would orphan them.
    pub fn init(&mut self, base: usize, len: usize)
        requires
            old(self).wf(),
            1 <= base,
            base + len <= usize::MAX,
            old(self).is_ready() ==> old(self).backing().blocks@.len() == 0,
        ensures
            final(self).wf(),
            final(self).is_ready(),
            final(self).runs@ == 1,
            old(self).is_ready() ==> final(self).runs@ == old(self).runs@,
            final(self).initializer == old(self).initializer,
            final(self).backing().base == base,
            final(self).backing().len == len,
            final(self).backing().blocks@ == Seq::<Block>::empty(),
    {
        self.ensure_ready();
        match &mut self.inner {
            Some(b) => {
                b.init(base, len);
            },
            None => {
                proof {
                    assert(false);
                }
            },
        }
        proof {
            assert(self.backing().blocks@ =~= Seq::<Block>::empty());
        }
    }

    /// Materialize the backing allocator if need be, then ask it for `size`
    /// bytes aligned to `align`. Returns the placed address, or the null
    /// sentinel 0 when the request does not fit — in particular always 0
    /// while no region has been configured. A ready latch answers exactly as
    /// its materialized allocator does; a latch touched for the first time
    /// answers as one allocator the initializer produced does.
    pub fn allocate(&mut self, size: usize, align: usize) -> (r: usize)
        requires
            old(self).wf(),
            1 <= size,
            1 <= align,
        ensures
            final(self).wf(),
            final(self).is_ready(),
            final(self).runs@ == 1,
            old(self).is_ready() ==> final(self).runs@ == old(self).runs@,
            final(self).initializer == old(self).initializer,
            old(self).is_ready() ==> alloc_step(
                old(self).backing(),
                final(self).backing(),
                size,
                align,
                r,
            ),
            !old(self).is_ready() ==> (exists|b: BackingAllocator|
                {
                    &&& call_ensures(old(self).initializer, (), b)
                    &&& b.blocks@.len() == 0
                    &&& alloc_step(b, final(self).backing(), size, align, r)
                }),
    {
        self.ensure_ready();
        let ghost mat = self.backing();
        let r: usize;
        match &mut self.inner {
            Some(b) => {
                r = b.allocate(size, align);
            },
            None => {
                proof {
                    assert(false);
                }
                r = 0;
            },
        }
        proof {
            if !old(self).is_ready() {
                assert(call_ensures(old(self).initializer, (), mat) && mat.blocks@.len() == 0
                    && alloc_step(mat, self.backing(), size, align, r));
            }
        }
        r
    }

    /// Free the live block that `allocate` granted at `ptr` with size
    /// `size`. A pointer can only have been granted by a ready latch, so the
    /// materialization step that the allocation path runs defensively is a
    /// proven no-op here.
    pub fn deallocate(&mut self, ptr: usize, size: usize)
        requires
            old(self).wf(),
            old(self).is_ready(),
            old(self).backing().blocks@.contains((ptr, size)),
        ensures
            final(self).wf(),
            final(self).is_ready(),
            final(self).runs@ == old(self).runs@,
            final(self).runs@ == 1,
            final(self).initializer == old(self).initializer,
            dealloc_step(old(self).backing(), final(self).backing(), ptr, size),
    {
        self.ensure_ready();
        match &mut self.inner {
            Some(b) => {
                b.deallocate(ptr, size);
            },
            None => {
                proof {
                    assert(false);
                }
            },
        }
    }
}

/// Construct a latch whose initializer produces an allocator that manages no
/// region at all, so that every request fails until [`LazyHeap::init`] has
/// configured one.
pub fn lazy_heap_empty() -> (r: LazyHeap<impl Fn() -> BackingAllocator>)
    ensures
        r.wf(),
        !r.is_ready(),
        r.runs@ == 0,
        call_requires(r.initializer, ()),
        forall|b: BackingAllocator|
            #[trigger] call_ensures(r.initializer, (), b) ==> b.is_unconfigured(),
{
    let f = || -> (b: BackingAllocator)
        ensures
            b.is_unconfigured(),
            b.wf(),
        {
            BackingAllocator::empty()
        };
    LazyHeap::new(f)
}

} // verus!
