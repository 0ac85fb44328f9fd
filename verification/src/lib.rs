//! A heap allocator latch that defers its own initialization to first touch.
//!
//! A freestanding program wants dynamic allocation without having to wire the
//! allocator up before the first use: the first call to `init`, `allocate` or
//! `deallocate` must materialize the backing allocator, exactly once, and
//! every later call must find that same instance again. The latch that decides
//! this lives in [`latch`] as [`latch::LazyHeap`]; the bounded-region allocator
//! it wraps is modelled over plain addresses in [`backing`].

pub mod backing;
pub mod latch;
pub mod laws;

pub use backing::BackingAllocator;
pub use latch::LazyHeap;
pub use latch::lazy_heap_empty;
