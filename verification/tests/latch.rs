use std::cell::Cell;

use lazy_heap::lazy_heap_empty;
use lazy_heap::BackingAllocator;
use lazy_heap::LazyHeap;

#[test]
fn allocate_before_init_fails() {
    let mut g = lazy_heap_empty();
    assert_eq!(g.allocate(16, 8), 0);
    assert_eq!(g.allocate(1, 1), 0);
    // the failed attempts corrupted nothing: wiring a region up still works
    g.init(0x1000, 4096);
    let p = g.allocate(16, 8);
    assert_eq!(p, 0x1000);
}

#[test]
fn init_then_fitting_allocate_is_in_range() {
    let mut g = lazy_heap_empty();
    g.init(0x1000, 4096);
    let p = g.allocate(64, 8);
    assert!(p != 0);
    assert!(0x1000 <= p && p + 64 <= 0x1000 + 4096);
}

#[test]
fn region_scenario_round_trip() {
    let mut g = lazy_heap_empty();
    g.init(0x1000, 4096);
    let p = g.allocate(64, 8);
    assert!(p != 0);
    assert!(0x1000 <= p && p < 0x1000 + 4096);
    g.deallocate(p, 64);
    let q = g.allocate(64, 8);
    assert!(q != 0);
    assert!(0x1000 <= q && q < 0x1000 + 4096);
    assert_eq!(q, p);
}

#[test]
fn initializer_runs_exactly_once() {
    let runs = Cell::new(0u32);
    let mut g = LazyHeap::new(|| {
        runs.set(runs.get() + 1);
        BackingAllocator::empty()
    });
    assert_eq!(runs.get(), 0);
    g.init(0x2000, 8192);
    assert_eq!(runs.get(), 1);
    let a = g.allocate(32, 8);
    let b = g.allocate(32, 8);
    g.deallocate(a, 32);
    g.deallocate(b, 32);
    let c = g.allocate(32, 8);
    assert!(c != 0);
    assert_eq!(runs.get(), 1);
}

#[test]
fn first_touch_by_allocate_also_materializes_once() {
    let runs = Cell::new(0u32);
    let mut g = LazyHeap::new(|| {
        runs.set(runs.get() + 1);
        BackingAllocator::empty()
    });
    assert_eq!(g.allocate(8, 8), 0);
    assert_eq!(g.allocate(8, 8), 0);
    assert_eq!(runs.get(), 1);
}

#[test]
fn second_allocation_lies_past_the_first() {
    let mut g = lazy_heap_empty();
    g.init(0x1000, 4096);
    let p = g.allocate(64, 8);
    let q = g.allocate(64, 8);
    assert_eq!(p, 0x1000);
    assert_eq!(q, 0x1040);
}

#[test]
fn misaligned_base_rounds_up() {
    let mut g = lazy_heap_empty();
    g.init(0x1001, 4096);
    let p = g.allocate(16, 8);
    assert_eq!(p, 0x1008);
}

#[test]
fn unfit_request_fails_and_changes_nothing() {
    let mut g = lazy_heap_empty();
    g.init(0x1000, 4096);
    assert_eq!(g.allocate(8192, 8), 0);
    assert_eq!(g.allocate(64, 8), 0x1000);
}

#[test]
fn exact_fit_is_granted() {
    let mut g = lazy_heap_empty();
    g.init(0x1000, 4096);
    assert_eq!(g.allocate(4096, 1), 0x1000);
    assert_eq!(g.allocate(1, 1), 0);
}

#[test]
fn freeing_the_top_block_lowers_the_watermark() {
    let mut g = lazy_heap_empty();
    g.init(0x1000, 4096);
    let a = g.allocate(64, 8);
    let b = g.allocate(64, 8);
    assert_eq!((a, b), (0x1000, 0x1040));
    g.deallocate(b, 64);
    assert_eq!(g.allocate(64, 8), 0x1040);
}

#[test]
fn freeing_a_lower_block_keeps_the_watermark() {
    let mut g = lazy_heap_empty();
    g.init(0x1000, 4096);
    let a = g.allocate(64, 8);
    let b = g.allocate(64, 8);
    assert_eq!((a, b), (0x1000, 0x1040));
    g.deallocate(a, 64);
    assert_eq!(g.allocate(64, 8), 0x1080);
}

#[test]
fn custom_initializer_can_preconfigure_a_region() {
    let mut g = LazyHeap::new(|| {
        let mut h = BackingAllocator::empty();
        h.init(0x8000, 0x1000);
        h
    });
    // no explicit `init` on the latch: the first touch materializes an
    // allocator that already manages a region
    let p = g.allocate(16, 8);
    assert_eq!(p, 0x8000);
    g.deallocate(p, 16);
    assert_eq!(g.allocate(16, 8), 0x8000);
}
