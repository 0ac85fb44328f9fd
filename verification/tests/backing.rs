use lazy_heap::BackingAllocator;

#[test]
fn empty_backing_allocator_rejects_everything() {
    let mut h = BackingAllocator::empty();
    assert_eq!(h.allocate(1, 1), 0);
    assert_eq!(h.allocate(64, 4096), 0);
}

#[test]
fn backing_allocator_round_trip() {
    let mut h = BackingAllocator::empty();
    h.init(0x4000, 0x1000);
    let p = h.allocate(128, 16);
    assert_eq!(p, 0x4000);
    h.deallocate(p, 128);
    assert_eq!(h.allocate(128, 16), 0x4000);
}

#[test]
fn backing_allocator_alignment_is_kept() {
    let mut h = BackingAllocator::empty();
    h.init(0x4000, 0x1000);
    let p = h.allocate(3, 1);
    let q = h.allocate(8, 64);
    assert_eq!(p, 0x4000);
    assert_eq!(q % 64, 0);
    assert_eq!(q, 0x4040);
}

#[test]
fn huge_alignment_fails_cleanly() {
    let mut h = BackingAllocator::empty();
    h.init(usize::MAX - 0x100, 0x100);
    // rounding the watermark up to this alignment would leave the address
    // space, so the request must be refused, not wrap around
    assert_eq!(h.allocate(1, 1 << 63), 0);
}
