use changelog_batch::allocator::{BumpAllocator, RESERVED_MEM};
use changelog_batch::MyErrorCode;

#[test]
fn allocator_first_use_starts_from_high_end() {
    let mut a = BumpAllocator::new(0x1000, 0x1000);
    assert_eq!(a.pos(), 0);
    let p = a.allocate(16, 8).unwrap();
    assert_eq!(p, 0x1000 + 0x1000 - 16);
    assert_eq!(a.pos(), p);
}

#[test]
fn allocator_aligns_downward() {
    let mut a = BumpAllocator::new(0x1000, 0x1000);
    let p = a.allocate(10, 64).unwrap();
    assert_eq!(p % 64, 0);
    let q = a.allocate(1, 256).unwrap();
    assert_eq!(q % 256, 0);
    assert!(q < p);
}

#[test]
fn allocator_exhaustion_fails_without_wrapping() {
    let mut a = BumpAllocator::new(0x1000, 0x1000);
    let before = a.pos();
    let r = a.allocate(0x2000, 8);
    assert_eq!(r, Err(MyErrorCode::OutOfMemory));
    // the cursor did not move, and nothing outside the region was handed out
    assert_eq!(a.pos(), before);
    let p = a.allocate(0x800, 8).unwrap();
    assert!(p >= 0x1000 + RESERVED_MEM);
    assert!(p + 0x800 <= 0x1000 + 0x1000);
    // the rest of the region is smaller than another such request
    let r2 = a.allocate(0x1000, 8);
    assert_eq!(r2, Err(MyErrorCode::OutOfMemory));
}

#[test]
fn allocator_never_hands_out_the_reserved_cell() {
    let mut a = BumpAllocator::new(0x1000, 64);
    // 56 usable bytes remain above the reserved cursor cell
    let p = a.allocate(56, 8).unwrap();
    assert_eq!(p, 0x1000 + RESERVED_MEM);
    let r = a.allocate(1, 1);
    assert_eq!(r, Err(MyErrorCode::OutOfMemory));
}

#[test]
fn checkpoint_rollback_roundtrip() {
    let mut a = BumpAllocator::new(0x1000, 0x1000);
    let warmup = a.allocate(100, 8).unwrap();
    let checkpoint = a.get_heap_pos();

    let first: Vec<Result<usize, MyErrorCode>> =
        vec![a.allocate(64, 8), a.allocate(100, 32), a.allocate(7, 1)];
    a.free_heap(checkpoint);
    assert_eq!(a.pos(), checkpoint);

    let second: Vec<Result<usize, MyErrorCode>> =
        vec![a.allocate(64, 8), a.allocate(100, 32), a.allocate(7, 1)];
    // after rollback, the same request sequence succeeds identically
    assert_eq!(first, second);
    assert!(first.iter().all(|r| r.is_ok()));
    assert!(warmup > a.pos());
}

#[test]
fn rollback_to_zero_restores_untouched_state() {
    let mut a = BumpAllocator::new(0x1000, 0x1000);
    let checkpoint = a.get_heap_pos();
    assert_eq!(checkpoint, 0);
    let p1 = a.allocate(32, 8).unwrap();
    a.free_heap(checkpoint);
    let p2 = a.allocate(32, 8).unwrap();
    assert_eq!(p1, p2);
}

#[test]
fn heap_usage_tracks_the_cursor() {
    let mut a = BumpAllocator::new(0x1000, 0x1000);
    assert_eq!(a.total_heap_used(), 0);
    a.allocate(96, 8).unwrap();
    assert_eq!(a.total_heap_used(), 96);
    let p = a.allocate(10, 64).unwrap();
    assert_eq!(a.total_heap_used(), 0x1000 + 0x1000 - p);
}

#[test]
fn dealloc_is_a_no_op() {
    let mut a = BumpAllocator::new(0x1000, 0x1000);
    let p = a.allocate(64, 8).unwrap();
    let before = a.pos();
    a.dealloc(p, 64, 8);
    assert_eq!(a.pos(), before);
    assert_eq!(a.total_heap_used(), 64);
}

#[test]
fn move_cursor_sets_position() {
    let mut a = BumpAllocator::new(0x1000, 0x1000);
    a.allocate(128, 8).unwrap();
    let target = 0x1000 + 0x1000;
    a.move_cursor(target);
    assert_eq!(a.pos(), target);
}
