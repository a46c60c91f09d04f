use kernel::allocator::{align_up, is_power_of_two, BumpAllocator};

#[test]
fn new_allocator_is_empty() {
    let a = BumpAllocator::new();
    assert_eq!(a.heap_start, 0);
    assert_eq!(a.heap_end, 0);
    assert_eq!(a.next, 0);
}

#[test]
fn init_adopts_region() {
    let mut a = BumpAllocator::new();
    a.init(8192, 4096);
    assert_eq!(a.heap_start, 8192);
    assert_eq!(a.heap_end, 8192 + 4096);
    assert_eq!(a.next, 8192);
}

#[test]
fn region_scenario_two_grants_then_out_of_memory() {
    let mut a = BumpAllocator::new();
    a.init(8192, 4096);
    assert_eq!(a.allocate(16, 8), Some(8192));
    assert_eq!(a.allocate(100, 4), Some(8192 + 16));
    assert_eq!(a.allocate(4000, 4), None);
}

#[test]
fn failed_allocate_is_idempotent() {
    let mut a = BumpAllocator::new();
    a.init(4096, 64);
    assert_eq!(a.allocate(40, 8), Some(4096));
    let cursor = a.next;
    assert_eq!(a.allocate(100, 8), None);
    assert_eq!(a.next, cursor);
    assert_eq!(a.allocate(100, 8), None);
    assert_eq!(a.next, cursor);
    assert_eq!(a.allocate(8, 8), Some(4096 + 40));
}

#[test]
fn grants_are_aligned_increasing_and_disjoint() {
    let mut a = BumpAllocator::new();
    a.init(10_000, 2048);
    let requests: [(usize, usize); 5] = [(3, 1), (10, 8), (1, 64), (25, 4), (2, 2)];
    let mut granted: Vec<(usize, usize)> = Vec::new();
    for (size, align) in requests {
        if let Some(addr) = a.allocate(size, align) {
            assert_eq!(addr % align, 0);
            granted.push((addr, size));
        }
    }
    assert_eq!(granted.len(), 5);
    for w in granted.windows(2) {
        let (a0, s0) = w[0];
        let (a1, _) = w[1];
        assert!(a0 < a1);
        assert!(a0 + s0 <= a1);
    }
}

#[test]
fn allocate_detects_address_wraparound() {
    let mut a = BumpAllocator::new();
    a.init(usize::MAX - 64, 64);
    let cursor = a.next;
    assert_eq!(a.allocate(100, 1), None);
    assert_eq!(a.next, cursor);
    let huge_align: usize = 1 << (usize::BITS - 1);
    assert_eq!(a.allocate(1, huge_align), None);
    assert_eq!(a.next, cursor);
    // the region start is not 8-aligned; the grant is rounded up to the
    // next multiple of 8
    assert_eq!(a.allocate(8, 8), Some(usize::MAX - 63));
}

#[test]
fn deallocate_is_a_no_op() {
    let mut a = BumpAllocator::new();
    a.init(4096, 128);
    let addr = a.allocate(32, 8).unwrap();
    let before = (a.heap_start, a.heap_end, a.next);
    a.deallocate(addr, 32);
    assert_eq!((a.heap_start, a.heap_end, a.next), before);
}

#[test]
fn align_up_rounds_to_next_multiple() {
    assert_eq!(align_up(5, 8), 8);
    assert_eq!(align_up(8, 8), 8);
    assert_eq!(align_up(0, 16), 0);
    assert_eq!(align_up(7, 1), 7);
    assert_eq!(align_up(4097, 4096), 8192);
}

#[test]
fn power_of_two_test_matches_definition() {
    assert!(is_power_of_two(1));
    assert!(is_power_of_two(2));
    assert!(is_power_of_two(4));
    assert!(is_power_of_two(1024));
    assert!(is_power_of_two(1 << (usize::BITS - 1)));
    assert!(!is_power_of_two(0));
    assert!(!is_power_of_two(3));
    assert!(!is_power_of_two(6));
    assert!(!is_power_of_two(usize::MAX));
}
