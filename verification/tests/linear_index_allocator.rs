use render_alloc::allocators::LinearIndexAllocator;

#[test]
fn freed_index_is_reused_before_a_new_one() {
    let mut allocator = LinearIndexAllocator::new();
    assert_eq!(allocator.allocate(), 0);
    assert_eq!(allocator.allocate(), 1);
    allocator.free(0);
    assert_eq!(allocator.allocate(), 0);
    assert_eq!(allocator.allocate(), 2);
}

#[test]
fn freed_indices_come_back_last_in_first_out() {
    let mut allocator = LinearIndexAllocator::new();
    for expected in 0..4 {
        assert_eq!(allocator.allocate(), expected);
    }
    allocator.free(1);
    allocator.free(3);
    allocator.free(0);
    assert_eq!(allocator.allocate(), 0);
    assert_eq!(allocator.allocate(), 3);
    assert_eq!(allocator.allocate(), 1);
    assert_eq!(allocator.allocate(), 4);
}

#[test]
fn free_of_an_index_that_was_never_handed_out_is_ignored() {
    let mut allocator = LinearIndexAllocator::new();
    allocator.free(0);
    allocator.free(17);
    assert_eq!(allocator.allocate(), 0);
    allocator.free(1);
    allocator.free(usize::MAX);
    assert_eq!(allocator.allocate(), 1);
    assert_eq!(allocator.allocate(), 2);
}

#[test]
fn index_that_is_freed_twice_is_handed_out_once() {
    let mut allocator = LinearIndexAllocator::new();
    assert_eq!(allocator.allocate(), 0);
    assert_eq!(allocator.allocate(), 1);
    assert_eq!(allocator.allocate(), 2);
    allocator.free(1);
    allocator.free(1);
    allocator.free(0);
    allocator.free(1);
    assert_eq!(allocator.allocate(), 0);
    assert_eq!(allocator.allocate(), 1);
    assert_eq!(allocator.allocate(), 3);
    // Once it is live again it can be freed again.
    allocator.free(1);
    assert_eq!(allocator.allocate(), 1);
    assert_eq!(allocator.handed_out(), 4);
}
