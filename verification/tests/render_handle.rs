use render_alloc::graphics::handle::{RenderHandle, RenderHandleAllocator};
use std::collections::HashSet;

#[test]
fn render_handle_keeps_index_and_generation() {
    let handle: RenderHandle<u8> = RenderHandle::new(3, 7);
    assert_eq!(handle.idx(), 3);
    assert_eq!(handle.gen(), 7);
    let top: RenderHandle<u8> = RenderHandle::new(u32::MAX, u32::MAX - 1);
    assert_eq!(top.idx(), u32::MAX);
    assert_eq!(top.gen(), u32::MAX - 1);
}

#[test]
fn render_handles_compare_by_index_and_generation() {
    let a: RenderHandle<u8> = RenderHandle::new(1, 2);
    let b: RenderHandle<u8> = RenderHandle::new(1, 2);
    let other_gen: RenderHandle<u8> = RenderHandle::new(1, 3);
    let other_index: RenderHandle<u8> = RenderHandle::new(2, 2);
    assert_eq!(a, b);
    assert_ne!(a, other_gen);
    assert_ne!(a, other_index);
    let copy = a;
    assert_eq!(copy, a.clone());
}

#[test]
fn new_indices_start_with_generation_zero() {
    let mut allocator: RenderHandleAllocator<u8> = RenderHandleAllocator::new();
    let a = allocator.allocate();
    let b = allocator.allocate();
    assert_eq!((a.idx(), a.gen()), (0, 0));
    assert_eq!((b.idx(), b.gen()), (1, 0));
    assert!(allocator.is_valid(a));
    assert!(allocator.is_valid(b));
}

#[test]
fn freed_index_comes_back_with_the_next_generation() {
    let mut allocator: RenderHandleAllocator<u8> = RenderHandleAllocator::new();
    let a = allocator.allocate();
    let b = allocator.allocate();
    allocator.free(a);
    assert!(!allocator.is_valid(a));
    assert!(allocator.is_valid(b));
    let c = allocator.allocate();
    assert_eq!((c.idx(), c.gen()), (0, 1));
    assert!(allocator.is_valid(c));
    assert!(!allocator.is_valid(a));
    let d = allocator.allocate();
    assert_eq!((d.idx(), d.gen()), (2, 0));
}

#[test]
fn freeing_a_handle_twice_frees_its_index_once() {
    let mut allocator: RenderHandleAllocator<u8> = RenderHandleAllocator::new();
    let a = allocator.allocate();
    allocator.free(a);
    allocator.free(a);
    let b = allocator.allocate();
    let c = allocator.allocate();
    assert_eq!((b.idx(), b.gen()), (0, 1));
    assert_eq!((c.idx(), c.gen()), (1, 0));
    // The stale handle does not free the index under its new owner.
    allocator.free(a);
    assert!(allocator.is_valid(b));
}

#[test]
fn handle_to_an_index_that_was_never_given_out_is_not_valid() {
    let mut allocator: RenderHandleAllocator<u8> = RenderHandleAllocator::new();
    let far: RenderHandle<u8> = RenderHandle::new(5, 0);
    assert!(!allocator.is_valid(far));
    allocator.free(far);
    let a = allocator.allocate();
    assert_eq!((a.idx(), a.gen()), (0, 0));
}

#[test]
fn freed_indices_come_back_last_freed_first() {
    let mut allocator: RenderHandleAllocator<u8> = RenderHandleAllocator::new();
    let a = allocator.allocate();
    let b = allocator.allocate();
    let c = allocator.allocate();
    allocator.free(b);
    allocator.free(a);
    allocator.free(c);
    assert_eq!(allocator.allocate().idx(), 2);
    assert_eq!(allocator.allocate().idx(), 0);
    assert_eq!(allocator.allocate().idx(), 1);
    assert_eq!(allocator.allocate().idx(), 3);
}

#[test]
fn equal_render_handles_hash_alike() {
    let mut seen: HashSet<RenderHandle<u8>> = HashSet::new();
    assert!(seen.insert(RenderHandle::new(1, 2)));
    assert!(!seen.insert(RenderHandle::new(1, 2)));
    assert!(seen.insert(RenderHandle::new(1, 3)));
    assert!(seen.insert(RenderHandle::new(2, 2)));
    assert!(seen.contains(&RenderHandle::new(2, 2)));
    assert_eq!(seen.len(), 3);
}
