use render_alloc::allocators::{GenCookie, Handle, Pool};
use render_alloc::graphics::descriptors::{Descriptor, DescriptorRangeAllocator, InnerRange};
use render_alloc::graphics::handle::{RenderHandle, SparseArray};
use std::collections::HashMap;

/// A small generator of numbers that look random and are the same in every run.
struct Numbers(u64);

impl Numbers {
    fn next(&mut self, below: u64) -> u64 {
        self.0 = self.0.wrapping_mul(6364136223846793005).wrapping_add(1442695040888963407);
        (self.0 >> 33) % below
    }
}

#[test]
fn descriptor_allocator_agrees_with_a_map_of_slots() {
    let capacity = 64usize;
    for seed in 0..20u64 {
        let mut numbers = Numbers(seed);
        let mut heap = DescriptorRangeAllocator::new(capacity);
        let mut taken = vec![false; capacity];
        let mut held: Vec<Descriptor> = Vec::new();
        for _ in 0..400 {
            if numbers.next(3) < 2 {
                let size = numbers.next(9) as usize;
                let fits = heap.has_room(size);
                match heap.try_allocate(size) {
                    Some(descriptor) => {
                        assert!(fits);
                        assert_eq!(descriptor.count(), size);
                        for slot in descriptor.index()..descriptor.index() + size {
                            assert!(!taken[slot]);
                            taken[slot] = true;
                        }
                        held.push(descriptor);
                    }
                    None => assert!(!fits),
                }
            } else if !held.is_empty() {
                let descriptor = held.swap_remove(numbers.next(held.len() as u64) as usize);
                for slot in descriptor.index()..descriptor.index() + descriptor.count() {
                    assert!(taken[slot]);
                    taken[slot] = false;
                }
                heap.free(descriptor);
            }
            // The free ranges are the runs of free slots, longest first.
            let ranges = heap.free_range_list();
            let mut runs: Vec<InnerRange> = Vec::new();
            let mut slot = 0;
            while slot < capacity {
                if taken[slot] {
                    slot += 1;
                    continue;
                }
                let start = slot;
                while slot < capacity && !taken[slot] {
                    slot += 1;
                }
                runs.push(InnerRange { start, end: slot });
            }
            let mut sorted = ranges.clone();
            sorted.sort_by_key(|r| r.start);
            assert_eq!(sorted, runs);
            assert!(ranges.windows(2).all(|pair| pair[0].len() >= pair[1].len()));
        }
        for descriptor in held {
            heap.free(descriptor);
        }
        assert_eq!(heap.free_range_list(), vec![InnerRange { start: 0, end: capacity }]);
    }
}

#[test]
fn pool_agrees_with_a_map_of_handles() {
    for seed in 0..20u64 {
        let mut numbers = Numbers(seed);
        let mut pool: Pool<u64> = Pool::new(Some(4));
        let mut live: Vec<(Handle<u64, GenCookie>, u64)> = Vec::new();
        let mut stale: Vec<Handle<u64, GenCookie>> = Vec::new();
        for step in 0..500u64 {
            match numbers.next(4) {
                0 | 1 => {
                    let handle = pool.push(step);
                    assert!(live.iter().all(|(other, _)| other.index() != handle.index()));
                    assert!(stale.iter().all(|other| *other != handle));
                    live.push((handle, step));
                }
                2 if !live.is_empty() => {
                    let (handle, _) = live.swap_remove(numbers.next(live.len() as u64) as usize);
                    pool.remove(handle);
                    stale.push(handle);
                }
                _ if !stale.is_empty() => {
                    let handle = stale[numbers.next(stale.len() as u64) as usize];
                    pool.remove(handle);
                }
                _ => {}
            }
            for (handle, value) in &live {
                assert_eq!(pool.get(*handle), Some(value));
                assert!(pool.is_valid(*handle));
            }
            for handle in &stale {
                assert_eq!(pool.get(*handle), None);
                assert!(!pool.is_valid(*handle));
            }
            assert!(pool.slot_count() >= live.len());
        }
    }
}

#[test]
fn sparse_array_agrees_with_a_hash_map() {
    for seed in 0..20u64 {
        let mut numbers = Numbers(seed);
        let mut array: SparseArray<u8, u64> = SparseArray::new(4);
        let mut model: HashMap<u32, (u32, u64)> = HashMap::new();
        for step in 0..500u64 {
            let index = numbers.next(12) as u32;
            let gen = numbers.next(3) as u32;
            let handle: RenderHandle<u8> = RenderHandle::new(index, gen);
            match numbers.next(4) {
                0 | 1 => {
                    array.set(handle, step);
                    model.insert(index, (gen, step));
                }
                2 => {
                    array.remove(handle);
                    if model.get(&index).is_some_and(|(stored, _)| *stored == gen) {
                        model.remove(&index);
                    }
                }
                _ => {
                    if let Some(value) = array.get_mut(handle) {
                        *value += 1000;
                        let entry = model.get_mut(&index).unwrap();
                        assert_eq!(entry.0, gen);
                        entry.1 += 1000;
                    } else {
                        assert!(!model.get(&index).is_some_and(|(stored, _)| *stored == gen));
                    }
                }
            }
            for index in 0..12u32 {
                for gen in 0..3u32 {
                    let handle: RenderHandle<u8> = RenderHandle::new(index, gen);
                    let expected = model.get(&index).filter(|(stored, _)| *stored == gen).map(|(_, v)| v);
                    assert_eq!(array.get(handle), expected);
                    assert_eq!(array.contains(handle), expected.is_some());
                }
            }
        }
    }
}
