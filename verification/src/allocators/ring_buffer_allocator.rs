use vstd::prelude::*;
use super::borrow_many::{disjoint_entries, map_each};
use super::cookies::{Cookie, EmptyCookie};
use super::handle::{pack, Handle};
use super::ring_buffer_index_allocator::RingBufferIndexAllocator;

verus! {

/// Storage for values that live for a few generations, on the slots of a
/// [`RingBufferIndexAllocator`]. A handle is the index of a slot and nothing
/// more: it is not checked for staleness, and a slot keeps its value until
/// the slot is handed out again.
#[derive(Debug)]
pub struct RingBuffer<T, const N: usize> {
    array: Vec<RingBufferEntry<T>>,
    allocator: RingBufferIndexAllocator<N>,
}

#[derive(Debug)]
struct RingBufferEntry<T> {
    item: Option<T>,
}

impl<T, const N: usize> RingBuffer<T, N> {
    /// Number of slots in the storage.
    pub closed spec fn slots(&self) -> nat {
        self.array@.len()
    }

    /// What slot `i` holds.
    pub closed spec fn slot_value(&self, i: int) -> Option<T> {
        self.array@[i].item
    }

    /// The allocator that hands out the slots.
    pub closed spec fn allocator(&self) -> RingBufferIndexAllocator<N> {
        self.allocator
    }

    /// The allocator is well formed and every offset it can hand out is a
    /// slot of the storage.
    pub open spec fn wf(&self) -> bool {
        &&& self.allocator().wf()
        &&& self.allocator().capacity() <= self.slots()
    }

    /// Every slot but slot `i` is in `other` what it is in `self`.
    pub open spec fn same_but(&self, other: &Self, i: int) -> bool {
        forall|j: int|
            0 <= j < self.slots() && j != i ==> j < other.slots() && other.slot_value(j)
                == self.slot_value(j)
    }

    /// A storage of `N` times `capacity` empty slots, of which the first
    /// `capacity` are handed out; `capacity` is 1024 where none is given.
    pub fn new(capacity: Option<usize>) -> (r: Self)
        requires
            N * (match capacity {
                Some(c) => c as int,
                None => 1024,
            }) <= usize::MAX,
        ensures
            r.slots() == N * r.allocator().capacity(),
            r.allocator().capacity() == match capacity {
                Some(c) => c as int,
                None => 1024,
            },
            r.allocator().size() == 0,
            r.allocator().back() == 0,
            r.allocator().front() == 0,
            r.allocator().index() == 0,
            r.allocator().sizes() == Seq::new(N as nat, |i: int| 0usize),
            forall|i: int| 0 <= i < r.slots() ==> r.slot_value(i) is None,
            N > 0 && capacity != Some(0usize) ==> r.wf(),
    {
        let capacity = match capacity {
            Some(c) => c,
            None => 1024,
        };
        let total = N * capacity;
        let mut array: Vec<RingBufferEntry<T>> = Vec::with_capacity(total);
        let mut i: usize = 0;
        while i < total
            invariant
                i <= total,
                array@.len() == i,
                forall|j: int| 0 <= j < i ==> (#[trigger] array@[j]).item is None,
            decreases total - i,
        {
            array.push(RingBufferEntry { item: None });
            i += 1;
        }
        proof {
            if N > 0 {
                assert(capacity <= N * capacity) by (nonlinear_arith)
                    requires
                        N >= 1,
                        capacity >= 0,
                ;
            }
        }
        Self { array, allocator: RingBufferIndexAllocator::new(Some(capacity)) }
    }

    /// Moves the allocator on to the next generation, which makes the slots
    /// of the oldest generation available again.
    pub fn next_ring(&mut self)
        requires
            old(self).wf(),
        ensures
            final(self).wf(),
            final(self).slots() == old(self).slots(),
            forall|i: int| 0 <= i < old(self).slots() ==> final(self).slot_value(i) == old(
                self,
            ).slot_value(i),
            final(self).allocator().after_next_ring(&old(self).allocator()),
    {
        self.allocator.next_ring();
    }

    /// Stores `value` in the next free slot and returns the handle to it, or
    /// `None` where no slot is free: the value is dropped then. The allocator
    /// moves as it does for a block of one unit.
    pub fn push(&mut self, value: T) -> (r: Option<Handle<T, EmptyCookie>>)
        requires
            old(self).allocator().capacity() >= 1 ==> old(self).wf(),
        ensures
            old(self).wf() ==> final(self).wf(),
            final(self).slots() == old(self).slots(),
            match old(self).allocator().placement(1) {
                None => {
                    &&& r is None
                    &&& final(self).allocator().after_allocate(
                        &old(self).allocator(),
                        1,
                        None::<usize>,
                    )
                    &&& forall|i: int|
                        0 <= i < old(self).slots() ==> final(self).slot_value(i) == old(
                            self,
                        ).slot_value(i)
                },
                Some((start, waste)) => {
                    &&& r matches Some(h)
                    &&& h.bits() == pack(
                        #[verifier::truncate]
                        (start as u32),
                        0,
                    )
                    &&& start <= u32::MAX ==> h.spec_index() == start
                    &&& final(self).allocator().after_allocate(
                        &old(self).allocator(),
                        1,
                        Some(start),
                    )
                    &&& !old(self).allocator().is_live(start as int)
                    &&& final(self).allocator().is_live(start as int)
                    &&& final(self).slot_value(start as int) == Some(value)
                    &&& old(self).same_but(final(self), start as int)
                },
            },
    {
        let idx = match self.allocator.allocate(1) {
            Some(idx) => idx,
            None => {
                return None;
            },
        };
        self.array[idx].item = Some(value);
        Some(Handle::new(
            #[verifier::truncate]
            (idx as u32),
            EmptyCookie,
        ))
    }

    /// What the slot of `handle` holds, or `None` where the storage has no
    /// such slot.
    pub fn get(&self, handle: Handle<T, EmptyCookie>) -> (r: Option<&T>)
        ensures
            handle.spec_index() >= self.slots() ==> r is None,
            handle.spec_index() < self.slots() ==> match r {
                Some(v) => self.slot_value(handle.spec_index() as int) == Some(*v),
                None => self.slot_value(handle.spec_index() as int) is None,
            },
    {
        let idx = handle.index();
        if idx >= self.array.len() {
            return None;
        }
        self.array[idx].item.as_ref()
    }

    /// What the slot of `handle` holds, for changing it in place, or `None`
    /// where the storage has no such slot or the slot is empty.
    pub fn get_mut(&mut self, handle: Handle<T, EmptyCookie>) -> (r: Option<&mut T>)
        ensures
            final(self).slots() == old(self).slots(),
            final(self).allocator() == old(self).allocator(),
            old(self).same_but(final(self), handle.spec_index() as int),
            handle.spec_index() >= old(self).slots() ==> r is None,
            handle.spec_index() < old(self).slots() ==> match r {
                Some(v) => {
                    &&& old(self).slot_value(handle.spec_index() as int) == Some(*v)
                    &&& final(self).slot_value(handle.spec_index() as int) == Some(*final(v))
                },
                None => {
                    &&& old(self).slot_value(handle.spec_index() as int) is None
                    &&& final(self).slot_value(handle.spec_index() as int) is None
                },
            },
    {
        let idx = handle.index();
        if idx >= self.array.len() {
            return None;
        }
        self.array[idx].item.as_mut()
    }

    /// What the slots of the handles hold, all at once, for changing it in
    /// place: for each handle its value, or `None` where its slot is empty.
    /// Returns `None` where the storage lacks one of the slots or where two
    /// handles name the same slot.
    pub fn get_many<const M: usize>(&mut self, handles: [Handle<T, EmptyCookie>; M]) -> (r: Option<
        [Option<&mut T>; M],
    >)
        ensures
            r is Some <==> {
                &&& forall|i: int| 0 <= i < M ==> (#[trigger] handles@[i]).spec_index() < old(self).slots()
                &&& forall|i: int, j: int|
                    0 <= i < j < M ==> (#[trigger] handles@[i]).spec_index() != (
                    #[trigger] handles@[j]).spec_index()
            },
            final(self).slots() == old(self).slots(),
            final(self).allocator() == old(self).allocator(),
            forall|k: int|
                0 <= k < old(self).slots() && (r is None || forall|i: int|
                    0 <= i < M ==> (#[trigger] handles@[i]).spec_index() != k)
                    ==> final(self).slot_value(k) == old(self).slot_value(k),
            r matches Some(refs) ==> forall|i: int|
                0 <= i < M ==> match #[trigger] refs@[i] {
                    Some(v) => {
                        &&& old(self).slot_value(handles@[i].spec_index() as int) == Some(*v)
                        &&& final(self).slot_value(handles@[i].spec_index() as int) == Some(
                            *final(v),
                        )
                    },
                    None => {
                        &&& old(self).slot_value(handles@[i].spec_index() as int) is None
                        &&& final(self).slot_value(handles@[i].spec_index() as int) is None
                    },
                },
    {
        let mut indices = [0usize;M];
        let mut i: usize = 0;
        while i < M
            invariant
                i <= M,
                forall|j: int| 0 <= j < i ==> indices@[j] == (#[trigger] handles@[j]).spec_index(),
            decreases M - i,
        {
            indices[i] = handles[i].index();
            i += 1;
        }
        proof {
            assert forall|i: int|
                #![trigger indices@[i]]
                #![trigger handles@[i]]
                0 <= i < M implies indices@[i] == handles@[i].spec_index() by {}
        }
        match disjoint_entries(&mut self.array, indices) {
            Some(entries) => Some(map_each(entries, slot_of)),
            None => None,
        }
    }
}

/// What an entry holds, for changing it in place.
fn slot_of<T>(entry: &mut RingBufferEntry<T>) -> (r: Option<&mut T>)
    ensures
        match r {
            Some(v) => old(entry).item == Some(*v) && final(entry).item == Some(*final(v)),
            None => old(entry).item is None && final(entry).item is None,
        },
{
    entry.item.as_mut()
}

} // verus!
