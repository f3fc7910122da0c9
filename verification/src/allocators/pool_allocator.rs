use vstd::prelude::*;
use super::borrow_many::{disjoint_entries, map_each};
use super::cookies::{Cookie, GenCookie, GEN_MASK};
use super::handle::{lemma_pack_halves, pack, Handle};
use super::linear_index_allocator::LinearIndexAllocator;

verus! {

/// Storage of values in numbered slots. A value is reached through the
/// handle that [`Pool::push`] returned for it. A handle stops working when
/// its value is removed, also where the slot is used again afterwards: each
/// removal gives the slot a new generation.
#[derive(Debug)]
pub struct Pool<T> {
    array: Vec<PoolEntry<T>>,
    allocator: LinearIndexAllocator,
}

#[derive(Debug)]
struct PoolEntry<T> {
    item: Option<T>,
    gen: GenCookie,
}

/// The generation that follows `gen`: one more, and 0 after `u32::MAX`.
pub open spec fn next_generation(gen: u32) -> u32 {
    if gen == u32::MAX {
        0
    } else {
        (gen + 1) as u32
    }
}

impl<T> Pool<T> {
    /// Number of slots, occupied or not.
    pub closed spec fn slots(&self) -> nat {
        self.array@.len()
    }

    /// What slot `i` holds.
    pub closed spec fn slot_value(&self, i: int) -> Option<T> {
        self.array@[i].item
    }

    /// The generation of slot `i`.
    pub closed spec fn slot_gen(&self, i: int) -> u32 {
        self.array@[i].gen.gen
    }

    /// The indices of the empty slots, in the order in which they were
    /// emptied.
    pub closed spec fn free_slots(&self) -> Seq<usize> {
        self.allocator.free_list()
    }

    /// The index of the slot that the next value goes to: the slot that was
    /// emptied last, or a new slot where every slot is occupied.
    pub open spec fn next_index(&self) -> usize {
        if self.free_slots().len() > 0 {
            self.free_slots().last()
        } else {
            self.slots() as usize
        }
    }

    /// A slot holds a value exactly when it is marked active, and the empty
    /// slots are those that wait for reuse, each of them once.
    pub closed spec fn wf(&self) -> bool {
        &&& self.allocator.wf()
        &&& self.allocator.size() == self.array@.len()
        &&& forall|i: int|
            0 <= i < self.array@.len() ==> ((#[trigger] self.array@[i]).gen.active
                <==> self.array@[i].item is Some)
        &&& forall|i: int|
            0 <= i < self.array@.len() ==> ((#[trigger] self.array@[i]).item is None
                <==> self.allocator.is_free(i as usize))
    }

    /// `handle` leads to a value: its slot exists and is occupied, and the
    /// slot's generation is the one that the handle was made for.
    pub open spec fn is_live(&self, handle: Handle<T, GenCookie>) -> bool {
        &&& handle.spec_index() < self.slots()
        &&& self.slot_value(handle.spec_index() as int) is Some
        &&& handle.spec_cookie() == GenCookie {
            gen: self.slot_gen(handle.spec_index() as int),
            active: true,
        }
    }

    /// The value that a live handle leads to.
    pub open spec fn value(&self, handle: Handle<T, GenCookie>) -> T {
        self.slot_value(handle.spec_index() as int)->0
    }

    /// Every slot but slot `i` is in `other` what it is in `self`.
    pub open spec fn same_but(&self, other: &Self, i: int) -> bool {
        forall|j: int|
            0 <= j < self.slots() && j != i ==> j < other.slots() && other.slot_value(j)
                == self.slot_value(j) && other.slot_gen(j) == self.slot_gen(j)
    }

    /// An empty pool with room for `capacity` values, for 128 where none is
    /// given, before it has to grow.
    pub fn new(capacity: Option<usize>) -> (r: Self)
        ensures
            r.wf(),
            r.slots() == 0,
            r.free_slots() == Seq::<usize>::empty(),
    {
        let capacity = match capacity {
            Some(c) => c,
            None => 128,
        };
        Self { array: Vec::with_capacity(capacity), allocator: LinearIndexAllocator::new() }
    }

    /// Number of slots, occupied or not.
    pub fn slot_count(&self) -> (n: usize)
        ensures
            n == self.slots(),
    {
        self.array.len()
    }

    /// Stores `value` in the slot that was emptied last, or in a new slot,
    /// and returns the handle to it. A new slot starts with generation 1; a
    /// slot that is used again keeps the generation that the last removal
    /// gave it.
    pub fn push(&mut self, value: T) -> (h: Handle<T, GenCookie>)
        requires
            old(self).wf(),
            old(self).free_slots().len() == 0 ==> old(self).slots() < usize::MAX,
        ensures
            final(self).wf(),
            ({
                let idx = old(self).next_index();
                let gen = final(self).slot_gen(idx as int);
                &&& idx <= old(self).slots()
                &&& idx < old(self).slots() ==> {
                    &&& old(self).slot_value(idx as int) is None
                    &&& final(self).slots() == old(self).slots()
                    &&& gen == old(self).slot_gen(idx as int)
                }
                &&& idx == old(self).slots() ==> {
                    &&& final(self).slots() == old(self).slots() + 1
                    &&& gen == 1
                }
                &&& final(self).free_slots() == if old(self).free_slots().len() > 0 {
                    old(self).free_slots().drop_last()
                } else {
                    old(self).free_slots()
                }
                &&& final(self).slot_value(idx as int) == Some(value)
                &&& old(self).same_but(final(self), idx as int)
                &&& forall|k: Handle<T, GenCookie>| #[trigger]
                    old(self).is_live(k) ==> final(self).is_live(k) && final(self).value(k) == old(
                        self,
                    ).value(k)
                &&& forall|k: Handle<T, GenCookie>| #[trigger]
                    final(self).is_live(k) ==> old(self).is_live(k) || k.spec_index() == idx
                &&& h.bits() == pack(
                    #[verifier::truncate]
                    (idx as u32),
                    (GenCookie { gen, active: true }).repr(),
                )
                &&& idx <= u32::MAX && gen <= GEN_MASK ==> {
                    &&& h.spec_index() == idx
                    &&& final(self).is_live(h)
                    &&& final(self).value(h) == value
                }
            }),
    {
        proof {
            assert(self.array@.len() == self.array.len());
        }
        let idx = self.allocator.allocate();
        let gen = if idx == self.array.len() {
            self.array.push(PoolEntry { item: Some(value), gen: GenCookie { gen: 1, active: true } });
            GenCookie { gen: 1, active: true }
        } else {
            self.array[idx].item = Some(value);
            self.array[idx].gen.active = true;
            self.array[idx].gen
        };
        proof {
            assert forall|i: int| 0 <= i < self.array@.len() implies ((
            #[trigger] self.array@[i]).item is None <==> self.allocator.is_free(i as usize)) by {
                if i != idx {
                    assert(old(self).allocator.is_live(i as usize) <==> self.allocator.is_live(
                        i as usize,
                    ));
                }
            }
            if gen.gen <= GEN_MASK {
                gen.lemma_round_trip();
            }
        }
        Handle::new(
            #[verifier::truncate]
            (idx as u32),
            gen,
        )
    }

    /// Takes the value that `handle` leads to out of the pool and gives its
    /// slot the next generation, which makes `handle` stale. A handle that
    /// is not live is ignored.
    pub fn remove(&mut self, handle: Handle<T, GenCookie>)
        requires
            old(self).wf(),
        ensures
            final(self).wf(),
            final(self).slots() == old(self).slots(),
            !final(self).is_live(handle),
            ({
                let idx = handle.spec_index() as int;
                &&& old(self).same_but(final(self), idx)
                &&& old(self).is_live(handle) ==> {
                    &&& final(self).slot_value(idx) is None
                    &&& final(self).slot_gen(idx) == next_generation(old(self).slot_gen(idx))
                    &&& final(self).free_slots() == old(self).free_slots().push(handle.spec_index())
                }
                &&& !old(self).is_live(handle) ==> {
                    &&& final(self).free_slots() == old(self).free_slots()
                    &&& idx < old(self).slots() ==> {
                        &&& final(self).slot_value(idx) == old(self).slot_value(idx)
                        &&& final(self).slot_gen(idx) == old(self).slot_gen(idx)
                    }
                }
            }),
    {
        let idx = handle.index();
        if idx >= self.array.len() {
            return ;
        }
        let cookie = handle.cookie();
        let stored = self.array[idx].gen;
        if !(stored.gen == cookie.gen && stored.active == cookie.active) || !stored.active {
            return ;
        }
        self.allocator.free_live(idx);
        let next_gen = stored.gen.wrapping_add(1);
        self.array[idx].gen = GenCookie { gen: next_gen, active: false };
        self.array[idx].item = None;
        proof {
            assert forall|i: int| 0 <= i < self.array@.len() implies ((
            #[trigger] self.array@[i]).item is None <==> self.allocator.is_free(i as usize)) by {
                if i != idx {
                    assert(old(self).allocator.is_live(i as usize) <==> self.allocator.is_live(
                        i as usize,
                    ));
                }
            }
        }
    }

    /// `true` where `handle` leads to a value, so that a caller can tell a
    /// stale handle from a live one.
    pub fn is_valid(&self, handle: Handle<T, GenCookie>) -> (r: bool)
        requires
            self.wf(),
        ensures
            r == self.is_live(handle),
    {
        let idx = handle.index();
        if idx >= self.array.len() {
            return false;
        }
        let cookie = handle.cookie();
        let stored = self.array[idx].gen;
        stored.gen == cookie.gen && stored.active == cookie.active && stored.active
    }

    /// The value that `handle` leads to, or `None` where the handle is not
    /// live.
    pub fn get(&self, handle: Handle<T, GenCookie>) -> (r: Option<&T>)
        requires
            self.wf(),
        ensures
            r is Some <==> self.is_live(handle),
            r matches Some(v) ==> *v == self.value(handle),
    {
        let idx = handle.index();
        if idx >= self.array.len() {
            return None;
        }
        let cookie = handle.cookie();
        let stored = self.array[idx].gen;
        if !(stored.gen == cookie.gen && stored.active == cookie.active) {
            return None;
        }
        self.array[idx].item.as_ref()
    }
    /// The value that `handle` leads to, for changing it in place, or
    /// `None` where the handle is not live.
    pub fn get_mut(&mut self, handle: Handle<T, GenCookie>) -> (r: Option<&mut T>)
        requires
            old(self).wf(),
        ensures
            r is Some <==> old(self).is_live(handle),
            final(self).wf(),
            final(self).slots() == old(self).slots(),
            final(self).free_slots() == old(self).free_slots(),
            old(self).same_but(final(self), handle.spec_index() as int),
            handle.spec_index() < old(self).slots() ==> final(self).slot_gen(
                handle.spec_index() as int,
            ) == old(self).slot_gen(handle.spec_index() as int),
            match r {
                Some(v) => {
                    &&& *v == old(self).value(handle)
                    &&& final(self).slot_value(handle.spec_index() as int) == Some(*final(v))
                },
                None => handle.spec_index() < old(self).slots() ==> final(self).slot_value(
                    handle.spec_index() as int,
                ) == old(self).slot_value(handle.spec_index() as int),
            },
    {
        let idx = handle.index();
        if idx >= self.array.len() {
            return None;
        }
        let cookie = handle.cookie();
        let stored = self.array[idx].gen;
        if !(stored.gen == cookie.gen && stored.active == cookie.active) || !stored.active {
            return None;
        }
        self.array[idx].item.as_mut()
    }

    /// The values that the handles lead to, all at once, for changing them
    /// in place. Returns `None` where a handle is not live or where two
    /// handles lead to the same slot: no value is ever handed out twice.
    pub fn get_many<const N: usize>(&mut self, handles: [Handle<T, GenCookie>; N]) -> (r: Option<
        [&mut T; N],
    >)
        requires
            old(self).wf(),
        ensures
            r is Some <==> {
                &&& forall|i: int| 0 <= i < N ==> old(self).is_live(#[trigger] handles@[i])
                &&& forall|i: int, j: int|
                    0 <= i < j < N ==> (#[trigger] handles@[i]).spec_index() != (
                    #[trigger] handles@[j]).spec_index()
            },
            final(self).wf(),
            final(self).slots() == old(self).slots(),
            final(self).free_slots() == old(self).free_slots(),
            forall|k: int| 0 <= k < old(self).slots() ==> final(self).slot_gen(k) == old(self).slot_gen(k),
            forall|k: int|
                0 <= k < old(self).slots() && (r is None || forall|i: int|
                    0 <= i < N ==> (#[trigger] handles@[i]).spec_index() != k)
                    ==> final(self).slot_value(k) == old(self).slot_value(k),
            r matches Some(refs) ==> forall|i: int|
                0 <= i < N ==> {
                    &&& *(#[trigger] refs@[i]) == old(self).value(handles@[i])
                    &&& final(self).slot_value(handles@[i].spec_index() as int) == Some(
                        *final(refs@[i]),
                    )
                },
    {
        let mut indices = [0usize;N];
        let mut i: usize = 0;
        while i < N
            invariant
                i <= N,
                *self == *old(self),
                self.wf(),
                forall|j: int| 0 <= j < i ==> self.is_live(#[trigger] handles@[j]),
                forall|j: int| 0 <= j < i ==> indices@[j] == (#[trigger] handles@[j]).spec_index(),
            decreases N - i,
        {
            let handle = handles[i];
            if !self.is_valid(handle) {
                return None;
            }
            indices[i] = handle.index();
            i += 1;
        }
        proof {
            assert forall|i: int|
                #![trigger indices@[i]]
                #![trigger handles@[i]]
                0 <= i < N implies indices@[i] == handles@[i].spec_index() && old(self).is_live(
                handles@[i],
            ) by {}
        }
        match disjoint_entries(&mut self.array, indices) {
            Some(entries) => {
                let items = map_each(entries, item_of);
                Some(items)
            },
            None => None,
        }
    }

    /// A live handle stays live, and leads to the same value, across a
    /// change that leaves its slot alone.
    pub proof fn lemma_live_handle_survives(
        self,
        after: Self,
        handle: Handle<T, GenCookie>,
        changed: int,
    )
        requires
            self.is_live(handle),
            self.same_but(&after, changed),
            handle.spec_index() != changed,
        ensures
            after.is_live(handle),
            after.value(handle) == self.value(handle),
    {
    }

    /// A handle is stale for as long as its slot's generation is not the one
    /// that the handle was made for, whatever the slot holds.
    pub proof fn lemma_stale_while_generation_differs(self, handle: Handle<T, GenCookie>)
        requires
            handle.spec_index() < self.slots() ==> self.slot_gen(handle.spec_index() as int)
                != handle.spec_cookie().gen,
        ensures
            !self.is_live(handle),
    {
    }

    /// Removal makes a handle stale for good: where `removed` follows `self`
    /// by the removal of the live handle `handle`, and `reused` holds the
    /// slot with the generation that the removal gave it, `handle` is stale
    /// in both, whatever was stored in the slot since.
    pub proof fn lemma_removed_handle_stays_stale(
        self,
        removed: Self,
        reused: Self,
        handle: Handle<T, GenCookie>,
    )
        requires
            self.is_live(handle),
            handle.spec_index() < removed.slots(),
            handle.spec_index() < reused.slots(),
            removed.slot_gen(handle.spec_index() as int) == next_generation(
                self.slot_gen(handle.spec_index() as int),
            ),
            reused.slot_gen(handle.spec_index() as int) == removed.slot_gen(
                handle.spec_index() as int,
            ),
        ensures
            !removed.is_live(handle),
            !reused.is_live(handle),
    {
    }

    /// A slot that is used again answers to another handle. Where
    /// `old_handle` was live in `self`, and its slot has another generation
    /// in `later`, one that fits the cookie, the handle that `push` packs for
    /// the slot in `later` is not `old_handle`, and `old_handle` is stale in
    /// `later`. A generation comes round again after `2^32` removals of the
    /// slot, and it fits the cookie only below `2^31`.
    pub proof fn lemma_reuse_gives_another_handle(
        self,
        later: Self,
        old_handle: Handle<T, GenCookie>,
        new_handle: Handle<T, GenCookie>,
    )
        requires
            self.is_live(old_handle),
            old_handle.spec_index() < later.slots(),
            later.slot_gen(old_handle.spec_index() as int) != self.slot_gen(
                old_handle.spec_index() as int,
            ),
            later.slot_gen(old_handle.spec_index() as int) <= GEN_MASK,
            new_handle.bits() == pack(
                #[verifier::truncate]
                (old_handle.spec_index() as u32),
                (GenCookie {
                    gen: later.slot_gen(old_handle.spec_index() as int),
                    active: true,
                }).repr(),
            ),
        ensures
            new_handle.spec_index() == old_handle.spec_index(),
            new_handle.spec_cookie().gen != old_handle.spec_cookie().gen,
            new_handle.bits() != old_handle.bits(),
            !later.is_live(old_handle),
    {
        let i = old_handle.spec_index();
        let cookie = GenCookie { gen: later.slot_gen(i as int), active: true };
        let bits = old_handle.bits();
        assert(bits & 0xFFFF_FFFF <= 0xFFFF_FFFF) by (bit_vector);
        cookie.lemma_round_trip();
        lemma_pack_halves(
            #[verifier::truncate]
            (i as u32),
            cookie.repr(),
        );
    }

    /// Two live handles to one slot are the same handle: a slot has one
    /// generation, so it answers to one handle at a time.
    pub proof fn lemma_one_live_handle_per_slot(
        self,
        a: Handle<T, GenCookie>,
        b: Handle<T, GenCookie>,
    )
        requires
            self.is_live(a),
            self.is_live(b),
            a.spec_index() == b.spec_index(),
        ensures
            a.spec_cookie() == b.spec_cookie(),
    {
    }
}

/// The value of an occupied entry, for changing it in place.
fn item_of<T>(entry: &mut PoolEntry<T>) -> (r: &mut T)
    requires
        old(entry).item is Some,
    ensures
        *r == old(entry).item->0,
        *final(entry) == (PoolEntry { item: Some(*final(r)), gen: old(entry).gen }),
{
    entry.item.as_mut().unwrap()
}

} // verus!
