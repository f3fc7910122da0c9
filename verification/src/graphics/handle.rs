use vstd::prelude::*;
use vstd::std_specs::cmp::PartialEqSpecImpl;
use std::marker::PhantomData;
use crate::utils::non_max::NonMax;

verus! {

/// A reference to a slot of the render system: the slot's index and the
/// generation that the slot had when the handle was made. The generation
/// is never `u32::MAX`.
///
/// An `Option<RenderHandle<T>>` takes more room than a `RenderHandle<T>`:
/// the generation that is left out does not stand for `None`, and the
/// discriminant is paid for.
#[derive(Debug, Hash)]
pub struct RenderHandle<T> {
    index: u32,
    gen: NonMax<u32>,
    _marker: PhantomData<T>,
}

impl<T> Clone for RenderHandle<T> {
    fn clone(&self) -> (r: Self)
        ensures
            r == *self,
    {
        *self
    }
}

impl<T> Copy for RenderHandle<T> {

}

impl<T> PartialEq for RenderHandle<T> {
    fn eq(&self, other: &Self) -> (r: bool) {
        self.index == other.index && self.gen.get() == other.gen.get()
    }
}

impl<T> PartialEqSpecImpl for RenderHandle<T> {
    open spec fn obeys_eq_spec() -> bool {
        true
    }

    open spec fn eq_spec(&self, other: &Self) -> bool {
        self.spec_idx() == other.spec_idx() && self.spec_gen() == other.spec_gen()
    }
}

impl<T> Eq for RenderHandle<T> {

}

impl<T> RenderHandle<T> {
    /// The index of the slot.
    pub closed spec fn spec_idx(&self) -> u32 {
        self.index
    }

    /// The generation that the handle was made for.
    pub closed spec fn spec_gen(&self) -> u32 {
        self.gen@
    }

    /// A handle is its index and its generation.
    pub proof fn lemma_same_parts_same_handle(self, other: Self)
        requires
            self.spec_idx() == other.spec_idx(),
            self.spec_gen() == other.spec_gen(),
        ensures
            self == other,
    {
        self.gen.lemma_view_is_injective(other.gen);
    }

    /// The handle to slot `index` in generation `gen`, which is not
    /// `u32::MAX`.
    pub fn new(index: u32, gen: u32) -> (h: Self)
        requires
            gen != u32::MAX,
        ensures
            h.spec_idx() == index,
            h.spec_gen() == gen,
    {
        Self { index, gen: NonMax::new(gen).expect("wrong gen"), _marker: PhantomData }
    }

    /// The index of the slot.
    #[verifier::when_used_as_spec(spec_idx)]
    pub fn idx(&self) -> (i: u32)
        ensures
            i == self.spec_idx(),
    {
        self.index
    }

    /// The generation that the handle was made for.
    #[verifier::when_used_as_spec(spec_gen)]
    pub fn gen(&self) -> (g: u32)
        ensures
            g == self.spec_gen(),
            g != u32::MAX,
    {
        self.gen.get()
    }
}

/// The place in `free` of the last index whose generation in `gens` is not
/// `u32::MAX`, or -1 where there is none. An index with generation
/// `u32::MAX` has used up its generations: no handle can carry that number.
pub open spec fn last_reusable(free: Seq<u32>, gens: Seq<u32>) -> int
    decreases free.len(),
{
    if free.len() == 0 {
        -1
    } else if gens[free.last() as int] != u32::MAX {
        free.len() - 1
    } else {
        last_reusable(free.drop_last(), gens)
    }
}

/// Gives out render handles: an index together with the generation that
/// the index has at that moment. Freeing a handle gives its index the next
/// generation, so that a handle that was freed is told from the one that is
/// given out next for the same index.
#[derive(Debug)]
pub struct RenderHandleAllocator<T> {
    gens: Vec<u32>,
    free_list: Vec<u32>,
    _marker: PhantomData<T>,
}

impl<T> RenderHandleAllocator<T> {
    /// Number of indices given out so far.
    pub closed spec fn slots(&self) -> nat {
        self.gens@.len()
    }

    /// The generation of each index at present.
    pub closed spec fn generations(&self) -> Seq<u32> {
        self.gens@
    }

    /// The freed indices, the most recently freed one last.
    pub closed spec fn free_list(&self) -> Seq<u32> {
        self.free_list@
    }

    /// Every freed index was given out before.
    pub open spec fn wf(&self) -> bool {
        &&& self.slots() == self.generations().len()
        &&& forall|k: int|
            0 <= k < self.free_list().len() ==> (#[trigger] self.free_list()[k]) < self.slots()
    }

    /// `handle` carries the generation that its index has at present.
    pub open spec fn is_current(&self, handle: RenderHandle<T>) -> bool {
        handle.idx() < self.slots() && self.generations()[handle.idx() as int] == handle.gen()
    }

    /// In `later`, every index of `self` is there and no generation is less
    /// than it is in `self`: generations only go up.
    pub open spec fn never_older(&self, later: &Self) -> bool {
        &&& self.slots() <= later.slots()
        &&& forall|i: int|
            0 <= i < self.slots() ==> self.generations()[i] <= later.generations()[i]
    }

    /// A handle that was freed is never current again: its index has a
    /// later generation from then on, whatever is given out and freed
    /// afterwards.
    pub proof fn lemma_freed_handle_stays_stale(self, freed: Self, later: Self, handle: RenderHandle<T>)
        requires
            self.wf(),
            handle.gen() < u32::MAX,
            self.is_current(handle),
            freed.generations() == self.generations().update(
                handle.idx() as int,
                (handle.gen() + 1) as u32,
            ),
            freed.slots() == freed.generations().len(),
            freed.never_older(&later),
        ensures
            !freed.is_current(handle),
            !later.is_current(handle),
    {
    }

    /// An allocator that has given out nothing yet.
    #[inline]
    pub fn new() -> (r: Self)
        ensures
            r.wf(),
            r.slots() == 0,
            r.free_list() == Seq::<u32>::empty(),
    {
        Self { gens: Vec::new(), free_list: Vec::new(), _marker: PhantomData }
    }

    /// The handle for the index that was freed last, with the generation
    /// that the index has now, or for a new index with generation 0 where no
    /// freed index is left. Freed indices that have used up their
    /// generations are dropped on the way.
    #[inline]
    pub fn allocate(&mut self) -> (h: RenderHandle<T>)
        requires
            old(self).wf(),
        ensures
            final(self).wf(),
            ({
                let at = last_reusable(old(self).free_list(), old(self).generations());
                &&& at >= 0 ==> {
                    &&& h.idx() == old(self).free_list()[at]
                    &&& h.gen() == old(self).generations()[h.idx() as int]
                    &&& final(self).free_list() == old(self).free_list().take(at)
                    &&& final(self).generations() == old(self).generations()
                }
                &&& at < 0 ==> {
                    &&& h.idx() == #[verifier::truncate]
                    (old(self).slots() as u32)
                    &&& h.gen() == 0
                    &&& final(self).free_list() == Seq::<u32>::empty()
                    &&& final(self).generations() == old(self).generations().push(0)
                }
                &&& at >= 0 || old(self).slots() <= u32::MAX ==> final(self).is_current(h)
            }),
            old(self).never_older(final(self)),
    {
        loop
            invariant
                self.wf(),
                self.gens@ == old(self).gens@,
                self.free_list@.len() <= old(self).free_list@.len(),
                self.free_list@ == old(self).free_list@.take(self.free_list@.len() as int),
                last_reusable(self.free_list@, self.gens@) == last_reusable(
                    old(self).free_list@,
                    old(self).gens@,
                ),
            decreases self.free_list@.len(),
        {
            let ghost before = *self;
            match self.free_list.pop() {
                Some(idx) => {
                    proof {
                        assert(before.free_list()[before.free_list().len() - 1] == idx);
                    }
                    let gen = self.gens[idx as usize];
                    if gen != u32::MAX {
                        return RenderHandle::new(idx, gen);
                    }
                },
                None => {
                    let idx = self.gens.len();
                    self.gens.push(0);
                    return RenderHandle::new(
                        #[verifier::truncate]
                        (idx as u32),
                        0,
                    );
                },
            }
        }
    }

    /// `true` where `handle` carries the generation that its index has at
    /// present.
    #[inline]
    pub fn is_valid(&self, handle: RenderHandle<T>) -> (r: bool)
        ensures
            r == self.is_current(handle),
    {
        let idx = handle.index as usize;
        idx < self.gens.len() && self.gens[idx] == handle.gen.get()
    }

    /// Gives the index of `handle` its next generation and keeps the index
    /// for reuse. A handle that is not current is ignored, so that freeing
    /// a handle twice does no harm.
    #[inline]
    pub fn free(&mut self, handle: RenderHandle<T>)
        requires
            old(self).wf(),
        ensures
            final(self).wf(),
            !final(self).is_current(handle),
            old(self).is_current(handle) ==> {
                &&& final(self).generations() == old(self).generations().update(
                    handle.idx() as int,
                    (handle.gen() + 1) as u32,
                )
                &&& final(self).free_list() == old(self).free_list().push(handle.idx())
            },
            !old(self).is_current(handle) ==> {
                &&& final(self).free_list() == old(self).free_list()
                &&& final(self).generations() == old(self).generations()
            },
            old(self).never_older(final(self)),
    {
        if !self.is_valid(handle) {
            return ;
        }
        let idx = handle.index as usize;
        self.gens[idx] = handle.gen.get() + 1;
        self.free_list.push(handle.index);
        proof {
            assert forall|k: int| 0 <= k < self.free_list().len() implies (
            #[trigger] self.free_list()[k]) < self.slots() by {
                if k < old(self).free_list().len() {
                    assert(self.free_list()[k] == old(self).free_list()[k]);
                }
            }
        }
    }
}

/// A sequence of distinct numbers below `bound` has at most `bound` entries.
proof fn lemma_distinct_below(f: Seq<int>, bound: int)
    requires
        forall|d: int| 0 <= d < f.len() ==> 0 <= #[trigger] f[d] < bound,
        forall|d: int, e: int| 0 <= d < f.len() && 0 <= e < f.len() && d != e ==> f[d] != f[e],
    ensures
        f.len() == 0 || f.len() <= bound,
    decreases f.len(),
{
    if f.len() > 0 {
        // Take out the entry that holds the largest number, if it is `bound - 1`.
        if exists|d: int| 0 <= d < f.len() && f[d] == bound - 1 {
            let d0 = choose|d: int| 0 <= d < f.len() && f[d] == bound - 1;
            let g = f.remove(d0);
            lemma_distinct_below(g, bound - 1);
        } else {
            let g = f.drop_last();
            lemma_distinct_below(g, bound - 1);
            if g.len() == 0 {
                assert(f[0] != bound - 1);
            }
        }
    }
}

/// Values under render handles: for each index at most one value, together
/// with the generation of the handle that it was stored under. The values
/// lie packed in one array; a second array leads from the index to the
/// value's place.
#[derive(Debug)]
pub struct SparseArray<U, W> {
    sparse: Vec<Option<RenderHandle<W>>>,
    dense: Vec<W>,
    dense_to_sparse: Vec<usize>,
    _marker: PhantomData<U>,
}

impl<U, W> SparseArray<U, W> {
    /// For each index that has a value, the generation it was stored under
    /// and the value.
    pub closed spec fn view(&self) -> Map<u32, (u32, W)> {
        Map::new(
            |k: u32| k < self.sparse@.len() && self.sparse@[k as int] is Some,
            |k: u32|
                (
                    self.sparse@[k as int]->0.spec_gen(),
                    self.dense@[self.sparse@[k as int]->0.spec_idx() as int],
                ),
        )
    }

    /// The two arrays lead to each other: the place that an index names
    /// holds a value whose index is that one, and the other way round.
    pub closed spec fn wf(&self) -> bool {
        &&& self.dense@.len() == self.dense_to_sparse@.len()
        &&& forall|s: int|
            0 <= s < self.sparse@.len() && (#[trigger] self.sparse@[s]) is Some ==> {
                &&& s < u32::MAX
                &&& self.sparse@[s]->0.spec_idx() < self.dense@.len()
                &&& self.dense_to_sparse@[self.sparse@[s]->0.spec_idx() as int] == s
            }
        &&& forall|d: int|
            0 <= d < self.dense@.len() ==> {
                &&& (#[trigger] self.dense_to_sparse@[d]) < self.sparse@.len()
                &&& self.sparse@[self.dense_to_sparse@[d] as int] is Some
                &&& self.sparse@[self.dense_to_sparse@[d] as int]->0.spec_idx() == d
            }
    }

    /// A value is stored under the index of `handle`, with the generation
    /// of `handle`.
    pub open spec fn has(&self, handle: RenderHandle<U>) -> bool {
        self@.dom().contains(handle.idx()) && self@[handle.idx()].0 == handle.gen()
    }

    /// An empty array with room for the indices below `capacity`.
    pub fn new(capacity: usize) -> (r: Self)
        ensures
            r.wf(),
            r@ == Map::<u32, (u32, W)>::empty(),
    {
        let mut sparse: Vec<Option<RenderHandle<W>>> = Vec::new();
        let mut i: usize = 0;
        while i < capacity
            invariant
                i <= capacity,
                sparse@.len() == i,
                forall|j: int| 0 <= j < i ==> (#[trigger] sparse@[j]) is None,
            decreases capacity - i,
        {
            sparse.push(None);
            i += 1;
        }
        Self { sparse, dense: Vec::new(), dense_to_sparse: Vec::new(), _marker: PhantomData }
    }

    /// `true` where a value is stored under the index of `handle`, with the
    /// generation of `handle`.
    pub fn contains(&self, handle: RenderHandle<U>) -> (r: bool)
        ensures
            r == self.has(handle),
    {
        let idx = handle.index as usize;
        if idx >= self.sparse.len() {
            return false;
        }
        match &self.sparse[idx] {
            Some(slot) => slot.gen.get() == handle.gen.get(),
            None => false,
        }
    }

    /// Stores `value` under the index of `handle`, with the generation of
    /// `handle`, in place of what was stored under that index before.
    pub fn set(&mut self, handle: RenderHandle<U>, value: W)
        requires
            old(self).wf(),
            handle.idx() < u32::MAX,
        ensures
            final(self).wf(),
            final(self)@ == old(self)@.insert(handle.idx(), (handle.gen(), value)),
    {
        let idx = handle.index as usize;
        while self.sparse.len() <= idx
            invariant
                self.wf(),
                self@ == old(self)@,
                idx == handle.idx(),
                idx < u32::MAX,
            decreases idx + 1 - self.sparse@.len(),
        {
            self.sparse.push(None);
        }
        let ghost before = *self;
        let slot = self.sparse[idx];
        match slot {
            Some(slot) => {
                let pos = slot.index as usize;
                self.dense[pos] = value;
                self.sparse[idx] = Some(
                    RenderHandle { index: slot.index, gen: handle.gen, _marker: PhantomData },
                );
            },
            None => {
                let pos = self.dense.len();
                proof {
                    // The values sit at distinct indices below `u32::MAX` other than
                    // `idx`, so their number, moved past `idx`, stays below it.
                    let f = Seq::new(
                        before.dense_to_sparse@.len(),
                        |d: int|
                            if before.dense_to_sparse@[d] > idx {
                                before.dense_to_sparse@[d] - 1
                            } else {
                                before.dense_to_sparse@[d] as int
                            },
                    );
                    lemma_distinct_below(f, u32::MAX - 1);
                }
                self.dense.push(value);
                self.dense_to_sparse.push(idx);
                self.sparse[idx] = Some(
                    RenderHandle { index: pos as u32, gen: handle.gen, _marker: PhantomData },
                );
            },
        }
    }

    /// The value that is stored under `handle`, or `None` where nothing is
    /// stored under its index with its generation.
    pub fn get(&self, handle: RenderHandle<U>) -> (r: Option<&W>)
        requires
            self.wf(),
        ensures
            r is Some <==> self.has(handle),
            r matches Some(v) ==> *v == self@[handle.idx()].1,
    {
        let idx = handle.index as usize;
        if idx >= self.sparse.len() {
            return None;
        }
        match &self.sparse[idx] {
            Some(slot) => {
                if slot.gen.get() == handle.gen.get() {
                    Some(&self.dense[slot.index as usize])
                } else {
                    None
                }
            },
            None => None,
        }
    }

    /// The value that is stored under `handle`, for changing it in place,
    /// or `None` where nothing is stored under its index with its
    /// generation.
    pub fn get_mut(&mut self, handle: RenderHandle<U>) -> (r: Option<&mut W>)
        requires
            old(self).wf(),
        ensures
            final(self).wf(),
            r is Some <==> old(self).has(handle),
            match r {
                Some(v) => {
                    &&& *v == old(self)@[handle.idx()].1
                    &&& final(self)@ == old(self)@.insert(handle.idx(), (handle.gen(), *final(v)))
                },
                None => final(self)@ == old(self)@,
            },
    {
        let idx = handle.index as usize;
        if idx >= self.sparse.len() {
            return None;
        }
        let slot = self.sparse[idx];
        match slot {
            Some(slot) => {
                if slot.gen.get() == handle.gen.get() {
                    let pos = slot.index as usize;
                    Some(&mut self.dense[pos])
                } else {
                    None
                }
            },
            None => None,
        }
    }

    /// Takes out the value that is stored under `handle`. Where nothing is
    /// stored under its index with its generation, nothing changes.
    pub fn remove(&mut self, handle: RenderHandle<U>)
        requires
            old(self).wf(),
        ensures
            final(self).wf(),
            old(self).has(handle) ==> final(self)@ == old(self)@.remove(handle.idx()),
            !old(self).has(handle) ==> final(self)@ == old(self)@,
    {
        let idx = handle.index as usize;
        if idx >= self.sparse.len() {
            return ;
        }
        let slot = match self.sparse[idx] {
            Some(slot) => slot,
            None => {
                return ;
            },
        };
        if slot.gen.get() != handle.gen.get() {
            return ;
        }
        let dense_pos = slot.index as usize;
        self.dense.swap_remove(dense_pos);
        self.dense_to_sparse.swap_remove(dense_pos);
        self.sparse[idx] = None;
        if dense_pos < self.dense_to_sparse.len() {
            let moved = self.dense_to_sparse[dense_pos];
            let moved_slot = self.sparse[moved];
            match moved_slot {
                Some(moved_slot) => {
                    self.sparse[moved] = Some(
                        RenderHandle {
                            index: slot.index,
                            gen: moved_slot.gen,
                            _marker: PhantomData,
                        },
                    );
                },
                None => {},
            }
        }
    }
}

} // verus!
