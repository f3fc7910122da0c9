use vstd::prelude::*;

verus! {

/// Hands out indices from a growing index space and reuses freed indices in
/// last-in, first-out order.
///
/// The allocator is not synchronised: one owner mutates it at a time.
#[derive(Debug)]
pub struct LinearIndexAllocator {
    size: usize,
    free_list: Vec<usize>,
}

impl LinearIndexAllocator {
    /// Number of distinct indices handed out so far, live or freed.
    pub closed spec fn size(&self) -> nat {
        self.size as nat
    }

    /// The freed indices, the most recently freed one last.
    pub closed spec fn free_list(&self) -> Seq<usize> {
        self.free_list@
    }

    /// Every freed index has been handed out before, and none waits in the
    /// free list twice: no index can be handed out to two owners at once.
    pub open spec fn wf(&self) -> bool {
        &&& forall|i: int|
            0 <= i < self.free_list().len() ==> (#[trigger] self.free_list()[i]) < self.size()
        &&& self.free_list().no_duplicates()
    }

    /// `idx` waits in the free list for reuse.
    pub open spec fn is_free(&self, idx: usize) -> bool {
        self.free_list().contains(idx)
    }

    /// `idx` has been handed out and not been freed since.
    pub open spec fn is_live(&self, idx: usize) -> bool {
        idx < self.size() && !self.is_free(idx)
    }

    /// An allocator that has handed out nothing yet.
    pub fn new() -> (r: Self)
        ensures
            r.wf(),
            r.size() == 0,
            r.free_list() == Seq::<usize>::empty(),
    {
        Self { size: 0, free_list: Vec::new() }
    }

    /// Number of distinct indices handed out so far, live or freed.
    pub fn handed_out(&self) -> (n: usize)
        ensures
            n == self.size(),
    {
        self.size
    }

    /// Returns the most recently freed index if there is one, else the next
    /// index that was never handed out.
    pub fn allocate(&mut self) -> (idx: usize)
        requires
            old(self).wf(),
            old(self).free_list().len() == 0 ==> old(self).size() < usize::MAX,
        ensures
            final(self).wf(),
            old(self).free_list().len() > 0 ==> {
                &&& idx == old(self).free_list().last()
                &&& final(self).free_list() == old(self).free_list().drop_last()
                &&& final(self).size() == old(self).size()
            },
            old(self).free_list().len() == 0 ==> {
                &&& idx == old(self).size()
                &&& final(self).free_list() == old(self).free_list()
                &&& final(self).size() == old(self).size() + 1
            },
            idx < final(self).size(),
            !old(self).is_live(idx),
            final(self).is_live(idx),
            forall|other: usize| other != idx ==> (old(self).is_live(other) <==> final(self).is_live(other)),
    {
        let ghost before = self.free_list@;
        match self.free_list.pop() {
            Some(idx) => {
                proof {
                    assert forall|other: usize| other != idx implies (before.contains(other)
                        <==> before.drop_last().contains(other)) by {
                        if before.contains(other) {
                            let i = choose|i: int| 0 <= i < before.len() && before[i] == other;
                            assert(before.drop_last()[i] == other);
                        }
                    }
                }
                idx
            },
            None => {
                let idx = self.size;
                self.size = self.size + 1;
                idx
            },
        }
    }

    /// Makes `idx` available for reuse. An index that was never handed out,
    /// or that waits for reuse already, is ignored: freeing an index twice
    /// does not hand it out twice.
    pub fn free(&mut self, idx: usize)
        requires
            old(self).wf(),
        ensures
            final(self).wf(),
            final(self).size() == old(self).size(),
            old(self).is_live(idx) ==> final(self).free_list() == old(self).free_list().push(idx),
            !old(self).is_live(idx) ==> final(self).free_list() == old(self).free_list(),
            idx < old(self).size() ==> final(self).is_free(idx),
            forall|other: usize| other != idx ==> (old(self).is_live(other) <==> final(self).is_live(other)),
    {
        if idx >= self.size {
            return ;
        }
        let mut i: usize = 0;
        while i < self.free_list.len()
            invariant
                i <= self.free_list@.len(),
                *self == *old(self),
                self.wf(),
                idx < self.size,
                forall|j: int| 0 <= j < i ==> self.free_list@[j] != idx,
            decreases self.free_list@.len() - i,
        {
            if self.free_list[i] == idx {
                return ;
            }
            i += 1;
        }
        self.free_live(idx);
    }

    /// Makes the live index `idx` available for reuse, without a look at the
    /// indices that wait already.
    pub(crate) fn free_live(&mut self, idx: usize)
        requires
            old(self).wf(),
            old(self).is_live(idx),
        ensures
            final(self).wf(),
            final(self).size() == old(self).size(),
            final(self).free_list() == old(self).free_list().push(idx),
            final(self).is_free(idx),
            forall|other: usize| other != idx ==> (old(self).is_live(other) <==> final(self).is_live(other)),
    {
        let ghost before = self.free_list@;
        self.free_list.push(idx);
        proof {
            assert(self.free_list@[before.len() as int] == idx);
            assert forall|i: int| 0 <= i < self.free_list@.len() implies (
            #[trigger] self.free_list@[i]) < self.size by {
                if i < before.len() {
                    assert(before[i] == old(self).free_list()[i]);
                }
            }
            assert forall|other: usize| other != idx implies (before.contains(other)
                <==> before.push(idx).contains(other)) by {
                if before.contains(other) {
                    let i = choose|i: int| 0 <= i < before.len() && before[i] == other;
                    assert(before.push(idx)[i] == other);
                }
            }
        }
    }
}

} // verus!
