use vstd::prelude::*;

verus! {

/// Hands out blocks of a circular buffer of `capacity` units. What is handed
/// out is charged to the current one of `N` generations and comes back as a
/// whole when that generation is retired by [`Self::next_ring`].
///
/// The allocator does not check that a retired generation is really out of
/// use: the caller retires a generation only after all work on it is done.
#[derive(Debug)]
pub struct RingBufferIndexAllocator<const N: usize> {
    back: usize,
    front: usize,
    size: usize,
    capacity: usize,
    sizes: [usize; N],
    index: usize,
}

/// Sum of the entries of `s`.
pub open spec fn sum(s: Seq<usize>) -> int
    decreases s.len(),
{
    if s.len() == 0 {
        0
    } else {
        sum(s.drop_last()) + s.last()
    }
}

/// `x` folded back into `[0, m)`, for `x` below `2 * m`.
pub open spec fn wrap(x: int, m: int) -> int {
    if x >= m {
        x - m
    } else {
        x
    }
}

/// Replacing one entry changes the sum by the difference, and no entry
/// exceeds the sum.
pub proof fn lemma_sum_update(s: Seq<usize>, i: int, v: usize)
    requires
        0 <= i < s.len(),
    ensures
        sum(s.update(i, v)) == sum(s) - s[i] + v,
        s[i] <= sum(s),
    decreases s.len(),
{
    if i == s.len() - 1 {
        assert(s.update(i, v).drop_last() == s.drop_last());
        lemma_sum_nonnegative(s.drop_last());
    } else {
        assert(s.update(i, v).drop_last() == s.drop_last().update(i, v));
        lemma_sum_update(s.drop_last(), i, v);
    }
}

/// A sum of unsigned entries is not negative.
pub proof fn lemma_sum_nonnegative(s: Seq<usize>)
    ensures
        sum(s) >= 0,
    decreases s.len(),
{
    if s.len() > 0 {
        lemma_sum_nonnegative(s.drop_last());
    }
}

proof fn lemma_sum_zeros(s: Seq<usize>)
    requires
        forall|i: int| 0 <= i < s.len() ==> s[i] == 0,
    ensures
        sum(s) == 0,
    decreases s.len(),
{
    if s.len() > 0 {
        lemma_sum_zeros(s.drop_last());
    }
}

impl<const N: usize> RingBufferIndexAllocator<N> {
    /// Offset of the oldest unit that is still in use.
    pub closed spec fn back(&self) -> int {
        self.back as int
    }

    /// Offset at which the next block starts.
    pub closed spec fn front(&self) -> int {
        self.front as int
    }

    /// Units in use, wasted tails included.
    pub closed spec fn size(&self) -> int {
        self.size as int
    }

    /// Number of units in the buffer.
    pub closed spec fn capacity(&self) -> int {
        self.capacity as int
    }

    /// Units charged to each generation.
    pub closed spec fn sizes(&self) -> Seq<usize> {
        self.sizes@
    }

    /// The generation that blocks are charged to at present.
    pub closed spec fn index(&self) -> int {
        self.index as int
    }

    /// The units in use are those charged to the generations, and they lie
    /// in one run from `back` round to `front`.
    pub open spec fn wf(&self) -> bool {
        &&& N > 0
        &&& self.sizes().len() == N
        &&& 0 < self.capacity() <= usize::MAX
        &&& 0 <= self.index() < N
        &&& 0 <= self.back() < self.capacity()
        &&& 0 <= self.size() <= self.capacity()
        &&& self.size() == sum(self.sizes())
        &&& self.front() == wrap(self.back() + self.size(), self.capacity())
    }

    /// The unit at offset `p` is in use.
    pub open spec fn is_live(&self, p: int) -> bool {
        &&& 0 <= p < self.capacity()
        &&& if self.back() + self.size() <= self.capacity() {
            self.back() <= p < self.back() + self.size()
        } else {
            p >= self.back() || p < self.back() + self.size() - self.capacity()
        }
    }

    /// Where a block of `size` units goes: the offset at which it starts and
    /// the units wasted at the end of the buffer in front of it. `None`
    /// where the block has no room.
    pub open spec fn placement(&self, size: usize) -> Option<(usize, usize)> {
        if size > self.capacity() {
            None
        } else if self.size() == 0 {
            Some((0usize, 0usize))
        } else if self.front() > self.back() {
            if size <= self.capacity() - self.front() {
                Some((self.front() as usize, 0usize))
            } else if size <= self.back() {
                Some((0usize, (self.capacity() - self.front()) as usize))
            } else {
                None
            }
        } else {
            if self.front() + size <= self.back() {
                Some((self.front() as usize, 0usize))
            } else {
                None
            }
        }
    }

    /// What a call of `allocate(size)` with result `r` makes of `before`:
    /// nothing where the block has no room, else the block is charged to
    /// the current generation together with the tail that it wasted.
    pub open spec fn after_allocate(&self, before: &Self, size: usize, r: Option<usize>) -> bool {
        &&& self.capacity() == before.capacity()
        &&& self.index() == before.index()
        &&& match before.placement(size) {
            None => {
                &&& r is None
                &&& self.back() == before.back()
                &&& self.front() == before.front()
                &&& self.size() == before.size()
                &&& self.sizes() == before.sizes()
            },
            Some((start, waste)) => {
                &&& r == Some(start)
                &&& self.back() == if before.size() == 0 {
                    0
                } else {
                    before.back()
                }
                &&& self.front() == wrap(start + size, before.capacity())
                &&& self.size() == before.size() + waste + size
                &&& self.sizes() == before.sizes().update(
                    before.index(),
                    (before.sizes()[before.index()] + waste + size) as usize,
                )
            },
        }
    }

    /// What a call of `next_ring` makes of `before`: the next generation is
    /// current, and what was charged to it is in use no more.
    pub open spec fn after_next_ring(&self, before: &Self) -> bool {
        &&& self.index() == (before.index() + 1) % (N as int)
        &&& self.capacity() == before.capacity()
        &&& self.front() == before.front()
        &&& self.back() == wrap(before.back() + before.sizes()[self.index()], before.capacity())
        &&& self.size() == before.size() - before.sizes()[self.index()]
        &&& self.sizes() == before.sizes().update(self.index(), 0usize)
    }

    /// An empty buffer of `capacity` units, of 128 where none is given.
    /// A buffer of no units, or of no generations, can be made but is of no
    /// use: it refuses every block that holds a unit, and nothing else may be
    /// asked of it.
    pub fn new(capacity: Option<usize>) -> (r: Self)
        ensures
            r.capacity() == match capacity {
                Some(c) => c as int,
                None => 128,
            },
            r.back() == 0,
            r.front() == 0,
            r.size() == 0,
            r.index() == 0,
            r.sizes() == Seq::new(N as nat, |i: int| 0usize),
            N > 0 && capacity != Some(0usize) ==> r.wf(),
    {
        let capacity = match capacity {
            Some(c) => c,
            None => 128,
        };
        let r = Self { back: 0, front: 0, size: 0, capacity, sizes: [0;N], index: 0 };
        proof {
            lemma_sum_zeros(r.sizes@);
        }
        r
    }

    /// Moves on to the next generation and takes back what was charged to
    /// it when it was last current.
    pub fn next_ring(&mut self)
        requires
            old(self).wf(),
        ensures
            final(self).wf(),
            final(self).after_next_ring(old(self)),
            forall|p: int| final(self).is_live(p) ==> old(self).is_live(p),
    {
        let next = if self.index + 1 == N { 0 } else { self.index + 1 };
        proof {
            if self.index + 1 < N {
                assert((self.index + 1) % (N as int) == self.index + 1) by (nonlinear_arith)
                    requires
                        0 <= self.index + 1 < N,
                ;
            }
            lemma_sum_update(self.sizes@, next as int, 0usize);
        }
        let size_to_free = self.sizes[next];
        let room = self.capacity - self.back;
        self.index = next;
        self.back = if size_to_free >= room { size_to_free - room } else { self.back + size_to_free };
        self.size -= size_to_free;
        self.sizes[next] = 0;
    }

    /// Reserves `size` units in one piece and returns the offset at which
    /// they start, or `None` where they have no room. A block never spans the
    /// end of the buffer: where it does not fit behind `front`, the tail is
    /// given up and the block starts at offset 0. A block of more units
    /// than the buffer holds is refused in every state.
    pub fn allocate(&mut self, size: usize) -> (r: Option<usize>)
        requires
            size <= old(self).capacity() ==> old(self).wf(),
        ensures
            old(self).wf() ==> final(self).wf(),
            size > old(self).capacity() ==> r is None,
            final(self).after_allocate(old(self), size, r),
            r matches Some(start) ==> {
                &&& start + size <= old(self).capacity()
                &&& forall|p: int|
                    start <= p < start + size ==> !old(self).is_live(p) && final(self).is_live(p)
            },
            forall|p: int| old(self).is_live(p) ==> final(self).is_live(p),
    {
        if size > self.capacity {
            return None;
        }
        if self.front > self.back || (self.front == self.back && self.size == 0) {
            if self.size == 0 {
                self.front = 0;
                self.back = 0;
            }
            let room = self.capacity - self.front;
            if size <= room {
                let idx = self.front;
                proof {
                    lemma_sum_update(
                        self.sizes@,
                        self.index as int,
                        (self.sizes@[self.index as int] + size) as usize,
                    );
                }
                self.front = if size == room { 0 } else { self.front + size };
                self.size += size;
                self.sizes[self.index] += size;
                Some(idx)
            } else {
                if size > self.back {
                    return None;
                }
                let unused_tail = room;
                proof {
                    lemma_sum_update(
                        self.sizes@,
                        self.index as int,
                        (self.sizes@[self.index as int] + unused_tail + size) as usize,
                    );
                }
                self.size += unused_tail;
                self.sizes[self.index] += unused_tail;
                self.front = size;
                self.size += size;
                self.sizes[self.index] += size;
                proof {
                    assert(self.sizes@ =~= old(self).sizes@.update(
                        self.index as int,
                        (old(self).sizes@[self.index as int] + unused_tail + size) as usize,
                    ));
                }
                Some(0)
            }
        } else {
            if size > self.back - self.front {
                return None;
            }
            let idx = self.front;
            proof {
                lemma_sum_update(
                    self.sizes@,
                    self.index as int,
                    (self.sizes@[self.index as int] + size) as usize,
                );
            }
            self.front = self.front + size;
            self.size += size;
            self.sizes[self.index] += size;
            Some(idx)
        }
    }
}

} // verus!
