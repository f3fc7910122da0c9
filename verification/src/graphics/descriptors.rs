use vstd::prelude::*;

verus! {

/// A half-open range `[start, end)` of slots in a descriptor table.
#[derive(Debug, Clone, Copy, PartialEq, Eq, Structural)]
pub struct InnerRange {
    pub start: usize,
    pub end: usize,
}

impl InnerRange {
    /// Number of slots in the range; an inverted range holds none.
    pub open spec fn spec_len(self) -> nat {
        if self.end >= self.start {
            (self.end - self.start) as nat
        } else {
            0
        }
    }

    /// Slot `p` lies in the range.
    pub open spec fn contains(self, p: int) -> bool {
        self.start <= p < self.end
    }

    /// One range ends where the other starts.
    pub open spec fn adjacent(self, other: Self) -> bool {
        self.end == other.start || other.end == self.start
    }

    /// At least one slot lies between the two ranges: they neither overlap
    /// nor touch.
    pub open spec fn separated(self, other: Self) -> bool {
        self.end < other.start || other.end < self.start
    }

    /// The two ranges share a slot.
    pub open spec fn overlaps(self, other: Self) -> bool {
        self.start < other.end && other.start < self.end && self.start < self.end && other.start
            < other.end
    }

    /// Number of slots in the range; an inverted range holds none.
    pub fn len(self) -> (n: usize)
        ensures
            n == self.spec_len(),
    {
        if self.end >= self.start {
            self.end - self.start
        } else {
            0
        }
    }

    /// `true` where one range ends where the other starts.
    pub fn is_adjacent_to(&self, other: &Self) -> (r: bool)
        ensures
            r == self.adjacent(*other),
    {
        self.end == other.start || other.end == self.start
    }

    /// The smallest range that covers both.
    pub fn merge(self, other: Self) -> (r: Self)
        ensures
            r.start == if self.start <= other.start { self.start } else { other.start },
            r.end == if self.end >= other.end { self.end } else { other.end },
    {
        let start = if self.start <= other.start { self.start } else { other.start };
        let end = if self.end >= other.end { self.end } else { other.end };
        InnerRange { start, end }
    }
}

/// A run of descriptor slots that was carved out of a
/// [`DescriptorRangeAllocator`]. It is handed back with
/// [`DescriptorRangeAllocator::free`].
#[derive(Debug)]
pub struct Descriptor {
    heap_index: InnerRange,
}

impl Descriptor {
    /// The slots the descriptor stands for.
    pub closed spec fn range(&self) -> InnerRange {
        self.heap_index
    }

    /// First slot of the run.
    pub fn index(&self) -> (i: usize)
        ensures
            i == self.range().start,
    {
        self.heap_index.start
    }

    /// Number of slots in the run.
    pub fn count(&self) -> (n: usize)
        ensures
            n == self.range().spec_len(),
    {
        self.heap_index.len()
    }
}

/// Best-fit allocator over the slots `[0, capacity)` of a descriptor table
/// of fixed size. Free slots are kept as coalesced ranges.
#[derive(Debug)]
pub struct DescriptorRangeAllocator {
    size: usize,
    /// Longest range first, so that a shortest one is found at the end.
    free_ranges: Vec<InnerRange>,
}

/// No range is shorter than one that follows it.
pub open spec fn longest_first(ranges: Seq<InnerRange>) -> bool {
    forall|i: int, j: int|
        0 <= i < j < ranges.len() ==> (#[trigger] ranges[i]).spec_len() >= (
        #[trigger] ranges[j]).spec_len()
}

/// Every range holds a slot and ends within `capacity`, and between any two
/// ranges lies a slot that belongs to neither.
pub open spec fn coalesced(ranges: Seq<InnerRange>, capacity: nat) -> bool {
    &&& forall|i: int|
        0 <= i < ranges.len() ==> (#[trigger] ranges[i]).start < ranges[i].end && ranges[i].end
            <= capacity
    &&& forall|i: int, j: int|
        0 <= i < ranges.len() && 0 <= j < ranges.len() && i != j ==> (#[trigger] ranges[i]).separated(
            #[trigger] ranges[j],
        )
}

/// Some range of `ranges` holds slot `p`.
pub open spec fn covers(ranges: Seq<InnerRange>, p: int) -> bool {
    exists|i: int| 0 <= i < ranges.len() && (#[trigger] ranges[i]).contains(p)
}

/// `f` is a shortest range of `ranges` among those with at least `size` slots.
pub open spec fn is_best_fit(ranges: Seq<InnerRange>, f: InnerRange, size: usize) -> bool {
    &&& ranges.contains(f)
    &&& f.spec_len() >= size
    &&& forall|i: int|
        0 <= i < ranges.len() && (#[trigger] ranges[i]).spec_len() >= size ==> f.spec_len()
            <= ranges[i].spec_len()
}

/// Puts `r` into `ranges` in front of the first range that is shorter.
fn insert_by_length(ranges: &mut Vec<InnerRange>, r: InnerRange)
    requires
        longest_first(old(ranges)@),
    ensures
        longest_first(final(ranges)@),
        exists|k: int| 0 <= k <= old(ranges)@.len() && final(ranges)@ == old(ranges)@.insert(k, r),
{
    let len = r.len();
    let mut k: usize = 0;
    while k < ranges.len() && ranges[k].len() >= len
        invariant
            k <= ranges@.len(),
            len == r.spec_len(),
            ranges@ == old(ranges)@,
            forall|i: int| 0 <= i < k ==> (#[trigger] ranges@[i]).spec_len() >= len,
        decreases ranges@.len() - k,
    {
        k += 1;
    }
    ranges.insert(k, r);
}

/// Taking a range out of a coalesced list leaves a coalesced list that
/// covers what the others covered.
proof fn lemma_remove_range(ranges: Seq<InnerRange>, k: int, capacity: nat)
    requires
        coalesced(ranges, capacity),
        longest_first(ranges),
        0 <= k < ranges.len(),
    ensures
        coalesced(ranges.remove(k), capacity),
        longest_first(ranges.remove(k)),
        forall|x: InnerRange| #[trigger]
            ranges.remove(k).contains(x) <==> x != ranges[k] && ranges.contains(x),
        forall|p: int| #[trigger]
            covers(ranges.remove(k), p) <==> covers(ranges, p) && !ranges[k].contains(p),
        forall|i: int| 0 <= i < ranges.remove(k).len() ==> (#[trigger] ranges.remove(k)[i]).separated(ranges[k]),
{
    let rest = ranges.remove(k);
    assert forall|x: InnerRange| #[trigger]
        rest.contains(x) <==> x != ranges[k] && ranges.contains(x) by {
        if x != ranges[k] && ranges.contains(x) {
            let i0 = choose|i: int| 0 <= i < ranges.len() && ranges[i] == x;
            let i = if i0 < k { i0 } else { i0 - 1 };
            assert(rest[i] == x);
        }
    }
    assert forall|p: int| #[trigger]
        covers(rest, p) <==> covers(ranges, p) && !ranges[k].contains(p) by {
        if covers(ranges, p) && !ranges[k].contains(p) {
            let i0 = choose|i: int| 0 <= i < ranges.len() && (#[trigger] ranges[i]).contains(p);
            let i = if i0 < k { i0 } else { i0 - 1 };
            assert(rest[i].contains(p));
        }
    }
}

/// Putting a range that keeps its distance from all others into a coalesced
/// list leaves a coalesced list that covers its slots as well.
proof fn lemma_insert_range(ranges: Seq<InnerRange>, k: int, r: InnerRange, capacity: nat)
    requires
        coalesced(ranges, capacity),
        0 <= k <= ranges.len(),
        r.start < r.end <= capacity,
        forall|i: int| 0 <= i < ranges.len() ==> (#[trigger] ranges[i]).separated(r),
    ensures
        coalesced(ranges.insert(k, r), capacity),
        forall|x: InnerRange| #[trigger]
            ranges.insert(k, r).contains(x) <==> x == r || ranges.contains(x),
        forall|p: int| #[trigger]
            covers(ranges.insert(k, r), p) <==> covers(ranges, p) || r.contains(p),
{
    let all = ranges.insert(k, r);
    assert forall|x: InnerRange| #[trigger] all.contains(x) <==> x == r || ranges.contains(x) by {
        if x == r {
            assert(all[k] == x);
        }
        if ranges.contains(x) {
            let i0 = choose|i: int| 0 <= i < ranges.len() && ranges[i] == x;
            let i = if i0 < k { i0 } else { i0 + 1 };
            assert(all[i] == x);
        }
    }
    assert forall|p: int| #[trigger] covers(all, p) <==> covers(ranges, p) || r.contains(p) by {
        if r.contains(p) {
            assert(all[k].contains(p));
        }
        if covers(ranges, p) {
            let i0 = choose|i: int| 0 <= i < ranges.len() && (#[trigger] ranges[i]).contains(p);
            let i = if i0 < k { i0 } else { i0 + 1 };
            assert(all[i].contains(p));
        }
    }
}

impl DescriptorRangeAllocator {
    /// Number of slots in the table.
    pub closed spec fn capacity(&self) -> nat {
        self.size as nat
    }

    /// The free ranges, in the order in which the allocator keeps them.
    pub closed spec fn free_ranges(&self) -> Seq<InnerRange> {
        self.free_ranges@
    }

    /// Slot `p` is free.
    pub open spec fn is_free(&self, p: int) -> bool {
        covers(self.free_ranges(), p)
    }

    /// The free ranges are coalesced and ordered by length.
    pub open spec fn wf(&self) -> bool {
        &&& longest_first(self.free_ranges())
        &&& coalesced(self.free_ranges(), self.capacity())
    }

    /// Some free range has room for `size` slots.
    pub open spec fn can_fit(&self, size: usize) -> bool {
        exists|i: int|
            0 <= i < self.free_ranges().len() && (#[trigger] self.free_ranges()[i]).spec_len()
                >= size
    }

    /// `d` lies in the table and none of its slots is free: it is a run that
    /// this allocator can take back.
    pub open spec fn holds(&self, d: InnerRange) -> bool {
        &&& d.start <= d.end <= self.capacity()
        &&& forall|p: int| d.contains(p) ==> !self.is_free(p)
    }

    /// An allocator over `size` slots, all of them free.
    pub fn new(size: usize) -> (r: Self)
        ensures
            r.wf(),
            r.capacity() == size,
            size > 0 ==> r.free_ranges() == seq![InnerRange { start: 0, end: size }],
            size == 0 ==> r.free_ranges() == Seq::<InnerRange>::empty(),
            forall|p: int| r.is_free(p) <==> 0 <= p < size,
    {
        let mut free_ranges = Vec::new();
        if size > 0 {
            free_ranges.push(InnerRange { start: 0, end: size });
            proof {
                assert forall|p: int| 0 <= p < size implies covers(free_ranges@, p) by {
                    assert(free_ranges@[0].contains(p));
                }
            }
        }
        Self { size, free_ranges }
    }

    /// Carves `size` slots out of a shortest free range that has room for
    /// them, from its start. What is left of that range stays free. Returns
    /// `None`, and changes nothing, where no free range has room.
    pub fn try_allocate(&mut self, size: usize) -> (r: Option<Descriptor>)
        requires
            old(self).wf(),
        ensures
            final(self).wf(),
            final(self).capacity() == old(self).capacity(),
            r is None <==> !old(self).can_fit(size),
            r is None ==> final(self).free_ranges() == old(self).free_ranges(),
            r matches Some(d) ==> exists|f: InnerRange|
                {
                    &&& is_best_fit(old(self).free_ranges(), f, size)
                    &&& d.range() == InnerRange { start: f.start, end: (f.start + size) as usize }
                    &&& forall|x: InnerRange| #[trigger]
                        final(self).free_ranges().contains(x) <==> (x != f && old(
                            self,
                        ).free_ranges().contains(x)) || (size < f.spec_len() && x == InnerRange {
                            start: (f.start + size) as usize,
                            end: f.end,
                        })
                },
            r matches Some(d) ==> {
                &&& d.range().spec_len() == size
                &&& forall|p: int| d.range().contains(p) ==> old(self).is_free(p)
                &&& forall|p: int| final(self).is_free(p) <==> old(self).is_free(p) && !d.range().contains(p)
                &&& final(self).holds(d.range())
            },
    {
        let ghost before = self.free_ranges@;
        let mut i: usize = self.free_ranges.len();
        while i > 0 && self.free_ranges[i - 1].len() < size
            invariant
                i <= self.free_ranges@.len(),
                self.free_ranges@ == before,
                forall|j: int| i <= j < before.len() ==> (#[trigger] before[j]).spec_len() < size,
            decreases i,
        {
            i -= 1;
        }
        if i == 0 {
            return None;
        }
        let k: usize = i - 1;
        let found = self.free_ranges.remove(k);
        let allocated_end: usize = found.start + size;
        let allocated = InnerRange { start: found.start, end: allocated_end };
        proof {
            lemma_remove_range(before, k as int, self.size as nat);
            assert(is_best_fit(before, found, size));
        }
        if allocated_end < found.end {
            let remaining = InnerRange { start: allocated_end, end: found.end };
            let ghost rest = self.free_ranges@;
            insert_by_length(&mut self.free_ranges, remaining);
            proof {
                let pos = choose|pos: int|
                    0 <= pos <= rest.len() && self.free_ranges@ == rest.insert(pos, remaining);
                lemma_insert_range(rest, pos, remaining, self.size as nat);
            }
        }
        Some(Descriptor { heap_index: allocated })
    }

    /// Carves `size` slots out of a shortest free range that has room for
    /// them. The table is of fixed size: the caller makes sure that there is
    /// room.
    pub fn allocate(&mut self, size: usize) -> (d: Descriptor)
        requires
            old(self).wf(),
            old(self).can_fit(size),
        ensures
            final(self).wf(),
            final(self).capacity() == old(self).capacity(),
            exists|f: InnerRange|
                {
                    &&& is_best_fit(old(self).free_ranges(), f, size)
                    &&& d.range() == InnerRange { start: f.start, end: (f.start + size) as usize }
                    &&& forall|x: InnerRange| #[trigger]
                        final(self).free_ranges().contains(x) <==> (x != f && old(
                            self,
                        ).free_ranges().contains(x)) || (size < f.spec_len() && x == InnerRange {
                            start: (f.start + size) as usize,
                            end: f.end,
                        })
                },
            d.range().spec_len() == size,
            forall|p: int| d.range().contains(p) ==> old(self).is_free(p),
            forall|p: int| final(self).is_free(p) <==> old(self).is_free(p) && !d.range().contains(p),
            final(self).holds(d.range()),
    {
        match self.try_allocate(size) {
            Some(d) => d,
            None => unreached(),
        }
    }

    /// Takes the slots of `descriptor` back and joins them with the free
    /// ranges that touch them, so that no two free ranges touch afterwards.
    /// A descriptor that this allocator does not hold (it reaches beyond the
    /// table, or one of its slots is free already) is ignored, and so is a
    /// descriptor without slots.
    pub fn free(&mut self, descriptor: Descriptor)
        requires
            old(self).wf(),
        ensures
            final(self).wf(),
            final(self).capacity() == old(self).capacity(),
            old(self).holds(descriptor.range()) ==> forall|p: int|
                final(self).is_free(p) <==> old(self).is_free(p) || descriptor.range().contains(p),
            !old(self).holds(descriptor.range()) ==> final(self).free_ranges() == old(
                self,
            ).free_ranges(),
    {
        let d = descriptor.heap_index;
        if d.start >= d.end || d.end > self.size {
            return ;
        }
        if self.overlaps_free_range(d) {
            return ;
        }
        let ghost before = self.free_ranges@;
        let mut merged = d;
        let mut i: usize = 0;
        while i < self.free_ranges.len()
            invariant
                i <= self.free_ranges@.len(),
                self.size == old(self).size,
                coalesced(self.free_ranges@, self.size as nat),
                longest_first(self.free_ranges@),
                merged.start < merged.end <= self.size,
                forall|p: int|
                    covers(self.free_ranges@, p) || merged.contains(p) <==> covers(before, p)
                        || d.contains(p),
                forall|j: int|
                    0 <= j < self.free_ranges@.len() ==> !(#[trigger] self.free_ranges@[j]).overlaps(
                        merged,
                    ),
                forall|j: int| 0 <= j < i ==> (#[trigger] self.free_ranges@[j]).separated(merged),
            decreases self.free_ranges@.len() - i,
        {
            let ghost ranges = self.free_ranges@;
            if merged.is_adjacent_to(&self.free_ranges[i]) {
                let current = self.free_ranges.remove(i);
                merged = merged.merge(current);
                proof {
                    lemma_remove_range(ranges, i as int, self.size as nat);
                }
            } else {
                i += 1;
            }
        }
        let ghost rest = self.free_ranges@;
        insert_by_length(&mut self.free_ranges, merged);
        proof {
            let pos = choose|pos: int|
                0 <= pos <= rest.len() && self.free_ranges@ == rest.insert(pos, merged);
            lemma_insert_range(rest, pos, merged, self.size as nat);
        }
    }

    /// `true` where `d` shares a slot with a free range.
    fn overlaps_free_range(&self, d: InnerRange) -> (r: bool)
        requires
            self.wf(),
            d.start < d.end,
        ensures
            r == exists|p: int| d.contains(p) && self.is_free(p),
            !r ==> forall|j: int|
                0 <= j < self.free_ranges().len() ==> !(#[trigger] self.free_ranges()[j]).overlaps(d),
    {
        let mut i: usize = 0;
        while i < self.free_ranges.len()
            invariant
                i <= self.free_ranges@.len(),
                self.wf(),
                d.start < d.end,
                forall|j: int| 0 <= j < i ==> !(#[trigger] self.free_ranges@[j]).overlaps(d),
            decreases self.free_ranges@.len() - i,
        {
            let current = self.free_ranges[i];
            if current.start < d.end && d.start < current.end {
                proof {
                    let p = if current.start >= d.start {
                        current.start as int
                    } else {
                        d.start as int
                    };
                    assert(d.contains(p) && self.free_ranges()[i as int].contains(p));
                }
                return true;
            }
            i += 1;
        }
        false
    }

    /// `true` where some free range has room for `size` slots.
    pub fn has_room(&self, size: usize) -> (r: bool)
        requires
            self.wf(),
        ensures
            r == self.can_fit(size),
    {
        self.free_ranges.len() > 0 && self.free_ranges[0].len() >= size
    }

    /// Number of slots in the table.
    pub fn capacity_slots(&self) -> (n: usize)
        ensures
            n == self.capacity(),
    {
        self.size
    }

    /// A copy of the free ranges, longest first.
    pub fn free_range_list(&self) -> (r: Vec<InnerRange>)
        ensures
            r@ == self.free_ranges(),
    {
        let mut out: Vec<InnerRange> = Vec::new();
        let mut i: usize = 0;
        while i < self.free_ranges.len()
            invariant
                i <= self.free_ranges@.len(),
                out@ == self.free_ranges@.take(i as int),
            decreases self.free_ranges@.len() - i,
        {
            out.push(self.free_ranges[i]);
            i += 1;
        }
        out
    }
}

/// A coalesced list is determined by the slots it covers: a range of one
/// coalesced list occurs in every coalesced list that covers the same slots.
pub proof fn lemma_range_is_determined(a: Seq<InnerRange>, b: Seq<InnerRange>, ca: nat, cb: nat, x: InnerRange)
    requires
        coalesced(a, ca),
        coalesced(b, cb),
        forall|p: int| covers(a, p) <==> covers(b, p),
        a.contains(x),
    ensures
        b.contains(x),
{
    // Some range `y` of `b` holds the first slot of `x`.
    assert(covers(b, x.start as int));
    let j = choose|j: int| 0 <= j < b.len() && (#[trigger] b[j]).contains(x.start as int);
    let y = b[j];
    // `y` does not start earlier: the slot in front of `x` would be covered
    // in `a`, by a range that touches `x`.
    if y.start < x.start {
        assert(covers(a, x.start - 1));
    }
    // `y` does not end later: the slot behind `x` would be covered in `a`.
    if y.end > x.end {
        assert(covers(a, x.end as int));
    }
    // `y` does not end earlier: the slot behind `y` is covered in `b`.
    if y.end < x.end {
        assert(covers(b, y.end as int));
    }
}

impl DescriptorRangeAllocator {
    /// Only slots of the table are free.
    pub proof fn lemma_free_slots_in_table(self, p: int)
        requires
            self.wf(),
            self.is_free(p),
        ensures
            0 <= p < self.capacity(),
    {
    }

    /// Two allocators with the same free slots keep the same free ranges.
    pub proof fn lemma_same_slots_same_ranges(self, other: Self)
        requires
            self.wf(),
            other.wf(),
            forall|p: int| self.is_free(p) <==> other.is_free(p),
        ensures
            self.free_ranges().to_set() == other.free_ranges().to_set(),
    {
        let a = self.free_ranges();
        let b = other.free_ranges();
        assert forall|p: int| covers(a, p) <==> covers(b, p) by {
            assert(self.is_free(p) <==> other.is_free(p));
        }
        assert forall|x: InnerRange| a.to_set().contains(x) <==> b.to_set().contains(x) by {
            if a.contains(x) {
                lemma_range_is_determined(a, b, self.capacity(), other.capacity(), x);
            }
            if b.contains(x) {
                lemma_range_is_determined(b, a, other.capacity(), self.capacity(), x);
            }
        }
    }

    /// Handing a descriptor back right after it was carved out restores the
    /// free ranges: where `mid` follows `self` by an allocation of `d`, and
    /// `after` follows `mid` by freeing `d`, `after` keeps the free ranges
    /// of `self`.
    pub proof fn lemma_free_undoes_allocate(self, mid: Self, after: Self, d: InnerRange)
        requires
            self.wf(),
            mid.wf(),
            after.wf(),
            forall|p: int| d.contains(p) ==> self.is_free(p),
            forall|p: int| mid.is_free(p) <==> self.is_free(p) && !d.contains(p),
            forall|p: int| after.is_free(p) <==> mid.is_free(p) || d.contains(p),
        ensures
            after.free_ranges().to_set() == self.free_ranges().to_set(),
    {
        after.lemma_same_slots_same_ranges(self);
    }

    /// Once every slot of the table is free again, in whatever sizes and
    /// order the slots went out and came back, one free range is left and it
    /// spans the table.
    pub proof fn lemma_full_reclamation(self)
        requires
            self.wf(),
            self.capacity() > 0,
            forall|p: int| 0 <= p < self.capacity() ==> self.is_free(p),
        ensures
            self.free_ranges() == seq![InnerRange { start: 0, end: self.capacity() as usize }],
    {
        let a = self.free_ranges();
        let whole = InnerRange { start: 0, end: self.capacity() as usize };
        let b = seq![whole];
        assert(b[0] == whole);
        assert forall|p: int| covers(a, p) <==> covers(b, p) by {
            if covers(b, p) {
                assert(self.is_free(p));
            }
        }
        lemma_range_is_determined(b, a, self.capacity(), self.capacity(), whole);
        let i = choose|i: int| 0 <= i < a.len() && a[i] == whole;
        if a.len() > 1 {
            // A second range would be `whole` as well, and a coalesced list
            // holds no range twice.
            let j = if i == 0 { 1int } else { 0int };
            lemma_range_is_determined(a, b, self.capacity(), self.capacity(), a[j]);
            let k = choose|k: int| 0 <= k < b.len() && b[k] == a[j];
        }
    }
}

} // verus!
