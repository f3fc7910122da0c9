use vstd::prelude::*;
use std::collections::VecDeque;
use super::sync::{LocalFence, SyncPoint};

verus! {

/// An object that went to the device, with the sync point of the submission
/// it went with.
#[derive(Debug)]
pub struct InFlight<T> {
    pub item: T,
    pub stamp: SyncPoint,
}

/// What [`RecyclingQueue::acquire`] found for the caller.
#[derive(Debug)]
pub enum Acquired<T> {
    /// An object that is free for use at once.
    Ready(T),
    /// The oldest object in flight. The device may still use it: the caller
    /// waits for the sync point before it touches the object.
    MustWait(T, SyncPoint),
    /// Nothing can be reused now and the queue has no limit: the caller
    /// makes a new object.
    Fresh,
}

/// Decides when an object that went to the device may be used again.
/// Objects that were submitted wait in the order of their submission, each
/// with the sync point of its submission, and come back once the device has
/// completed that sync point.
#[derive(Debug)]
pub struct RecyclingQueue<T> {
    in_flight: VecDeque<InFlight<T>>,
    capacity: Option<usize>,
    in_record: Vec<T>,
    pending: Vec<T>,
}

/// The objects of `items`, each stamped with `stamp`, in their order.
pub open spec fn stamped<T>(items: Seq<T>, stamp: SyncPoint) -> Seq<InFlight<T>> {
    Seq::new(items.len(), |i: int| InFlight { item: items[i], stamp })
}

/// No object waits behind one with a later sync point.
pub open spec fn in_submission_order<T>(entries: Seq<InFlight<T>>) -> bool {
    forall|i: int, j: int|
        0 <= i < j < entries.len() ==> (#[trigger] entries[i]).stamp <= (#[trigger] entries[j]).stamp
}

impl<T> RecyclingQueue<T> {
    /// The objects in flight, the oldest first.
    pub closed spec fn in_flight(&self) -> Seq<InFlight<T>> {
        self.in_flight@
    }

    /// The objects that were put aside while still being recorded, the last
    /// one put aside last.
    pub closed spec fn stashed(&self) -> Seq<T> {
        self.in_record@
    }

    /// The objects that were released since the last commit, in the order
    /// of their release.
    pub closed spec fn pending(&self) -> Seq<T> {
        self.pending@
    }

    /// `true` where the queue has a limit, so that a caller waits for the
    /// oldest object instead of making a new one.
    pub closed spec fn bounded(&self) -> bool {
        self.capacity is Some
    }

    /// What `acquire` can draw on: a bounded queue never makes the caller
    /// create an object, so it holds one that was stashed or is in flight.
    pub open spec fn can_acquire(&self) -> bool {
        self.bounded() ==> self.stashed().len() > 0 || self.in_flight().len() > 0
    }

    /// What `acquire` hands out when the device has completed `completed`.
    pub open spec fn acquire_result(&self, completed: SyncPoint) -> Acquired<T> {
        if self.stashed().len() > 0 {
            Acquired::Ready(self.stashed().last())
        } else if self.in_flight().len() > 0 && self.in_flight()[0].stamp <= completed {
            Acquired::Ready(self.in_flight()[0].item)
        } else if self.bounded() {
            Acquired::MustWait(self.in_flight()[0].item, self.in_flight()[0].stamp)
        } else {
            Acquired::Fresh
        }
    }

    /// The stashed objects that `acquire` leaves.
    pub open spec fn stashed_after_acquire(&self) -> Seq<T> {
        if self.stashed().len() > 0 {
            self.stashed().drop_last()
        } else {
            self.stashed()
        }
    }

    /// The objects in flight that `acquire` leaves when the device has
    /// completed `completed`.
    pub open spec fn in_flight_after_acquire(&self, completed: SyncPoint) -> Seq<InFlight<T>> {
        if self.stashed().len() == 0 && self.in_flight().len() > 0 && (self.in_flight()[0].stamp
            <= completed || self.bounded()) {
            self.in_flight().subrange(1, self.in_flight().len() as int)
        } else {
            self.in_flight()
        }
    }

    /// An empty queue; with a `capacity` it is bounded.
    pub fn new(capacity: Option<usize>) -> (r: Self)
        ensures
            r.in_flight() == Seq::<InFlight<T>>::empty(),
            r.stashed() == Seq::<T>::empty(),
            r.pending() == Seq::<T>::empty(),
            r.bounded() == (capacity is Some),
    {
        let in_flight = match capacity {
            Some(capacity) => VecDeque::with_capacity(capacity),
            None => VecDeque::new(),
        };
        Self { in_flight, capacity, in_record: Vec::new(), pending: Vec::new() }
    }

    /// `true` where the queue has a limit.
    pub fn is_bounded(&self) -> (r: bool)
        ensures
            r == self.bounded(),
    {
        self.capacity.is_some()
    }

    /// `true` where `acquire` has something to draw on.
    pub fn is_acquirable(&self) -> (r: bool)
        ensures
            r == self.can_acquire(),
    {
        self.capacity.is_none() || self.in_record.len() > 0 || self.in_flight.len() > 0
    }

    /// Finds an object for the caller, given the sync point that the device
    /// has completed. An object that was stashed comes first. Else the
    /// oldest object in flight comes back where the device is done with it.
    /// Where it is not, a bounded queue hands it out all the same, for the
    /// caller to wait for, and a queue without limit tells the caller to make
    /// a new object.
    pub fn acquire(&mut self, completed: SyncPoint) -> (r: Acquired<T>)
        requires
            old(self).can_acquire(),
        ensures
            final(self).bounded() == old(self).bounded(),
            final(self).pending() == old(self).pending(),
            r == old(self).acquire_result(completed),
            final(self).stashed() == old(self).stashed_after_acquire(),
            final(self).in_flight() == old(self).in_flight_after_acquire(completed),
            in_submission_order(old(self).in_flight()) ==> in_submission_order(
                final(self).in_flight(),
            ),
    {
        match self.in_record.pop() {
            Some(item) => {
                return Acquired::Ready(item);
            },
            None => {},
        }
        if self.in_flight.len() > 0 && self.in_flight[0].stamp <= completed {
            match self.in_flight.pop_front() {
                Some(entry) => Acquired::Ready(entry.item),
                None => Acquired::Fresh,
            }
        } else if self.capacity.is_some() {
            match self.in_flight.pop_front() {
                Some(entry) => Acquired::MustWait(entry.item, entry.stamp),
                None => Acquired::Fresh,
            }
        } else {
            Acquired::Fresh
        }
    }

    /// Puts aside an object that is still being recorded. It is the first to
    /// come back from `acquire`.
    pub fn stash(&mut self, item: T)
        ensures
            final(self).stashed() == old(self).stashed().push(item),
            final(self).in_flight() == old(self).in_flight(),
            final(self).pending() == old(self).pending(),
            final(self).bounded() == old(self).bounded(),
    {
        self.in_record.push(item);
    }

    /// Hands in an object for the next submission. It is not stamped before
    /// the next commit.
    pub fn release(&mut self, item: T)
        ensures
            final(self).pending() == old(self).pending().push(item),
            final(self).in_flight() == old(self).in_flight(),
            final(self).stashed() == old(self).stashed(),
            final(self).bounded() == old(self).bounded(),
    {
        self.pending.push(item);
    }

    /// Stamps the objects that were released since the last commit with the
    /// sync point `stamp` of their submission and queues them behind the
    /// objects in flight, in the order of their release. Returns the number
    /// of objects that went in flight.
    pub fn commit(&mut self, stamp: SyncPoint) -> (count: usize)
        ensures
            count == old(self).pending().len(),
            final(self).pending() == Seq::<T>::empty(),
            final(self).in_flight() == old(self).in_flight() + stamped(old(self).pending(), stamp),
            final(self).stashed() == old(self).stashed(),
            final(self).bounded() == old(self).bounded(),
            in_submission_order(old(self).in_flight()) && (old(self).in_flight().len() > 0 ==> old(
                self,
            ).in_flight().last().stamp <= stamp) ==> in_submission_order(final(self).in_flight()),
    {
        let mut batch: Vec<T> = Vec::new();
        std::mem::swap(&mut batch, &mut self.pending);
        let count = batch.len();
        let ghost items = batch@;
        let ghost before = self.in_flight@;
        for item in it: batch
            invariant
                it.seq() == items,
                self.in_flight@ == before + stamped(items.take(it.index() as int), stamp),
                self.pending@ == Seq::<T>::empty(),
                self.in_record@ == old(self).in_record@,
                self.capacity == old(self).capacity,
        {
            self.in_flight.push_back(InFlight { item, stamp });
        }
        count
    }

    /// Looking at the oldest object is enough: where the objects wait in the
    /// order of their submission and the device is not done with the oldest
    /// one, it is done with none of them.
    pub proof fn lemma_oldest_decides(self, completed: SyncPoint)
        requires
            in_submission_order(self.in_flight()),
            self.in_flight().len() > 0,
            self.in_flight()[0].stamp > completed,
        ensures
            forall|i: int|
                0 <= i < self.in_flight().len() ==> (#[trigger] self.in_flight()[i]).stamp
                    > completed,
    {
    }
}

/// A queue of command buffers on a [`LocalFence`]: buffers that were
/// committed come back for reuse once the fence has passed the sync point
/// of their submission.
#[derive(Debug)]
pub struct CommandQueue<T> {
    cmd_buffers: RecyclingQueue<T>,
    fence: LocalFence,
}

impl<T> CommandQueue<T> {
    /// The buffers of the queue.
    pub closed spec fn buffers(&self) -> RecyclingQueue<T> {
        self.cmd_buffers
    }

    /// The fence of the queue.
    pub closed spec fn fence(&self) -> LocalFence {
        self.fence
    }

    /// An empty queue at sync point 0; with a `capacity` it is bounded.
    pub fn new(capacity: Option<usize>) -> (r: Self)
        ensures
            r.buffers().in_flight() == Seq::<InFlight<T>>::empty(),
            r.buffers().stashed() == Seq::<T>::empty(),
            r.buffers().pending() == Seq::<T>::empty(),
            r.buffers().bounded() == (capacity is Some),
            r.fence().value() == 0,
    {
        Self { cmd_buffers: RecyclingQueue::new(capacity), fence: LocalFence::new() }
    }

    /// `true` where `create_command_buffer` has something to draw on.
    pub fn can_create_command_buffer(&self) -> (r: bool)
        ensures
            r == self.buffers().can_acquire(),
    {
        self.cmd_buffers.is_acquirable()
    }

    /// A command buffer for reuse, or `None` where the caller makes a new
    /// one. A buffer that the fence has not passed yet is waited for before
    /// it is handed out.
    pub fn create_command_buffer(&mut self) -> (r: Option<T>)
        requires
            old(self).buffers().can_acquire(),
        ensures
            final(self).buffers().bounded() == old(self).buffers().bounded(),
            final(self).buffers().pending() == old(self).buffers().pending(),
            final(self).buffers().stashed() == old(self).buffers().stashed_after_acquire(),
            final(self).buffers().in_flight() == old(self).buffers().in_flight_after_acquire(
                old(self).fence().value(),
            ),
            match old(self).buffers().acquire_result(old(self).fence().value()) {
                Acquired::Ready(buffer) => {
                    &&& r == Some(buffer)
                    &&& final(self).fence().value() == old(self).fence().value()
                },
                Acquired::MustWait(buffer, stamp) => {
                    &&& r == Some(buffer)
                    &&& final(self).fence().value() == stamp
                },
                Acquired::Fresh => {
                    &&& r is None
                    &&& final(self).fence().value() == old(self).fence().value()
                },
            },
    {
        let completed = self.fence.get_completed_value();
        match self.cmd_buffers.acquire(completed) {
            Acquired::Ready(buffer) => Some(buffer),
            Acquired::MustWait(buffer, stamp) => {
                self.fence.wait(stamp);
                Some(buffer)
            },
            Acquired::Fresh => None,
        }
    }

    /// Puts aside a buffer that is still being recorded.
    pub fn stash_cmd_buffer(&mut self, cmd_buffer: T)
        ensures
            final(self).buffers().stashed() == old(self).buffers().stashed().push(cmd_buffer),
            final(self).buffers().in_flight() == old(self).buffers().in_flight(),
            final(self).buffers().pending() == old(self).buffers().pending(),
            final(self).buffers().bounded() == old(self).buffers().bounded(),
            final(self).fence() == old(self).fence(),
    {
        self.cmd_buffers.stash(cmd_buffer);
    }

    /// Hands in a recorded buffer for the next commit.
    pub fn push_cmd_buffer(&mut self, cmd_buffer: T)
        ensures
            final(self).buffers().pending() == old(self).buffers().pending().push(cmd_buffer),
            final(self).buffers().in_flight() == old(self).buffers().in_flight(),
            final(self).buffers().stashed() == old(self).buffers().stashed(),
            final(self).buffers().bounded() == old(self).buffers().bounded(),
            final(self).fence() == old(self).fence(),
    {
        self.cmd_buffers.release(cmd_buffer);
    }

    /// Submits the buffers that were handed in: moves the fence to the next
    /// sync point, stamps the buffers with it and returns it. The fence has
    /// passed that sync point at once. The first commit of a new queue
    /// returns 1.
    pub fn commit(&mut self) -> (r: SyncPoint)
        requires
            old(self).fence().value() < u64::MAX,
        ensures
            r == old(self).fence().value() + 1,
            final(self).fence().value() == r,
            final(self).buffers().pending() == Seq::<T>::empty(),
            final(self).buffers().in_flight() == old(self).buffers().in_flight() + stamped(
                old(self).buffers().pending(),
                r,
            ),
            final(self).buffers().stashed() == old(self).buffers().stashed(),
            final(self).buffers().bounded() == old(self).buffers().bounded(),
    {
        let fence_value = self.fence.inc_value();
        self.cmd_buffers.commit(fence_value);
        fence_value
    }

    /// Completes the work up to `value`.
    pub fn wait_cpu(&mut self, value: SyncPoint)
        ensures
            final(self).buffers() == old(self).buffers(),
            final(self).fence().value() == if old(self).fence().value() < value {
                value
            } else {
                old(self).fence().value()
            },
    {
        self.fence.wait(value);
    }

    /// `true` where the fence has passed `value`.
    pub fn is_complete(&self, value: SyncPoint) -> (r: bool)
        ensures
            r == (self.fence().value() >= value),
    {
        self.fence.is_complete(value)
    }
}

} // verus!
