use vstd::prelude::*;

verus! {

/// A point in the order of submitted work: the count of submissions up to
/// and including it.
pub type SyncPoint = u64;

/// What a wait on a fence has to do.
#[derive(Clone, Copy, Debug, PartialEq, Eq, Structural)]
pub enum WaitPlan {
    /// The work was seen to be complete: there is nothing to wait for.
    Ready,
    /// The caller blocks until the device reports the sync point, or until
    /// the time allowed for that has run out.
    Block,
}

/// How a blocking wait on the device ended.
#[derive(Clone, Copy, Debug, PartialEq, Eq, Structural)]
pub enum WaitOutcome {
    /// The device reported the sync point.
    Signaled,
    /// The time allowed for the wait ran out.
    TimedOut,
}

/// The device did not report a sync point in the time allowed. The device is
/// taken to be lost; the wait is not tried again.
#[derive(Clone, Copy, Debug, PartialEq, Eq, Structural)]
pub struct DeviceLost {
    /// The sync point that was waited for.
    pub waited_for: SyncPoint,
}

/// Tracks the work that was submitted to a device and the work that the
/// device was seen to complete. `current` is the last sync point that was
/// signaled and `completed` the largest one that was observed complete.
#[derive(Debug)]
pub struct Fence {
    current: SyncPoint,
    completed: SyncPoint,
}

impl Fence {
    /// The last sync point that was signaled.
    pub closed spec fn current(&self) -> SyncPoint {
        self.current
    }

    /// The largest sync point that was seen to be complete.
    pub closed spec fn completed(&self) -> SyncPoint {
        self.completed
    }

    /// Nothing completes before it was signaled.
    pub open spec fn wf(&self) -> bool {
        self.completed() <= self.current()
    }

    /// A fence at sync point 0, with nothing signaled.
    pub fn new() -> (r: Self)
        ensures
            r.wf(),
            r.current() == 0,
            r.completed() == 0,
    {
        Self { current: 0, completed: 0 }
    }

    /// Signals the next sync point and returns it.
    pub fn inc_value(&mut self) -> (r: SyncPoint)
        requires
            old(self).wf(),
            old(self).current() < u64::MAX,
        ensures
            final(self).wf(),
            r == old(self).current() + 1,
            final(self).current() == r,
            final(self).completed() == old(self).completed(),
    {
        self.current = self.current + 1;
        self.current
    }

    /// The last sync point that was signaled.
    pub fn get_current_value(&self) -> (r: SyncPoint)
        ensures
            r == self.current(),
    {
        self.current
    }

    /// The largest sync point that was seen to be complete.
    pub fn get_completed_value(&self) -> (r: SyncPoint)
        ensures
            r == self.completed(),
    {
        self.completed
    }

    /// `true` where the work up to `value` was seen to be complete.
    pub fn is_complete(&self, value: SyncPoint) -> (r: bool)
        ensures
            r == (self.completed() >= value),
    {
        self.completed >= value
    }

    /// Takes note of the sync point that the device reports as complete.
    /// The fence never goes back, and it takes no note of a sync point that
    /// was not signaled.
    pub fn observe(&mut self, reported: SyncPoint)
        requires
            old(self).wf(),
        ensures
            final(self).wf(),
            final(self).current() == old(self).current(),
            final(self).completed() == if reported > old(self).current() {
                old(self).current()
            } else if reported > old(self).completed() {
                reported
            } else {
                old(self).completed()
            },
            final(self).completed() >= old(self).completed(),
    {
        let seen = if reported > self.current { self.current } else { reported };
        if seen > self.completed {
            self.completed = seen;
        }
    }

    /// What a wait for `value` has to do: nothing where the work up to
    /// `value` was seen to be complete, else block.
    pub fn plan_wait(&self, value: SyncPoint) -> (r: WaitPlan)
        ensures
            r == if self.completed() >= value {
                WaitPlan::Ready
            } else {
                WaitPlan::Block
            },
    {
        if self.completed >= value {
            WaitPlan::Ready
        } else {
            WaitPlan::Block
        }
    }

    /// Takes note of how a blocking wait for `value` ended. After a signal
    /// the work up to `value`, as far as it was submitted, counts as
    /// complete. A wait that ran out of time means that the device is lost.
    pub fn finish_wait(&mut self, value: SyncPoint, outcome: WaitOutcome) -> (r: Result<
        (),
        DeviceLost,
    >)
        requires
            old(self).wf(),
        ensures
            final(self).wf(),
            final(self).current() == old(self).current(),
            match outcome {
                WaitOutcome::Signaled => {
                    &&& r is Ok
                    &&& final(self).completed() == if value > old(self).current() {
                        old(self).current()
                    } else if value > old(self).completed() {
                        value
                    } else {
                        old(self).completed()
                    }
                    &&& value <= old(self).current() ==> final(self).completed() >= value
                },
                WaitOutcome::TimedOut => {
                    &&& r == Err::<(), DeviceLost>(DeviceLost { waited_for: value })
                    &&& final(self).completed() == old(self).completed()
                },
            },
    {
        match outcome {
            WaitOutcome::Signaled => {
                self.observe(value);
                Ok(())
            },
            WaitOutcome::TimedOut => Err(DeviceLost { waited_for: value }),
        }
    }
}

impl Fence {
    /// Waits until the work up to `value` is complete. Where it was seen to
    /// be complete, this returns `Ok(false)` at once. Else `block` is called
    /// with `value`, to block until the device reports the sync point or
    /// the time allowed has run out: after a signal this returns
    /// `Ok(true)`, and after a wait that ran out of time the device is lost.
    pub fn wait<F: FnOnce(SyncPoint) -> WaitOutcome>(&mut self, value: SyncPoint, block: F) -> (r:
        Result<bool, DeviceLost>)
        requires
            old(self).wf(),
            call_requires(block, (value,)),
        ensures
            final(self).wf(),
            final(self).current() == old(self).current(),
            final(self).completed() >= old(self).completed(),
            old(self).completed() >= value ==> {
                &&& r == Ok::<bool, DeviceLost>(false)
                &&& final(self).completed() == old(self).completed()
            },
            old(self).completed() < value ==> {
                &&& r is Ok ==> {
                    &&& r == Ok::<bool, DeviceLost>(true)
                    &&& call_ensures(block, (value,), WaitOutcome::Signaled)
                    &&& value <= old(self).current() ==> final(self).completed() == value
                    &&& value > old(self).current() ==> final(self).completed() == old(
                        self,
                    ).current()
                }
                &&& r is Err ==> {
                    &&& r == Err::<bool, DeviceLost>(DeviceLost { waited_for: value })
                    &&& call_ensures(block, (value,), WaitOutcome::TimedOut)
                    &&& final(self).completed() == old(self).completed()
                }
            },
    {
        match self.plan_wait(value) {
            WaitPlan::Ready => Ok(false),
            WaitPlan::Block => {
                let outcome = block(value);
                match self.finish_wait(value, outcome) {
                    Ok(()) => Ok(true),
                    Err(lost) => Err(lost),
                }
            },
        }
    }
}

/// A fence without a device behind it: the work up to a sync point is
/// complete as soon as somebody waits for it.
#[derive(Debug)]
pub struct LocalFence {
    value: SyncPoint,
}

impl LocalFence {
    /// The sync point up to which the work is complete.
    pub closed spec fn value(&self) -> SyncPoint {
        self.value
    }

    /// A fence at sync point 0.
    pub fn new() -> (r: Self)
        ensures
            r.value() == 0,
    {
        Self { value: 0 }
    }

    /// Completes the work up to `value`.
    pub fn wait(&mut self, value: SyncPoint)
        ensures
            final(self).value() == if old(self).value() < value {
                value
            } else {
                old(self).value()
            },
    {
        if self.value < value {
            self.value = value;
        }
    }

    /// `true` where the work up to `value` is complete.
    pub fn is_complete(&self, value: SyncPoint) -> (r: bool)
        ensures
            r == (self.value() >= value),
    {
        self.value >= value
    }

    /// The sync point up to which the work is complete.
    pub fn get_completed_value(&self) -> (r: SyncPoint)
        ensures
            r == self.value(),
    {
        self.value
    }

    /// Moves the fence to the next sync point and returns it: the work that
    /// is stamped with the result is complete at once. The sync points of
    /// successive calls go up by one, the first being 1.
    pub fn inc_value(&mut self) -> (r: SyncPoint)
        requires
            old(self).value() < u64::MAX,
        ensures
            r == old(self).value() + 1,
            final(self).value() == r,
    {
        self.value = self.value + 1;
        self.value
    }
}

} // verus!
