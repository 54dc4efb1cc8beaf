//! Worker pool dispatcher model: the admission decisions of a bounded pool.
//! A submitted task takes a free slot at once or waits; a finished task frees
//! its slot, which the longest-waiting task takes. In every reachable state
//! at most `capacity` tasks run at once.

use vstd::prelude::*;

verus! {

/// The scheduling state of a bounded worker pool.
#[derive(Debug, Clone, Copy)]
pub struct Dispatcher {
    /// Number of concurrent execution slots.
    pub capacity: usize,
    /// Tasks holding a slot right now.
    pub running: usize,
    /// Tasks admitted but waiting for a slot.
    pub queued: usize,
}

impl Dispatcher {
    /// The pool's invariant: it never runs more tasks than it has slots.
    pub open spec fn wf(self) -> bool {
        1 <= self.capacity && self.running <= self.capacity
    }

    /// A fresh pool with the given number of slots and no task.
    pub fn new(capacity: usize) -> (d: Dispatcher)
        requires
            capacity >= 1,
        ensures
            d.wf(),
            d.capacity == capacity,
            d.running == 0,
            d.queued == 0,
    {
        Dispatcher { capacity, running: 0, queued: 0 }
    }

    /// One task is submitted: it starts at once exactly when a slot is free,
    /// otherwise it waits. The slot bound is kept.
    pub fn submit(&mut self)
        requires
            old(self).wf(),
            old(self).queued < usize::MAX,
        ensures
            final(self).wf(),
            final(self).capacity == old(self).capacity,
            final(self).running + final(self).queued
                == old(self).running + old(self).queued + 1,
            old(self).running < old(self).capacity ==> {
                &&& final(self).running == old(self).running + 1
                &&& final(self).queued == old(self).queued
            },
            old(self).running == old(self).capacity ==> {
                &&& final(self).running == old(self).running
                &&& final(self).queued == old(self).queued + 1
            },
    {
        if self.running < self.capacity {
            self.running = self.running + 1;
        } else {
            self.queued = self.queued + 1;
        }
    }

    /// One running task finishes: its slot frees up and, if any task waits,
    /// the next one takes the slot at once. The slot bound is kept.
    pub fn task_finished(&mut self)
        requires
            old(self).wf(),
            old(self).running >= 1,
        ensures
            final(self).wf(),
            final(self).capacity == old(self).capacity,
            final(self).running + final(self).queued
                == old(self).running + old(self).queued - 1,
            old(self).queued > 0 ==> {
                &&& final(self).running == old(self).running
                &&& final(self).queued == old(self).queued - 1
            },
            old(self).queued == 0 ==> {
                &&& final(self).running == old(self).running - 1
                &&& final(self).queued == old(self).queued
            },
    {
        self.running = self.running - 1;
        if self.queued > 0 {
            self.queued = self.queued - 1;
            self.running = self.running + 1;
        }
    }

    /// Whether every scheduled task has completed: the join point of a run.
    pub fn idle(&self) -> (r: bool)
        ensures
            r == (self.running == 0 && self.queued == 0),
    {
        self.running == 0 && self.queued == 0
    }
}

} // verus!
