//! The deadline job queue.
//!
//! Scheduled jobs are ordered by deadline, earliest first; jobs with equal
//! deadlines come out in insertion order, so the enqueues of one handler
//! stay contiguous.  The event loop asks whether the earliest entry is
//! already due (it then has strict priority over new events) and otherwise
//! sleeps until the earliest deadline.

use vstd::prelude::*;

use crate::schedule::{Schedule, ScheduleView};

verus! {

/// Entry `i` is the earliest entry of `q`: no entry has a smaller deadline
/// and every earlier-inserted entry has a strictly larger one.  At most one
/// entry of `q` satisfies this.
pub open spec fn is_first_min(q: Seq<ScheduleView>, i: int) -> bool {
    &&& 0 <= i < q.len()
    &&& forall|j: int| 0 <= j < q.len() ==> q[i].deadline <= #[trigger] q[j].deadline
    &&& forall|j: int| 0 <= j < i ==> q[i].deadline < #[trigger] q[j].deadline
}

/// The deadline-ordered job queue.
#[derive(Debug)]
pub struct ScheduleQueue {
    /// The scheduled jobs, in insertion order.
    pub entries: Vec<Schedule>,
}

impl View for ScheduleQueue {
    type V = Seq<ScheduleView>;

    open spec fn view(&self) -> Seq<ScheduleView> {
        Seq::new(self.entries@.len() as nat, |i: int| self.entries@[i]@)
    }
}

impl ScheduleQueue {
    /// An empty queue.
    pub fn new() -> (r: Self)
        ensures
            r@.len() == 0,
    {
        ScheduleQueue { entries: Vec::new() }
    }

    /// The number of scheduled jobs.
    pub fn len(&self) -> (r: usize)
        ensures
            r == self@.len(),
    {
        self.entries.len()
    }

    /// Enqueues a scheduled job.
    pub fn push(&mut self, s: Schedule)
        ensures
            final(self)@ == old(self)@.push(s@),
    {
        self.entries.push(s);
        proof {
            assert(self@ =~= old(self)@.push(s@));
        }
    }

    /// The earliest entry is already due: the queue is non-empty and its
    /// smallest deadline is at or before `now`.
    pub fn is_first_urgent(&self, now: u64) -> (r: bool)
        ensures
            r == exists|i: int| 0 <= i < self@.len() && self@[i].deadline <= now,
    {
        let mut i: usize = 0;
        while i < self.entries.len()
            invariant
                0 <= i <= self@.len(),
                forall|j: int| 0 <= j < i ==> self@[j].deadline > now,
            decreases self@.len() - i,
        {
            if self.entries[i].deadline <= now {
                proof {
                    assert(self@[i as int].deadline <= now);
                }
                return true;
            }
            i = i + 1;
        }
        false
    }

    /// The deadline the loop should sleep until: the smallest in the
    /// queue.  `None` iff the queue is empty; the loop then waits for I/O
    /// alone.
    pub fn earliest_deadline(&self) -> (r: Option<u64>)
        ensures
            match r {
                None => self@.len() == 0,
                Some(d) => exists|i: int| is_first_min(self@, i) && self@[i].deadline == d,
            },
    {
        if self.entries.len() == 0 {
            return None;
        }
        let best = self.first_min_index();
        Some(self.entries[best].deadline)
    }

    /// Removes and returns the earliest scheduled job; among equal
    /// deadlines, the one inserted first.  `None` iff the queue is empty.
    pub fn pop_earliest(&mut self) -> (r: Option<Schedule>)
        ensures
            match r {
                None => old(self)@.len() == 0 && final(self)@ == old(self)@,
                Some(s) => exists|i: int|
                    is_first_min(old(self)@, i) && s@ == old(self)@[i] && final(self)@ == old(
                        self,
                    )@.remove(i),
            },
    {
        if self.entries.len() == 0 {
            return None;
        }
        let best = self.first_min_index();
        let s = self.entries.remove(best);
        proof {
            assert(self@ =~= old(self)@.remove(best as int));
        }
        Some(s)
    }

    /// Finds the index of the earliest entry, keeping the first among
    /// equal deadlines.
    fn first_min_index(&self) -> (r: usize)
        requires
            self@.len() > 0,
        ensures
            is_first_min(self@, r as int),
    {
        let mut best: usize = 0;
        let mut i: usize = 1;
        while i < self.entries.len()
            invariant
                0 <= best < i <= self@.len(),
                forall|j: int| 0 <= j < i ==> self@[best as int].deadline <= #[trigger] self@[j].deadline,
                forall|j: int| 0 <= j < best ==> self@[best as int].deadline < #[trigger] self@[j].deadline,
            decreases self@.len() - i,
        {
            if self.entries[i].deadline < self.entries[best].deadline {
                best = i;
            }
            i = i + 1;
        }
        best
    }
}

} // verus!
