//! Scheduled work.
//!
//! A schedule pairs a job with an absolute deadline on the runtime's
//! monotonic clock, carried as a tick count.  Immediate work is scheduled
//! at the current instant.

use vstd::prelude::*;

use crate::job::{Job, JobView};

verus! {

/// A job with the instant it falls due.
#[derive(Debug)]
pub struct Schedule {
    pub job: Job,
    pub deadline: u64,
}

/// The mathematical shape of a scheduled job.
pub struct ScheduleView {
    pub job: JobView,
    pub deadline: u64,
}

impl View for Schedule {
    type V = ScheduleView;

    open spec fn view(&self) -> ScheduleView {
        ScheduleView { job: self.job@, deadline: self.deadline }
    }
}

impl Schedule {
    /// Schedules a job for an absolute deadline.
    pub fn new(job: Job, deadline: u64) -> (r: Self)
        ensures
            r@.job == job@,
            r@.deadline == deadline,
    {
        Schedule { job, deadline }
    }

    /// Schedules a job for the current instant, making it due at once.
    pub fn instant(job: Job, now: u64) -> (r: Self)
        ensures
            r@.job == job@,
            r@.deadline == now,
    {
        Schedule::new(job, now)
    }
}

} // verus!
