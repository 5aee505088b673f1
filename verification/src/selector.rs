//! Picking the next unit of work.
//!
//! Each iteration of the event loop first asks whether the job queue's
//! earliest entry is already due; scheduled work then has strict priority
//! over new I/O events, so follow-on work is never starved.  Only when
//! nothing is due does the runtime fall back to waiting on the event
//! sources and on the earliest deadline.

use vstd::prelude::*;

use crate::context::Context;
use crate::job::Job;
use crate::schedule_queue::is_first_min;

verus! {

/// Returns the earliest scheduled job iff one is due at `now`; among equal
/// deadlines, the one enqueued first.  Due jobs are never starved: whenever
/// the queue holds an entry with `deadline <= now`, this returns one.  When
/// it returns `None`, nothing is due and the runtime awaits the event
/// sources instead.
pub fn select_job(context: &mut Context, now: u64) -> (r: Option<Job>)
    ensures
        ({
            let q = old(context).schedule_queue@;
            let fq = final(context).schedule_queue@;
            match r {
                Some(j) => exists|i: int|
                    is_first_min(q, i) && q[i].deadline <= now && j@ == q[i].job && fq == q.remove(
                        i,
                    ),
                None => (forall|i: int| 0 <= i < q.len() ==> q[i].deadline > now) && fq == q,
            }
        }),
        final(context).waitings@ == old(context).waitings@,
        final(context).tcp_streams@ == old(context).tcp_streams@,
        final(context).udp_addrs == old(context).udp_addrs,
{
    if context.schedule_queue.is_first_urgent(now) {
        match context.schedule_queue.pop_earliest() {
            Some(s) => Some(s.job),
            None => vstd::pervasive::unreached(),
        }
    } else {
        None
    }
}

} // verus!
