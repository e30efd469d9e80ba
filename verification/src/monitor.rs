//! The lease/liveness sweeper: spotting Running rows whose worker has
//! gone quiet and returning them to the queue.
use vstd::prelude::*;

use crate::job::{Job, JobV, Status};
use crate::{valid_time, LEASE_MS};

verus! {

/// A Running row is stale once its lease timestamp — or, if it never
/// checked in, its last update — is at or before the cutoff.
pub open spec fn stale_v(j: JobV, cutoff: int) -> bool {
    &&& j.status is Running
    &&& match j.check_in {
        Option::Some(t) => t <= cutoff,
        Option::None => j.updated_at <= cutoff,
    }
}

/// The staleness cutoff: one lease length into the past.
pub fn stale_cutoff(now: i64) -> (r: i64)
    requires
        valid_time(now as int),
    ensures
        r == now - LEASE_MS,
{
    now - LEASE_MS
}

/// Whether the monitor would requeue this row at this cutoff.
pub fn is_stale(job: &Job, cutoff: i64) -> (r: bool)
    ensures
        r == stale_v(job@, cutoff as int),
{
    if !(job.status == Status::Running) {
        return false;
    }
    match job.check_in {
        Option::Some(t) => t <= cutoff,
        Option::None => job.updated_at <= cutoff,
    }
}

/// A rescued row goes back to Pending with a fresh lease timestamp; the
/// refreshed check-in keeps the sweeper from hot-looping on one row.
pub open spec fn monitor_requeued_v(j: JobV, now: int) -> JobV {
    JobV { status: Status::Pending, check_in: Option::Some(now), ..j }
}

/// The row as the monitor writes it back.
pub fn monitor_requeue_job(job: &Job, now: i64) -> (r: Job)
    ensures
        r@ == monitor_requeued_v(job@, now as int),
{
    let mut r = job.duplicate();
    r.status = Status::Pending;
    r.check_in = Some(now);
    proof {
        assert(r@ =~= monitor_requeued_v(job@, now as int));
    }
    r
}

} // verus!
