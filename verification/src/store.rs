//! The job repository: a strongly-consistent table of rows keyed by id
//! and by fingerprint, with the atomic claim and the staleness sweep
//! stated against its mathematical contents.
//!
//! A deployment keeps this table in a relational database; the
//! operations here are the reference semantics every replica of the
//! table must show: what `claim_next` selects and writes, when `insert`
//! refuses a duplicate, which row the sweeper picks.
use vstd::prelude::*;

use crate::job::{eligible, job_wf, Job, JobV};
use crate::monitor::stale_v;
use crate::order::text_eq;
use crate::worker::{claim_job, claimed_v};

verus! {

/// Errors a store operation can surface.
#[derive(Clone, Copy, Debug, PartialEq, Eq, Structural)]
pub enum StoreError {
    /// An insert collided with an existing row on a unique column.
    DuplicateFingerprint,
    /// An update addressed a row that is not there.
    NotFound,
}

/// Some row carries this fingerprint.
pub open spec fn has_fp(rows: Seq<JobV>, fp: Seq<char>) -> bool {
    exists|i: int| 0 <= i < rows.len() && (#[trigger] rows[i]).unique_id == fp
}

/// The index of the row carrying this fingerprint (unique in a
/// well-formed store).
pub open spec fn fp_index(rows: Seq<JobV>, fp: Seq<char>) -> int {
    choose|i: int| 0 <= i < rows.len() && (#[trigger] rows[i]).unique_id == fp
}

/// Some row carries this id.
pub open spec fn has_id(rows: Seq<JobV>, id: u128) -> bool {
    exists|i: int| 0 <= i < rows.len() && (#[trigger] rows[i]).id == id
}

/// The index of the row carrying this id (unique in a well-formed
/// store).
pub open spec fn id_index(rows: Seq<JobV>, id: u128) -> int {
    choose|i: int| 0 <= i < rows.len() && (#[trigger] rows[i]).id == id
}

/// Well-formedness of the table: every row is well formed, ids are
/// unique, and fingerprints are unique.
pub open spec fn rows_wf(rows: Seq<JobV>) -> bool {
    &&& forall|i: int| 0 <= i < rows.len() ==> job_wf(#[trigger] rows[i])
    &&& forall|i: int, k: int|
        0 <= i < rows.len() && 0 <= k < rows.len() && i != k ==> (#[trigger] rows[i]).id != (
        #[trigger] rows[k]).id
    &&& forall|i: int, k: int|
        0 <= i < rows.len() && 0 <= k < rows.len() && i != k ==> (#[trigger] rows[i]).unique_id != (
        #[trigger] rows[k]).unique_id
}

/// A row the queue-depth gauge counts: Pending and already past its
/// scheduled time.
pub open spec fn counted(j: JobV, now: int) -> bool {
    j.status is Pending && j.next_run_at < now
}

/// How many rows the gauge counts.
pub open spec fn count_eligible_v(rows: Seq<JobV>, now: int) -> int
    decreases rows.len(),
{
    if rows.len() == 0 {
        0
    } else {
        count_eligible_v(rows.drop_last(), now) + if counted(rows.last(), now) {
            1int
        } else {
            0int
        }
    }
}


/// In a well-formed table two distinct rows never share an id.
pub proof fn lemma_id_unique(rows: Seq<JobV>, a: int, b: int)
    requires
        rows_wf(rows),
        0 <= a < rows.len(),
        0 <= b < rows.len(),
        a != b,
    ensures
        rows[a].id != rows[b].id,
{
}

/// In a well-formed table two distinct rows never share a fingerprint.
pub proof fn lemma_fp_unique(rows: Seq<JobV>, a: int, b: int)
    requires
        rows_wf(rows),
        0 <= a < rows.len(),
        0 <= b < rows.len(),
        a != b,
    ensures
        rows[a].unique_id != rows[b].unique_id,
{
}

/// The job table.
pub struct Store {
    jobs: Vec<Job>,
}

impl View for Store {
    type V = Seq<JobV>;

    closed spec fn view(&self) -> Seq<JobV> {
        self.jobs@.map_values(|j: Job| j@)
    }
}

impl Store {
    /// Invariant of the table.
    pub open spec fn wf(&self) -> bool {
        rows_wf(self@)
    }

    /// An empty table.
    pub fn new() -> (r: Store)
        ensures
            r@ =~= Seq::<JobV>::empty(),
            r.wf(),
    {
        Store { jobs: Vec::new() }
    }

    /// How many rows the table holds.
    pub fn len(&self) -> (r: usize)
        ensures
            r == self@.len(),
    {
        self.jobs.len()
    }

    /// Insert a new row. Refused exactly when another row already
    /// carries the same fingerprint or the same id.
    pub fn insert(&mut self, job: Job) -> (r: Result<(), StoreError>)
        requires
            old(self).wf(),
            job_wf(job@),
        ensures
            final(self).wf(),
            (r is Ok) == (!has_fp(old(self)@, job@.unique_id) && !has_id(old(self)@, job@.id)),
            r is Ok ==> final(self)@ == old(self)@.push(job@),
            r is Err ==> final(self)@ == old(self)@ && r == Err::<(), StoreError>(
                StoreError::DuplicateFingerprint,
            ),
    {
        let mut i: usize = 0;
        while i < self.jobs.len()
            invariant
                self.wf(),
                i <= self.jobs.len(),
                self == old(self),
                forall|k: int|
                    0 <= k < i as int ==> (#[trigger] self@[k]).unique_id != job@.unique_id
                        && self@[k].id != job@.id,
            decreases self.jobs.len() - i,
        {
            if text_eq(self.jobs[i].unique_id.as_str(), job.unique_id.as_str()) {
                proof {
                    assert(self@[i as int] == self.jobs@[i as int]@);
                    assert(self@[i as int].unique_id == job@.unique_id);
                    assert(has_fp(self@, job@.unique_id));
                }
                return Err(StoreError::DuplicateFingerprint);
            }
            if self.jobs[i].id == job.id {
                proof {
                    assert(self@[i as int] == self.jobs@[i as int]@);
                    assert(self@[i as int].id == job@.id);
                    assert(has_id(self@, job@.id));
                }
                return Err(StoreError::DuplicateFingerprint);
            }
            i = i + 1;
        }
        let ghost oldrows = self@;
        self.jobs.push(job);
        proof {
            assert(self@ =~= oldrows.push(job@));
        }
        Ok(())
    }

    /// The row carrying this fingerprint, if any.
    pub fn find_by_fingerprint(&self, fp: &str) -> (r: Option<Job>)
        requires
            self.wf(),
        ensures
            (r is Some) == has_fp(self@, fp@),
            r matches Some(j) ==> {
                &&& j@ == self@[fp_index(self@, fp@)]
                &&& 0 <= fp_index(self@, fp@) < self@.len()
                &&& j@.unique_id == fp@
            },
    {
        let mut i: usize = 0;
        while i < self.jobs.len()
            invariant
                self.wf(),
                i <= self.jobs.len(),
                forall|k: int| 0 <= k < i as int ==> (#[trigger] self@[k]).unique_id != fp@,
            decreases self.jobs.len() - i,
        {
            if text_eq(self.jobs[i].unique_id.as_str(), fp) {
                let found = self.jobs[i].duplicate();
                proof {
                    assert(self@[i as int] == self.jobs@[i as int]@);
                    assert(self@[i as int].unique_id == fp@);
                    assert(has_fp(self@, fp@));
                    let w = fp_index(self@, fp@);
                    assert(0 <= w < self@.len() && self@[w].unique_id == fp@);
                    if w != i as int {
                        lemma_fp_unique(self@, w, i as int);
                    }
                    assert(w == i as int);
                }
                return Some(found);
            }
            i = i + 1;
        }
        None
    }

    /// The row carrying this id, if any.
    pub fn find_by_id(&self, id: u128) -> (r: Option<Job>)
        requires
            self.wf(),
        ensures
            (r is Some) == has_id(self@, id),
            r matches Some(j) ==> {
                &&& j@ == self@[id_index(self@, id)]
                &&& 0 <= id_index(self@, id) < self@.len()
                &&& j@.id == id
            },
    {
        let mut i: usize = 0;
        while i < self.jobs.len()
            invariant
                self.wf(),
                i <= self.jobs.len(),
                forall|k: int| 0 <= k < i as int ==> (#[trigger] self@[k]).id != id,
            decreases self.jobs.len() - i,
        {
            if self.jobs[i].id == id {
                let found = self.jobs[i].duplicate();
                proof {
                    assert(self@[i as int] == self.jobs@[i as int]@);
                    assert(self@[i as int].id == id);
                    assert(has_id(self@, id));
                    let w = id_index(self@, id);
                    assert(0 <= w < self@.len() && self@[w].id == id);
                    if w != i as int {
                        lemma_id_unique(self@, w, i as int);
                    }
                    assert(w == i as int);
                }
                return Some(found);
            }
            i = i + 1;
        }
        None
    }

    /// The atomic claim: pick the earliest-created eligible row, turn it
    /// Running with the pickup counted and the lease opened, and hand it
    /// back. Returns None exactly when no row is eligible.
    pub fn claim_next(&mut self, now: i64) -> (r: Option<Job>)
        requires
            old(self).wf(),
        ensures
            final(self).wf(),
            r is None ==> final(self)@ == old(self)@ && (forall|k: int|
                0 <= k < old(self)@.len() ==> !eligible(#[trigger] old(self)@[k], now as int)),
            r matches Some(j) ==> exists|i: int|
                #![auto]
                {
                    &&& 0 <= i < old(self)@.len()
                    &&& eligible(old(self)@[i], now as int)
                    &&& forall|k: int|
                        0 <= k < old(self)@.len() && eligible(#[trigger] old(self)@[k], now as int)
                            ==> old(self)@[i].created_at <= old(self)@[k].created_at
                    &&& j@ == claimed_v(old(self)@[i], now as int)
                    &&& final(self)@ == old(self)@.update(i, j@)
                },
    {
        let mut best: usize = 0;
        let mut found: bool = false;
        let mut i: usize = 0;
        while i < self.jobs.len()
            invariant
                i <= self.jobs.len(),
                self == old(self),
                found ==> {
                    &&& (best as int) < i as int
                    &&& eligible(self@[best as int], now as int)
                    &&& forall|k: int|
                        0 <= k < i as int && eligible(#[trigger] self@[k], now as int)
                            ==> self@[best as int].created_at <= self@[k].created_at
                },
                !found ==> forall|k: int|
                    0 <= k < i as int ==> !eligible(#[trigger] self@[k], now as int),
            decreases self.jobs.len() - i,
        {
            let is_eligible = self.jobs[i].status == crate::job::Status::Pending
                && self.jobs[i].next_run_at <= now;
            if is_eligible {
                if !found {
                    best = i;
                    found = true;
                } else if self.jobs[i].created_at < self.jobs[best].created_at {
                    best = i;
                }
            }
            i = i + 1;
        }
        if !found {
            return None;
        }
        let updated = claim_job(&self.jobs[best], now);
        let ret = updated.duplicate();
        let ghost oldrows = self@;
        self.jobs[best] = updated;
        proof {
            assert(self@ =~= oldrows.update(best as int, ret@));
            assert forall|a: int, b: int|
                0 <= a < self@.len() && 0 <= b < self@.len() && a != b implies (
            #[trigger] self@[a]).id != (#[trigger] self@[b]).id && self@[a].unique_id
                != self@[b].unique_id by {
                assert(oldrows[a].id != oldrows[b].id && oldrows[a].unique_id
                    != oldrows[b].unique_id);
            }
        }
        Some(ret)
    }

    /// Write a row back by id, replacing every column but the immutable
    /// fingerprint, which the caller must hand back unchanged (the
    /// database guards it with a trigger). Last writer wins.
    pub fn update(&mut self, job: Job) -> (r: Result<(), StoreError>)
        requires
            old(self).wf(),
            job_wf(job@),
            has_id(old(self)@, job@.id) ==> old(self)@[id_index(old(self)@, job@.id)].unique_id
                == job@.unique_id,
        ensures
            final(self).wf(),
            (r is Ok) == has_id(old(self)@, job@.id),
            r is Ok ==> final(self)@ == old(self)@.update(id_index(old(self)@, job@.id), job@),
            r is Err ==> final(self)@ == old(self)@ && r == Err::<(), StoreError>(StoreError::NotFound),
    {
        let mut i: usize = 0;
        while i < self.jobs.len()
            invariant
                self.wf(),
                job_wf(job@),
                has_id(self@, job@.id) ==> self@[id_index(self@, job@.id)].unique_id
                    == job@.unique_id,
                i <= self.jobs.len(),
                self == old(self),
                forall|k: int| 0 <= k < i as int ==> (#[trigger] self@[k]).id != job@.id,
            decreases self.jobs.len() - i,
        {
            if self.jobs[i].id == job.id {
                proof {
                    assert(self@[i as int] == self.jobs@[i as int]@);
                    assert(self@[i as int].id == job@.id);
                    assert(has_id(self@, job@.id));
                    let w = id_index(self@, job@.id);
                    assert(0 <= w < self@.len() && self@[w].id == job@.id);
                    if w != i as int {
                        lemma_id_unique(self@, w, i as int);
                    }
                    assert(w == i as int);
                }
                let ghost oldrows = self@;
                self.jobs[i] = job;
                proof {
                    assert(self@ =~= oldrows.update(i as int, job@));
                    assert forall|a: int, b: int|
                        0 <= a < self@.len() && 0 <= b < self@.len() && a != b implies (
                    #[trigger] self@[a]).id != (#[trigger] self@[b]).id && self@[a].unique_id
                        != self@[b].unique_id by {
                        assert(oldrows[a].id != oldrows[b].id && oldrows[a].unique_id
                            != oldrows[b].unique_id);
                    }
                }
                return Ok(());
            }
            i = i + 1;
        }
        Err(StoreError::NotFound)
    }

    /// The stale Running row with the earliest update time, if any: the
    /// one the monitor rescues next.
    #[verifier::rlimit(50)]
    pub fn find_stale_running(&self, cutoff: i64) -> (r: Option<Job>)
        requires
            self.wf(),
        ensures
            r is None ==> forall|k: int|
                0 <= k < self@.len() ==> !stale_v(#[trigger] self@[k], cutoff as int),
            r matches Some(j) ==> exists|i: int|
                #![auto]
                {
                    &&& 0 <= i < self@.len()
                    &&& stale_v(self@[i], cutoff as int)
                    &&& forall|k: int|
                        0 <= k < self@.len() && stale_v(#[trigger] self@[k], cutoff as int)
                            ==> self@[i].updated_at <= self@[k].updated_at
                    &&& j@ == self@[i]
                },
    {
        let mut best: usize = 0;
        let mut found: bool = false;
        let mut i: usize = 0;
        while i < self.jobs.len()
            invariant
                i <= self.jobs.len(),
                found ==> {
                    &&& (best as int) < i as int
                    &&& stale_v(self@[best as int], cutoff as int)
                    &&& forall|k: int|
                        0 <= k < i as int && stale_v(#[trigger] self@[k], cutoff as int)
                            ==> self@[best as int].updated_at <= self@[k].updated_at
                },
                !found ==> forall|k: int|
                    0 <= k < i as int ==> !stale_v(#[trigger] self@[k], cutoff as int),
            decreases self.jobs.len() - i,
        {
            if crate::monitor::is_stale(&self.jobs[i], cutoff) {
                if !found {
                    best = i;
                    found = true;
                } else if self.jobs[i].updated_at < self.jobs[best].updated_at {
                    best = i;
                }
            }
            i = i + 1;
        }
        if !found {
            return None;
        }
        Some(self.jobs[best].duplicate())
    }

    /// The queue-depth sample: how many Pending rows are already past
    /// their scheduled time.
    pub fn count_eligible(&self, now: i64) -> (r: u64)
        ensures
            r == count_eligible_v(self@, now as int),
    {
        let mut acc: u64 = 0;
        let mut i: usize = 0;
        proof {
            assert(self@.take(0).len() == 0);
        }
        while i < self.jobs.len()
            invariant
                i <= self.jobs.len(),
                acc as int == count_eligible_v(self@.take(i as int), now as int),
                acc as int <= i as int,
            decreases self.jobs.len() - i,
        {
            let c = self.jobs[i].status == crate::job::Status::Pending && self.jobs[i].next_run_at
                < now;
            proof {
                assert(self@.take(i as int + 1).drop_last() =~= self@.take(i as int));
                assert(self@.take(i as int + 1).last() == self@[i as int]);
            }
            if c {
                acc = acc + 1;
            }
            i = i + 1;
        }
        proof {
            assert(self@.take(self@.len() as int) =~= self@);
        }
        acc
    }
}

/// A claim takes the row out of circulation: the claimed row is Running
/// afterwards, so a further claim — by this or any other worker reading
/// the same table — can only return a different row. Together with the
/// row lock this is the at-most-one-claimant guarantee.
pub proof fn lemma_claim_exclusive(rows: Seq<JobV>, i: int, now: int, k: int, now2: int)
    requires
        rows_wf(rows),
        0 <= i < rows.len(),
        eligible(rows[i], now),
        0 <= k < rows.len(),
        eligible(rows.update(i, claimed_v(rows[i], now))[k], now2),
    ensures
        k != i,
        rows.update(i, claimed_v(rows[i], now))[k].id != rows[i].id,
{
    assert(rows.update(i, claimed_v(rows[i], now))[i].status is Running);
    assert(rows.update(i, claimed_v(rows[i], now))[k] == rows[k]);
    if k < i {
        assert(rows[k].id != rows[i].id);
    } else {
        assert(rows[i].id != rows[k].id);
    }
}

/// Failure is absorbing under the claim: a claim selects an eligible —
/// hence Pending — row, and leaves every Failure row exactly as it was.
pub proof fn lemma_failure_absorbed_by_claim(rows: Seq<JobV>, i: int, now: int, m: int)
    requires
        0 <= i < rows.len(),
        eligible(rows[i], now),
        0 <= m < rows.len(),
        rows[m].status is Failure,
    ensures
        rows.update(i, claimed_v(rows[i], now))[m] == rows[m],
{
}

/// Failure is absorbing under the monitor: the sweeper selects a stale —
/// hence Running — row, and leaves every Failure row exactly as it was.
pub proof fn lemma_failure_absorbed_by_monitor(
    rows: Seq<JobV>,
    i: int,
    cutoff: int,
    now: int,
    m: int,
)
    requires
        0 <= i < rows.len(),
        stale_v(rows[i], cutoff),
        0 <= m < rows.len(),
        rows[m].status is Failure,
    ensures
        rows.update(i, crate::monitor::monitor_requeued_v(rows[i], now))[m] == rows[m],
{
}

} // verus!
