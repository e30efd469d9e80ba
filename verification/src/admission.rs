//! Admission: fingerprint the submission, insert a fresh Pending row,
//! and on a fingerprint collision answer with the existing row's id, so
//! that retried submissions are idempotent.
use vstd::prelude::*;
use vstd::string::StringExecFns;

use crate::fingerprint::{fingerprint, fingerprint_v};
use crate::job::{duplicate_headers, HeaderEntry, HeaderV, Job, JobV, Status};
use crate::store::{fp_index, has_fp, has_id, lemma_fp_unique, rows_wf, Store};

verus! {

/// A client's submission: what `POST /jobs` carries, with the body and
/// every header value already rendered as canonical JSON text.
pub struct SubmitRequest {
    pub url: String,
    pub method: String,
    pub headers: Vec<HeaderEntry>,
    pub body_text: Option<String>,
    pub run_at: Option<i64>,
    pub cron: Option<String>,
}

/// Mathematical view of a submission.
pub struct SubmitRequestV {
    pub url: Seq<char>,
    pub method: Seq<char>,
    pub headers: Seq<HeaderV>,
    pub body_text: Option<Seq<char>>,
    pub run_at: Option<int>,
    pub cron: Option<Seq<char>>,
}

impl View for SubmitRequest {
    type V = SubmitRequestV;

    open spec fn view(&self) -> SubmitRequestV {
        SubmitRequestV {
            url: self.url@,
            method: self.method@,
            headers: self.headers@.map_values(|h: HeaderEntry| h@),
            body_text: match self.body_text {
                Option::Some(b) => Option::Some(b@),
                Option::None => Option::None,
            },
            run_at: match self.run_at {
                Option::Some(t) => Option::Some(t as int),
                Option::None => Option::None,
            },
            cron: match self.cron {
                Option::Some(c) => Option::Some(c@),
                Option::None => Option::None,
            },
        }
    }
}

/// The instant the submission is scheduled for: the client's, or now.
pub open spec fn effective_run_at(r: SubmitRequestV, now: int) -> int {
    match r.run_at {
        Option::Some(t) => t,
        Option::None => now,
    }
}

/// The fingerprint of a submission once its run time is fixed.
pub open spec fn request_fp(r: SubmitRequestV, run_at: int) -> Seq<char> {
    fingerprint_v(r.method, r.url, r.body_text, r.headers, Option::Some(run_at))
}

/// The fresh Pending row admission builds: zero counters, scheduled at
/// the effective run time, body defaulting to JSON null.
pub open spec fn new_job_v(r: SubmitRequestV, fp: Seq<char>, id: u128, now: int) -> JobV {
    JobV {
        id,
        unique_id: fp,
        url: r.url,
        method: r.method,
        headers: r.headers,
        body: match r.body_text {
            Option::Some(b) => b,
            Option::None => "null"@,
        },
        retries: 0,
        attempts: 0,
        status: Status::Pending,
        next_run_at: effective_run_at(r, now),
        cron: r.cron,
        check_in: Option::None,
        created_at: now,
        updated_at: now,
    }
}

/// What admission surfaces when it can neither insert nor find the
/// colliding row.
#[derive(Clone, Copy, Debug, PartialEq, Eq, Structural)]
pub enum AdmitError {
    Internal,
}

/// Take in a submission at `now`, giving a fresh row the id `new_id`.
///
/// If a row with the submission's fingerprint exists, its id is
/// returned and nothing changes. Otherwise the fresh row is inserted
/// and its id returned — unless `new_id` itself collides, which
/// surfaces as an internal error with nothing changed.
pub fn submit(store: &mut Store, req: &SubmitRequest, new_id: u128, now: i64) -> (r: Result<
    u128,
    AdmitError,
>)
    requires
        old(store).wf(),
    ensures
        final(store).wf(),
        ({
            let fp = request_fp(req@, effective_run_at(req@, now as int));
            &&& has_fp(old(store)@, fp) ==> r == Ok::<u128, AdmitError>(
                old(store)@[fp_index(old(store)@, fp)].id,
            ) && final(store)@ == old(store)@
            &&& !has_fp(old(store)@, fp) && !has_id(old(store)@, new_id) ==> r == Ok::<
                u128,
                AdmitError,
            >(new_id) && final(store)@ == old(store)@.push(
                new_job_v(req@, fp, new_id, now as int),
            )
            &&& !has_fp(old(store)@, fp) && has_id(old(store)@, new_id) ==> r == Err::<
                u128,
                AdmitError,
            >(AdmitError::Internal) && final(store)@ == old(store)@
        }),
{
    let run_at: i64 = match req.run_at {
        Option::Some(t) => t,
        Option::None => now,
    };
    let fp = fingerprint(
        req.method.as_str(),
        req.url.as_str(),
        &req.headers,
        req.body_text.as_ref(),
        Some(run_at),
    );
    let job = Job {
        id: new_id,
        unique_id: fp.clone(),
        url: req.url.clone(),
        method: req.method.clone(),
        headers: duplicate_headers(&req.headers),
        body: match &req.body_text {
            Option::Some(b) => b.clone(),
            Option::None => String::from_str("null"),
        },
        retries: 0,
        attempts: 0,
        status: Status::Pending,
        next_run_at: run_at,
        cron: match &req.cron {
            Option::Some(c) => Option::Some(c.clone()),
            Option::None => Option::None,
        },
        check_in: None,
        created_at: now,
        updated_at: now,
    };
    proof {
        assert(job@ =~= new_job_v(
            req@,
            request_fp(req@, effective_run_at(req@, now as int)),
            new_id,
            now as int,
        ));
    }
    match store.insert(job) {
        Result::Ok(()) => Ok(new_id),
        Result::Err(_) => {
            match store.find_by_fingerprint(fp.as_str()) {
                Option::Some(existing) => Ok(existing.id),
                Option::None => Err(AdmitError::Internal),
            }
        },
    }
}

/// Once a fingerprint's row is in the table, it is the one and only row
/// any later admission of that fingerprint resolves to: the freshly
/// inserted row is found again, with the id the first admission
/// returned.
pub proof fn lemma_admission_idempotent(rows: Seq<JobV>, j: JobV)
    requires
        rows_wf(rows),
        !has_fp(rows, j.unique_id),
    ensures
        has_fp(rows.push(j), j.unique_id),
        rows.push(j)[fp_index(rows.push(j), j.unique_id)].id == j.id,
{
    let rows2 = rows.push(j);
    assert(rows2[rows.len() as int] == j);
    assert(has_fp(rows2, j.unique_id));
    let w = fp_index(rows2, j.unique_id);
    assert(0 <= w < rows2.len() && rows2[w].unique_id == j.unique_id);
    if w < rows.len() {
        assert(rows2[w] == rows[w]);
        assert(has_fp(rows, j.unique_id));
        assert(false);
    }
    assert(rows2[w] == j);
}

/// Admissions of other fingerprints do not disturb the answer: a row
/// still resolves from its fingerprint, unchanged, after any insert of
/// a row with a different fingerprint. With the lemma above, the id a
/// submission is answered with does not depend on how admissions of
/// distinct submissions interleave.
pub proof fn lemma_admission_order_independent(rows: Seq<JobV>, fp: Seq<char>, j2: JobV)
    requires
        rows_wf(rows),
        has_fp(rows, fp),
        j2.unique_id != fp,
    ensures
        has_fp(rows.push(j2), fp),
        rows.push(j2)[fp_index(rows.push(j2), fp)] == rows[fp_index(rows, fp)],
{
    let w = fp_index(rows, fp);
    assert(0 <= w < rows.len() && rows[w].unique_id == fp);
    let rows2 = rows.push(j2);
    assert(rows2[w] == rows[w]);
    assert(has_fp(rows2, fp));
    let w2 = fp_index(rows2, fp);
    assert(0 <= w2 < rows2.len() && rows2[w2].unique_id == fp);
    if w2 == rows.len() {
        assert(rows2[w2] == j2);
        assert(false);
    }
    assert(rows2[w2] == rows[w2]);
    if w2 != w {
        lemma_fp_unique(rows, w2, w);
        assert(false);
    }
}

} // verus!
