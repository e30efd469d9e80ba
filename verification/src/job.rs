//! The persistent entity of the engine: a job, one row per submitted
//! HTTP call, together with its mathematical view.
use vstd::prelude::*;

verus! {

/// Lifecycle state of a job row.
#[derive(Clone, Copy, Debug, PartialEq, Eq, Structural)]
pub enum Status {
    Pending,
    Running,
    Success,
    Failure,
}

/// One header of a submitted request.
///
/// `text` is the value rendered as its JSON text (quoted if it is a
/// string); `str_value` holds the bare string for string-valued headers,
/// which are the only ones forwarded on the wire.
#[derive(Debug)]
pub struct HeaderEntry {
    pub name: String,
    pub text: String,
    pub str_value: Option<String>,
}

/// Mathematical view of a header.
#[verifier::ext_equal]
pub struct HeaderV {
    pub name: Seq<char>,
    pub text: Seq<char>,
    pub str_value: Option<Seq<char>>,
}

impl View for HeaderEntry {
    type V = HeaderV;

    open spec fn view(&self) -> HeaderV {
        HeaderV {
            name: self.name@,
            text: self.text@,
            str_value: match self.str_value {
                Option::Some(s) => Option::Some(s@),
                Option::None => Option::None,
            },
        }
    }
}

impl HeaderEntry {
    /// Field-for-field copy.
    pub fn duplicate(&self) -> (r: HeaderEntry)
        ensures
            r == *self,
    {
        HeaderEntry {
            name: self.name.clone(),
            text: self.text.clone(),
            str_value: match &self.str_value {
                Option::Some(s) => Option::Some(s.clone()),
                Option::None => Option::None,
            },
        }
    }
}

/// A job row.
///
/// Timestamps are milliseconds since the Unix epoch (UTC); `body` holds
/// the canonical JSON text of the stored body; `unique_id` is the
/// 64-character hex fingerprint that deduplicates admissions.
#[derive(Debug)]
pub struct Job {
    pub id: u128,
    pub unique_id: String,
    pub url: String,
    pub method: String,
    pub headers: Vec<HeaderEntry>,
    pub body: String,
    pub retries: i32,
    pub attempts: i32,
    pub status: Status,
    pub next_run_at: i64,
    pub cron: Option<String>,
    pub check_in: Option<i64>,
    pub created_at: i64,
    pub updated_at: i64,
}

/// Mathematical view of a job row.
#[verifier::ext_equal]
pub struct JobV {
    pub id: u128,
    pub unique_id: Seq<char>,
    pub url: Seq<char>,
    pub method: Seq<char>,
    pub headers: Seq<HeaderV>,
    pub body: Seq<char>,
    pub retries: int,
    pub attempts: int,
    pub status: Status,
    pub next_run_at: int,
    pub cron: Option<Seq<char>>,
    pub check_in: Option<int>,
    pub created_at: int,
    pub updated_at: int,
}

impl View for Job {
    type V = JobV;

    open spec fn view(&self) -> JobV {
        JobV {
            id: self.id,
            unique_id: self.unique_id@,
            url: self.url@,
            method: self.method@,
            headers: self.headers@.map_values(|h: HeaderEntry| h@),
            body: self.body@,
            retries: self.retries as int,
            attempts: self.attempts as int,
            status: self.status,
            next_run_at: self.next_run_at as int,
            cron: match self.cron {
                Option::Some(s) => Option::Some(s@),
                Option::None => Option::None,
            },
            check_in: match self.check_in {
                Option::Some(t) => Option::Some(t as int),
                Option::None => Option::None,
            },
            created_at: self.created_at as int,
            updated_at: self.updated_at as int,
        }
    }
}

/// Well-formedness of a single row: counters are non-negative and a
/// Running row always carries its lease timestamp.
pub open spec fn job_wf(j: JobV) -> bool {
    &&& 0 <= j.attempts <= i32::MAX
    &&& 0 <= j.retries <= i32::MAX
    &&& j.status is Running ==> j.check_in is Some
}

/// A row may be picked up exactly when it is Pending and its scheduled
/// time has passed.
pub open spec fn eligible(j: JobV, now: int) -> bool {
    j.status is Pending && j.next_run_at <= now
}

/// Entry-for-entry copy of a header list.
pub fn duplicate_headers(v: &Vec<HeaderEntry>) -> (r: Vec<HeaderEntry>)
    ensures
        r@ == v@,
{
    let mut hs: Vec<HeaderEntry> = Vec::new();
    let mut i: usize = 0;
    while i < v.len()
        invariant
            i <= v.len(),
            hs@.len() == i as int,
            forall|k: int| 0 <= k < i as int ==> hs@[k] == v@[k],
        decreases v.len() - i,
    {
        hs.push(v[i].duplicate());
        i = i + 1;
    }
    proof {
        assert(hs@ =~= v@);
    }
    hs
}

impl Job {
    /// Field-for-field copy; the copy has the same view as the original.
    pub fn duplicate(&self) -> (r: Job)
        ensures
            r@ == self@,
    {
        let hs = duplicate_headers(&self.headers);
        let r = Job {
            id: self.id,
            unique_id: self.unique_id.clone(),
            url: self.url.clone(),
            method: self.method.clone(),
            headers: hs,
            body: self.body.clone(),
            retries: self.retries,
            attempts: self.attempts,
            status: self.status,
            next_run_at: self.next_run_at,
            cron: match &self.cron {
                Option::Some(s) => Option::Some(s.clone()),
                Option::None => Option::None,
            },
            check_in: self.check_in,
            created_at: self.created_at,
            updated_at: self.updated_at,
        };
        proof {
            assert(r.headers@ =~= self.headers@);
            assert(r@ =~= self@);
        }
        r
    }
}

} // verus!
