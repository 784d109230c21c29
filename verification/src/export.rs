//! Export jobs: a job record for each requested export, its progress, its expiry after a
//! day, and whether its file may be downloaded. The registry is kept behind the caller's
//! lock, and the export files are written by the caller.
use vstd::prelude::*;
use crate::api::{ExportFormat, ExportJobRequest};
use crate::calendar::{parse_rfc3339, rfc3339_text, spec_parse_rfc3339, spec_rfc3339_text, spec_utc_compact_text, utc_compact_text};
use crate::control::{text_less, text_lt};
use crate::event::{clone_opt, ov, Timestamp};
use crate::hybrid::before;
use crate::text::{concat, decimal_chars, owned, str_eq, u64_to_string};

verus! {

/// How long an export job and its file are kept, in seconds.
pub const EXPORT_TTL_SECONDS: i64 = 86_400;

/// An export job and its progress.
#[derive(Debug, Clone)]
pub struct ExportJob {
    pub job_id: String,
    pub status: String,
    pub scope: String,
    pub format: ExportFormat,
    pub file_name: String,
    pub download_url: String,
    pub rows: usize,
    pub file_bytes: u64,
    pub error: Option<String>,
    pub created_at: String,
    pub updated_at: String,
    pub expires_at: String,
}

pub struct ExportJobView {
    pub job_id: Seq<char>,
    pub status: Seq<char>,
    pub scope: Seq<char>,
    pub format: ExportFormat,
    pub file_name: Seq<char>,
    pub download_url: Seq<char>,
    pub rows: usize,
    pub file_bytes: u64,
    pub error: Option<Seq<char>>,
    pub created_at: Seq<char>,
    pub updated_at: Seq<char>,
    pub expires_at: Seq<char>,
}

impl View for ExportJob {
    type V = ExportJobView;

    open spec fn view(&self) -> ExportJobView {
        ExportJobView {
            job_id: self.job_id@,
            status: self.status@,
            scope: self.scope@,
            format: self.format,
            file_name: self.file_name@,
            download_url: self.download_url@,
            rows: self.rows,
            file_bytes: self.file_bytes,
            error: ov(self.error),
            created_at: self.created_at@,
            updated_at: self.updated_at@,
            expires_at: self.expires_at@,
        }
    }
}

pub open spec fn job_views(v: Seq<ExportJob>) -> Seq<ExportJobView> {
    v.map_values(|j: ExportJob| j@)
}

fn job_copy(j: &ExportJob) -> (r: ExportJob)
    ensures
        r@ == j@,
{
    ExportJob {
        job_id: j.job_id.clone(),
        status: j.status.clone(),
        scope: j.scope.clone(),
        format: j.format,
        file_name: j.file_name.clone(),
        download_url: j.download_url.clone(),
        rows: j.rows,
        file_bytes: j.file_bytes,
        error: clone_opt(&j.error),
        created_at: j.created_at.clone(),
        updated_at: j.updated_at.clone(),
        expires_at: j.expires_at.clone(),
    }
}

/// The job of an export requested at `now` as the `sequence`-th export: queued, named
/// `export-<time>-<sequence>` with the format's extension, expiring a day later.
pub open spec fn spec_new_export_job(input: ExportJobRequest, now: Timestamp, sequence: u64) -> Option<ExportJobView> {
    match (
        spec_utc_compact_text(now.secs, now.nanos),
        spec_rfc3339_text(now.secs, now.nanos),
        spec_rfc3339_text((now.secs + EXPORT_TTL_SECONDS) as i64, now.nanos),
    ) {
        (Some(compact), Some(created), Some(expires)) => {
            let id = "export-"@ + compact + "-"@ + decimal_chars(sequence as nat);
            Some(
                ExportJobView {
                    job_id: id,
                    status: "queued"@,
                    scope: input.scope@,
                    format: input.format,
                    file_name: id + "."@ + input.format.spec_extension(),
                    download_url: "/api/export/jobs/"@ + id + "/download"@,
                    rows: 0,
                    file_bytes: 0,
                    error: None,
                    created_at: created,
                    updated_at: created,
                    expires_at: expires,
                },
            )
        },
        _ => None,
    }
}

pub fn new_export_job(input: &ExportJobRequest, now: Timestamp, sequence: u64) -> (r: Option<ExportJob>)
    requires
        now.secs <= i64::MAX - EXPORT_TTL_SECONDS,
    ensures
        match r {
            Some(j) => spec_new_export_job(*input, now, sequence) == Some(j@),
            None => spec_new_export_job(*input, now, sequence) is None,
        },
{
    let compact = match utc_compact_text(now) {
        Some(t) => t,
        None => {
            return None;
        },
    };
    let created = match rfc3339_text(now) {
        Some(t) => t,
        None => {
            return None;
        },
    };
    let expires = match rfc3339_text(Timestamp { secs: now.secs + EXPORT_TTL_SECONDS, nanos: now.nanos }) {
        Some(t) => t,
        None => {
            return None;
        },
    };
    let a = concat("export-", compact.as_str());
    let b = concat(a.as_str(), "-");
    let n = u64_to_string(sequence);
    let id = concat(b.as_str(), n.as_str());
    let f1 = concat(id.as_str(), ".");
    let file_name = concat(f1.as_str(), input.format.extension());
    let u1 = concat("/api/export/jobs/", id.as_str());
    let download_url = concat(u1.as_str(), "/download");
    Some(ExportJob {
        job_id: id,
        status: owned("queued"),
        scope: input.scope.clone(),
        format: input.format,
        file_name,
        download_url,
        rows: 0,
        file_bytes: 0,
        error: None,
        updated_at: created.clone(),
        created_at: created,
        expires_at: expires,
    })
}

/// The first job with the id.
pub open spec fn job_index(jobs: Seq<ExportJobView>, id: Seq<char>) -> Option<int>
    decreases jobs.len(),
{
    if jobs.len() == 0 {
        None
    } else if jobs[0].job_id == id {
        Some(0)
    } else {
        match job_index(jobs.drop_first(), id) {
            Some(i) => Some(i + 1),
            None => None,
        }
    }
}

pub proof fn lemma_job_index(jobs: Seq<ExportJobView>, id: Seq<char>)
    ensures
        job_index(jobs, id) matches Some(i) ==> 0 <= i < jobs.len() && jobs[i].job_id == id,
        job_index(jobs, id) is None ==> forall|j: int| 0 <= j < jobs.len() ==> jobs[j].job_id != id,
    decreases jobs.len(),
{
    if jobs.len() > 0 {
        lemma_job_index(jobs.drop_first(), id);
        if jobs[0].job_id != id {
            assert forall|j: int| 0 <= j < jobs.len() && job_index(jobs, id) is None implies jobs[j].job_id != id by {
                if j > 0 {
                    assert(jobs[j] == jobs.drop_first()[j - 1]);
                }
            }
        }
    }
}

/// A job updated with a new status, counts, error and time: the counts change when they are
/// not zero or the job completed.
pub open spec fn updated_job(
    j: ExportJobView,
    status: Seq<char>,
    rows: usize,
    file_bytes: u64,
    error: Option<Seq<char>>,
    now_text: Seq<char>,
) -> ExportJobView {
    ExportJobView {
        status,
        rows: if rows > 0 || status == "completed"@ {
            rows
        } else {
            j.rows
        },
        file_bytes: if file_bytes > 0 || status == "completed"@ {
            file_bytes
        } else {
            j.file_bytes
        },
        error,
        updated_at: now_text,
        ..j
    }
}

/// A job still within its lifetime: its expiry parses and lies after `now`.
pub open spec fn job_alive(j: ExportJobView, now: Timestamp) -> bool {
    match spec_parse_rfc3339(j.expires_at) {
        Some((s, n)) => before(now, Timestamp { secs: s, nanos: n }),
        None => false,
    }
}

/// Why a job's file cannot be downloaded.
#[derive(Debug, Clone, Copy, PartialEq, Eq)]
pub enum DownloadRefusal {
    NotFound,
    NotCompleted,
}

/// The export jobs known to the server, each id once.
#[derive(Debug)]
pub struct ExportJobs {
    jobs: Vec<ExportJob>,
}

impl ExportJobs {
    pub closed spec fn spec_jobs(self) -> Seq<ExportJobView> {
        job_views(self.jobs@)
    }

    pub fn new() -> (r: Self)
        ensures
            r.spec_jobs().len() == 0,
    {
        ExportJobs { jobs: Vec::new() }
    }

    fn find(&self, id: &str) -> (r: Option<usize>)
        ensures
            r matches Some(i) ==> job_index(self.spec_jobs(), id@) == Some(i as int) && i < self.jobs@.len(),
            r is None ==> job_index(self.spec_jobs(), id@) is None,
    {
        let ghost jv = self.spec_jobs();
        let mut i: usize = 0;
        proof {
            assert(jv.skip(0) =~= jv);
        }
        while i < self.jobs.len()
            invariant
                i <= self.jobs@.len(),
                jv == job_views(self.jobs@),
                job_index(jv, id@) == match job_index(jv.skip(i as int), id@) {
                    Some(k) => Some(k + i),
                    None => None,
                },
            decreases self.jobs.len() - i,
        {
            proof {
                assert(jv.skip(i as int).drop_first() =~= jv.skip(i + 1));
                assert(jv.skip(i as int)[0] == jv[i as int]);
            }
            if str_eq(self.jobs[i].job_id.as_str(), id) {
                return Some(i);
            }
            i = i + 1;
        }
        proof {
            assert(jv.skip(i as int) =~= Seq::<ExportJobView>::empty());
        }
        None
    }

    /// Adds a job, replacing one with the same id.
    pub fn insert(&mut self, job: ExportJob)
        ensures
            final(self).spec_jobs() == match job_index(old(self).spec_jobs(), job@.job_id) {
                Some(i) => old(self).spec_jobs().update(i, job@),
                None => old(self).spec_jobs().push(job@),
            },
    {
        let ghost before = self.spec_jobs();
        let ghost jv = job@;
        match self.find(job.job_id.as_str()) {
            Some(i) => {
                self.jobs.set(i, job);
                proof {
                    assert(self.spec_jobs() =~= before.update(i as int, jv));
                }
            },
            None => {
                self.jobs.push(job);
                proof {
                    assert(self.spec_jobs() =~= before.push(jv));
                }
            },
        }
    }

    /// The job with the id.
    pub fn get(&self, id: &str) -> (r: Option<ExportJob>)
        ensures
            match job_index(self.spec_jobs(), id@) {
                Some(i) => r matches Some(j) && j@ == self.spec_jobs()[i],
                None => r is None,
            },
    {
        match self.find(id) {
            Some(i) => Some(job_copy(&self.jobs[i])),
            None => None,
        }
    }

    /// Records the progress of a job; an unknown id changes nothing.
    pub fn update(
        &mut self,
        id: &str,
        status: &str,
        rows: usize,
        file_bytes: u64,
        error: Option<String>,
        now_text: String,
    )
        ensures
            final(self).spec_jobs() == match job_index(old(self).spec_jobs(), id@) {
                Some(i) => old(self).spec_jobs().update(
                    i,
                    updated_job(old(self).spec_jobs()[i], status@, rows, file_bytes, ov(error), now_text@),
                ),
                None => old(self).spec_jobs(),
            },
    {
        let ghost before = self.spec_jobs();
        match self.find(id) {
            Some(i) => {
                let mut job = job_copy(&self.jobs[i]);
                let completed = str_eq(status, "completed");
                job.status = owned(status);
                if rows > 0 || completed {
                    job.rows = rows;
                }
                if file_bytes > 0 || completed {
                    job.file_bytes = file_bytes;
                }
                job.error = error;
                job.updated_at = now_text;
                let ghost nv = job@;
                self.jobs.set(i, job);
                proof {
                    assert(nv == updated_job(before[i as int], status@, rows, file_bytes, ov(error), now_text@));
                    assert(self.spec_jobs() =~= before.update(i as int, nv));
                }
            },
            None => {},
        }
    }

    /// Drops the jobs whose lifetime is over (or whose expiry cannot be read).
    pub fn retain_alive(&mut self, now: Timestamp)
        ensures
            final(self).spec_jobs() == old(self).spec_jobs().filter(|j: ExportJobView| job_alive(j, now)),
    {
        let ghost input = self.spec_jobs();
        let ghost pred = |j: ExportJobView| job_alive(j, now);
        let mut kept: Vec<ExportJob> = Vec::new();
        let mut i: usize = 0;
        proof {
            reveal_with_fuel(Seq::filter, 1);
            assert(input.take(0) =~= Seq::<ExportJobView>::empty());
        }
        while i < self.jobs.len()
            invariant
                i <= self.jobs@.len(),
                input == job_views(self.jobs@),
                pred == (|j: ExportJobView| job_alive(j, now)),
                job_views(kept@) == input.take(i as int).filter(pred),
            decreases self.jobs.len() - i,
        {
            let job = &self.jobs[i];
            proof {
                assert(input[i as int] == job@);
                assert(input.take(i + 1) =~= input.take(i as int).push(input[i as int]));
                reveal_with_fuel(Seq::filter, 1);
                assert(input.take(i + 1).drop_last() =~= input.take(i as int));
            }
            let alive = match parse_rfc3339(job.expires_at.as_str()) {
                Some(t) => now.secs < t.secs || (now.secs == t.secs && now.nanos < t.nanos),
                None => false,
            };
            if alive {
                let ghost before = job_views(kept@);
                kept.push(job_copy(job));
                proof {
                    assert(job_views(kept@) =~= before.push(input[i as int]));
                }
            }
            i = i + 1;
        }
        proof {
            assert(input.take(self.jobs@.len() as int) =~= input);
        }
        self.jobs = kept;
    }

    /// The jobs, newest first; jobs created at the same time keep their order.
    pub fn newest_first(&self) -> (r: Vec<ExportJob>)
        ensures
            job_views(r@) == sort_newest_first(self.spec_jobs()),
    {
        let ghost input = self.spec_jobs();
        let mut sorted: Vec<ExportJob> = Vec::new();
        let mut i: usize = self.jobs.len();
        proof {
            assert(input.skip(i as int) =~= Seq::<ExportJobView>::empty());
        }
        while i > 0
            invariant
                i <= self.jobs@.len(),
                input == job_views(self.jobs@),
                job_views(sorted@) == sort_newest_first(input.skip(i as int)),
            decreases i,
        {
            let j = i - 1;
            proof {
                assert(input.skip(j as int).drop_first() =~= input.skip(i as int));
                assert(input.skip(j as int)[0] == input[j as int]);
            }
            let job = job_copy(&self.jobs[j]);
            insert_newest_first(&mut sorted, job);
            i = j;
        }
        proof {
            assert(input.skip(0) =~= input);
        }
        sorted
    }

    /// The file of a job that may be downloaded: the job must exist and be completed.
    pub fn download_file_name(&self, id: &str) -> (r: Result<String, DownloadRefusal>)
        ensures
            match job_index(self.spec_jobs(), id@) {
                None => r == Err::<String, DownloadRefusal>(DownloadRefusal::NotFound),
                Some(i) => if self.spec_jobs()[i].status == "completed"@ {
                    r matches Ok(n) && n@ == self.spec_jobs()[i].file_name
                } else {
                    r == Err::<String, DownloadRefusal>(DownloadRefusal::NotCompleted)
                },
            },
    {
        match self.find(id) {
            None => Err(DownloadRefusal::NotFound),
            Some(i) => {
                if str_eq(self.jobs[i].status.as_str(), "completed") {
                    Ok(self.jobs[i].file_name.clone())
                } else {
                    Err(DownloadRefusal::NotCompleted)
                }
            },
        }
    }
}

/// Where a job goes among jobs already newest first: before the first one created no later.
pub open spec fn newest_position(sorted: Seq<ExportJobView>, created_at: Seq<char>) -> int
    decreases sorted.len(),
{
    if sorted.len() == 0 {
        0
    } else if !text_lt(created_at, sorted[0].created_at) {
        0
    } else {
        1 + newest_position(sorted.drop_first(), created_at)
    }
}

/// Jobs in descending order of creation; equal times keep their order.
pub open spec fn sort_newest_first(s: Seq<ExportJobView>) -> Seq<ExportJobView>
    decreases s.len(),
{
    if s.len() == 0 {
        s
    } else {
        let rest = sort_newest_first(s.drop_first());
        rest.insert(newest_position(rest, s[0].created_at), s[0])
    }
}

proof fn lemma_newest_position_bound(sorted: Seq<ExportJobView>, created_at: Seq<char>)
    ensures
        0 <= newest_position(sorted, created_at) <= sorted.len(),
    decreases sorted.len(),
{
    if sorted.len() > 0 {
        lemma_newest_position_bound(sorted.drop_first(), created_at);
    }
}

fn insert_newest_first(sorted: &mut Vec<ExportJob>, job: ExportJob)
    ensures
        job_views(final(sorted)@) == job_views(old(sorted)@).insert(
            newest_position(job_views(old(sorted)@), job.created_at@),
            job@,
        ),
{
    let ghost s = job_views(sorted@);
    let mut i: usize = 0;
    proof {
        assert(s.skip(0) =~= s);
        lemma_newest_position_bound(s, job.created_at@);
    }
    while i < sorted.len() && text_less(job.created_at.as_str(), sorted[i].created_at.as_str())
        invariant
            i <= sorted@.len(),
            s == job_views(sorted@),
            sorted@ == old(sorted)@,
            newest_position(s, job.created_at@) == newest_position(s.skip(i as int), job.created_at@) + i,
        decreases sorted.len() - i,
    {
        proof {
            assert(s.skip(i as int).drop_first() =~= s.skip(i + 1));
            assert(s.skip(i as int)[0] == s[i as int]);
        }
        i = i + 1;
    }
    proof {
        if i < s.len() {
            assert(s.skip(i as int)[0] == s[i as int]);
        } else {
            assert(s.skip(i as int) =~= Seq::<ExportJobView>::empty());
        }
    }
    let ghost jv = job@;
    sorted.insert(i, job);
    proof {
        assert(job_views(sorted@) =~= s.insert(i as int, jv));
    }
}

} // verus!
