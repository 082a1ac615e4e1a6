//! Records as they are written to the tables, and scopes as they are read.

use vstd::prelude::*;
use vstd::string::*;

use super::records::{
    blob_to_scope_hash, cron_enabled, cron_of, hash_of, id_number, job_of, jobs_of, numbered,
    opt_blob, opt_hash, opt_hash_of, opt_scope_hash, CronTableRow, JobHistoryRow, JobModel, LoadedCronModel, ScopeHash,
    StoredCron, StoredJob, StoredScriptItem, StoredScriptRun,
};
use crate::cron::CronStatus;
use crate::job::{terminal_status, JobStatus};
use crate::json;
use crate::order;
use crate::order::{by_key, values_of};
use crate::text;
use crate::text::Text;

verus! {

// ── Hashes ──

fn hash_blob(hash: &ScopeHash) -> (r: Vec<u8>)
    ensures
        r@ == hash@,
{
    let mut out: Vec<u8> = Vec::new();
    let mut i: usize = 0;
    while i < 32
        invariant
            i <= 32,
            hash@.len() == 32,
            out@ == hash@.take(i as int),
        decreases 32 - i,
    {
        out.push(hash.0[i]);
        i = i + 1;
        assert(out@ =~= hash@.take(i as int));
    }
    assert(hash@.take(32) =~= hash@);
    out
}

fn opt_hash_blob(hash: &Option<ScopeHash>) -> (r: Option<Vec<u8>>)
    ensures
        opt_blob(r) == opt_hash(*hash),
{
    match hash {
        Some(h) => Some(hash_blob(h)),
        None => None,
    }
}

/// A hash that is written is read back.
pub proof fn lemma_hash_read_back(hash: Option<ScopeHash>)
    ensures
        opt_hash_of(opt_hash(hash)) == Ok::<Option<Seq<u8>>, Text>(opt_hash(hash)),
{
}

// ── Jobs ──

/// A job as it is written.
#[derive(Debug, PartialEq, Eq)]
pub struct JobHistoryWrite {
    pub id: String,
    pub pipeline: String,
    pub status_text: String,
    pub exit_code: Option<i32>,
    pub scope_hash: Option<Vec<u8>>,
    pub start_scope: Option<Vec<u8>>,
    pub end_scope: Option<Vec<u8>>,
    pub chain_id: Option<String>,
    pub stderr: String,
    /// Whether the time of the end is set.
    pub finished: bool,
}

/// What a job is written as, given its status in its encoding.
pub fn upsert_job_history(job: &StoredJob, status_text: String) -> (r: JobHistoryWrite)
    ensures
        r.id@ == job.id@,
        r.pipeline@ == job.pipeline@,
        r.status_text@ == status_text@,
        r.exit_code == job.exit_code,
        opt_blob(r.scope_hash) == opt_hash(job.start_scope),
        opt_blob(r.start_scope) == opt_hash(job.start_scope),
        opt_blob(r.end_scope) == opt_hash(job.end_scope),
        text::opt_text(r.chain_id) == text::opt_text(job.chain_id),
        r.stderr@ == job.stderr@,
        r.finished == terminal_status(job.status),
{
    JobHistoryWrite {
        id: job.id.clone(),
        pipeline: job.pipeline.clone(),
        status_text,
        exit_code: job.exit_code,
        scope_hash: opt_hash_blob(&job.start_scope),
        start_scope: opt_hash_blob(&job.start_scope),
        end_scope: opt_hash_blob(&job.end_scope),
        chain_id: text::clone_opt(&job.chain_id),
        stderr: job.stderr.clone(),
        finished: job.status.is_terminal(),
    }
}

/// Whether a row holds what was written, its status decoded.
pub open spec fn holds_job(row: JobHistoryRow, w: JobHistoryWrite, status: JobStatus) -> bool {
    &&& row.id@ == w.id@
    &&& row.pipeline@ == w.pipeline@
    &&& row.status_text@ == w.status_text@
    &&& row.decoded_status == Some(status)
    &&& row.exit_code == w.exit_code
    &&& opt_blob(row.start_scope) == opt_blob(w.start_scope)
    &&& opt_blob(row.end_scope) == opt_blob(w.end_scope)
    &&& text::opt_text(row.chain_id) == text::opt_text(w.chain_id)
    &&& row.stderr@ == w.stderr@
}

/// A job that was written is read back as it was, if its ID is that of a job.
pub proof fn lemma_job_read_back(job: StoredJob, w: JobHistoryWrite, row: JobHistoryRow)
    requires
        w.id@ == job.id@,
        w.pipeline@ == job.pipeline@,
        w.exit_code == job.exit_code,
        opt_blob(w.start_scope) == opt_hash(job.start_scope),
        opt_blob(w.end_scope) == opt_hash(job.end_scope),
        text::opt_text(w.chain_id) == text::opt_text(job.chain_id),
        w.stderr@ == job.stderr@,
        holds_job(row, w, job.status),
    ensures
        job_of(row) == match numbered('J', "job history"@, job.id@) {
            Ok(n) => Ok::<(u32, JobModel), Text>((n as u32, job@)),
            Err(e) => Err(e),
        },
{
    lemma_hash_read_back(job.start_scope);
    lemma_hash_read_back(job.end_scope);
}

/// What `upsert_job_history` makes of a job, in whatever encoding of its status.
pub open spec fn writes_job(w: JobHistoryWrite, job: StoredJob) -> bool {
    &&& w.id@ == job.id@
    &&& w.pipeline@ == job.pipeline@
    &&& w.exit_code == job.exit_code
    &&& opt_blob(w.start_scope) == opt_hash(job.start_scope)
    &&& opt_blob(w.end_scope) == opt_hash(job.end_scope)
    &&& text::opt_text(w.chain_id) == text::opt_text(job.chain_id)
    &&& w.stderr@ == job.stderr@
}

/// A row that was written from the job.
pub open spec fn row_of_job(row: JobHistoryRow, job: StoredJob) -> bool {
    exists|w: JobHistoryWrite| #[trigger] writes_job(w, job) && holds_job(row, w, job.status)
}

/// The job that was written last under an ID.
pub open spec fn last_written(jobs: Seq<StoredJob>, id: Text) -> Option<StoredJob>
    decreases jobs.len(),
{
    if jobs.len() == 0 {
        None
    } else if jobs.last().id@ == id {
        Some(jobs.last())
    } else {
        last_written(jobs.drop_last(), id)
    }
}

proof fn lemma_last_written(jobs: Seq<StoredJob>, id: Text)
    ensures
        last_written(jobs, id) matches Some(job) ==> job.id@ == id && jobs.contains(job),
        forall|k: int|
            0 <= k < jobs.len() && (#[trigger] jobs[k]).id@ == id ==> last_written(
                jobs,
                id,
            ) is Some,
    decreases jobs.len(),
{
    if jobs.len() > 0 {
        lemma_last_written(jobs.drop_last(), id);
        if jobs.last().id@ == id {
            assert(jobs[jobs.len() - 1] == jobs.last());
        } else {
            if let Some(job) = last_written(jobs.drop_last(), id) {
                let k = jobs.drop_last().index_of(job);
                assert(jobs[k] == job);
            }
            assert forall|k: int| 0 <= k < jobs.len() && (
            #[trigger] jobs[k]).id@ == id implies last_written(jobs, id) is Some by {
                assert(jobs.drop_last()[k] == jobs[k]);
            }
        }
    }
}

/// The rows of a table into which the jobs were written, one after another: one
/// row for each ID, and in it the job that was written last.
pub open spec fn holds_history(rows: Seq<JobHistoryRow>, jobs: Seq<StoredJob>) -> bool {
    &&& forall|i: int, j: int|
        0 <= i < j < rows.len() ==> (#[trigger] rows[i]).id@ != (#[trigger] rows[j]).id@
    &&& forall|i: int|
        0 <= i < rows.len() ==> (last_written(jobs, (#[trigger] rows[i]).id@) matches Some(job)
            && row_of_job(rows[i], job))
    &&& forall|k: int|
        0 <= k < jobs.len() ==> has_row(rows, (#[trigger] jobs[k]).id@)
}

pub open spec fn has_row(rows: Seq<JobHistoryRow>, id: Text) -> bool {
    exists|i: int| 0 <= i < rows.len() && (#[trigger] rows[i]).id@ == id
}

/// Whether one of the jobs has this ID.
pub open spec fn has_job(jobs: Seq<JobModel>, id: Text) -> bool {
    exists|i: int| 0 <= i < jobs.len() && (#[trigger] jobs[i]).id == id
}

proof fn lemma_row_read_back(row: JobHistoryRow, job: StoredJob)
    requires
        row_of_job(row, job),
    ensures
        job_of(row) == match numbered('J', "job history"@, job.id@) {
            Ok(n) => Ok::<(u32, JobModel), Text>((n as u32, job@)),
            Err(e) => Err(e),
        },
{
    let w = choose|w: JobHistoryWrite| #[trigger]
        writes_job(w, job) && holds_job(row, w, job.status);
    lemma_job_read_back(job, w, row);
}

proof fn lemma_all_read(rows: Seq<JobHistoryRow>)
    requires
        forall|i: int| 0 <= i < rows.len() ==> job_of(#[trigger] rows[i]) is Ok,
    ensures
        jobs_of(rows) == Ok::<Seq<(u32, JobModel)>, Text>(
            rows.map_values(|row: JobHistoryRow| job_of(row)->Ok_0),
        ),
    decreases rows.len(),
{
    let f = |row: JobHistoryRow| job_of(row)->Ok_0;
    if rows.len() > 0 {
        let before = rows.drop_last();
        assert forall|i: int| 0 <= i < before.len() implies job_of(#[trigger] before[i]) is Ok by {
            assert(before[i] == rows[i]);
        }
        lemma_all_read(before);
        assert(job_of(rows[rows.len() - 1]) is Ok);
        assert(rows.map_values(f) =~= before.map_values(f).push(f(rows.last())));
    } else {
        assert(rows.map_values(f) =~= Seq::<(u32, JobModel)>::empty());
    }
}

/// The history is read back as it was last written: once for each ID that was
/// written, the job written last under it, in ascending order of the numbers.
pub proof fn lemma_history_read_back(rows: Seq<JobHistoryRow>, jobs: Seq<StoredJob>)
    requires
        holds_history(rows, jobs),
        forall|k: int| 0 <= k < jobs.len() ==> id_number('J', (#[trigger] jobs[k]).id@) is Some,
    ensures
        jobs_of(rows) is Ok,
        ({
            let read = values_of(by_key(jobs_of(rows)->Ok_0));
            &&& read.len() == rows.len()
            &&& forall|i: int|
                0 <= i < read.len() ==> (last_written(jobs, (#[trigger] read[i]).id) matches Some(
                    job,
                ) && read[i] == job@)
            &&& forall|k: int|
                0 <= k < jobs.len() ==> has_job(read, (#[trigger] jobs[k]).id@)
            &&& forall|i: int, j: int|
                0 <= i < j < read.len() ==> {
                    &&& (#[trigger] read[i]).id != (#[trigger] read[j]).id
                    &&& id_number('J', read[i].id)->0 <= id_number('J', read[j].id)->0
                }
        }),
{
    broadcast use vstd::seq_lib::to_multiset_contains;

    let f = |row: JobHistoryRow| job_of(row)->Ok_0;
    assert forall|i: int| 0 <= i < rows.len() implies job_of(#[trigger] rows[i]) == Ok::<
        (u32, JobModel),
        Text,
    >(
        (
            id_number('J', rows[i].id@)->0 as u32,
            last_written(jobs, rows[i].id@)->0@,
        ),
    ) && id_number('J', rows[i].id@) is Some && last_written(jobs, rows[i].id@)->0@.id
        == rows[i].id@ by {
        let job = last_written(jobs, rows[i].id@)->0;
        lemma_last_written(jobs, rows[i].id@);
        let k = jobs.index_of(job);
        assert(jobs[k] == job);
        lemma_row_read_back(rows[i], job);
    }
    lemma_all_read(rows);
    let found = rows.map_values(f);
    let sorted = by_key(found);
    let read = values_of(sorted);
    order::lemma_by_key_sorts(found);
    assert forall|i: int| 0 <= i < found.len() implies (#[trigger] found[i]).1.id == rows[i].id@
        && found[i].0 == id_number('J', rows[i].id@)->0 as u32 by {
        assert(job_of(rows[i]) is Ok);
    }
    assert(found.no_duplicates()) by {
        assert forall|i: int, j: int|
            0 <= i < found.len() && 0 <= j < found.len() && i != j implies found[i] != found[j] by {
            assert(found[i].1.id == rows[i].id@);
            assert(found[j].1.id == rows[j].id@);
            if i < j {
                assert(rows[i].id@ != rows[j].id@);
            } else {
                assert(rows[j].id@ != rows[i].id@);
            }
        }
    }
    found.lemma_multiset_has_no_duplicates();
    sorted.lemma_multiset_has_no_duplicates_conv();
    assert forall|i: int| 0 <= i < sorted.len() implies found.contains(#[trigger] sorted[i]) by {
        assert(sorted.contains(sorted[i]));
        assert(sorted.to_multiset().count(sorted[i]) > 0);
        assert(found.to_multiset().count(sorted[i]) > 0);
    }
    assert forall|i: int| 0 <= i < read.len() implies (last_written(
        jobs,
        (#[trigger] read[i]).id,
    ) matches Some(job) && read[i] == job@) by {
        assert(found.contains(sorted[i]));
        let a = found.index_of(sorted[i]);
        assert(found[a] == sorted[i]);
        assert(job_of(rows[a]) is Ok);
    }
    assert forall|k: int| 0 <= k < jobs.len() implies has_job(read, (#[trigger] jobs[k]).id@) by {
        assert(has_row(rows, jobs[k].id@));
        let a = choose|a: int| 0 <= a < rows.len() && (#[trigger] rows[a]).id@ == jobs[k].id@;
        assert(found.contains(found[a]));
        assert(found.to_multiset().count(found[a]) > 0);
        assert(sorted.to_multiset().count(found[a]) > 0);
        assert(sorted.contains(found[a]));
        let b = sorted.index_of(found[a]);
        assert(read[b].id == jobs[k].id@);
    }
    assert forall|i: int, j: int| 0 <= i < j < read.len() implies {
        &&& (#[trigger] read[i]).id != (#[trigger] read[j]).id
        &&& id_number('J', read[i].id)->0 <= id_number('J', read[j].id)->0
    } by {
        assert(found.contains(sorted[i]) && found.contains(sorted[j]));
        let a = found.index_of(sorted[i]);
        let b = found.index_of(sorted[j]);
        assert(found[a] == sorted[i] && found[b] == sorted[j]);
        assert(sorted[i] != sorted[j]);
        assert(a != b);
        assert(found[a].1.id == rows[a].id@ && found[b].1.id == rows[b].id@);
        if a < b {
            assert(rows[a].id@ != rows[b].id@);
        } else {
            assert(rows[b].id@ != rows[a].id@);
        }
        assert(sorted[i].0 <= sorted[j].0);
        lemma_id_number_small(rows[a].id@);
        lemma_id_number_small(rows[b].id@);
    }
}

proof fn lemma_id_number_small(id: Text)
    ensures
        id_number('J', id) matches Some(n) ==> n <= u32::MAX,
{
}

proof fn lemma_bad_id_told(rows: Seq<JobHistoryRow>, bad: int)
    requires
        forall|i: int|
            0 <= i < rows.len() ==> job_of(#[trigger] rows[i]) is Ok || job_of(rows[i]) == Err::<
                (u32, JobModel),
                Text,
            >("invalid job history id "@ + rows[i].id@),
        0 <= bad < rows.len(),
        job_of(rows[bad]) is Err,
    ensures
        exists|i: int|
            0 <= i < rows.len() && job_of(#[trigger] rows[i]) is Err && jobs_of(rows) == Err::<
                Seq<(u32, JobModel)>,
                Text,
            >("invalid job history id "@ + rows[i].id@),
    decreases rows.len(),
{
    let before = rows.drop_last();
    assert forall|i: int| 0 <= i < before.len() implies before[i] == rows[i] by {}
    if jobs_of(before) is Err {
        assert(exists|i: int| 0 <= i < before.len() && job_of(#[trigger] before[i]) is Err) by {
            if forall|i: int| 0 <= i < before.len() ==> job_of(#[trigger] before[i]) is Ok {
                lemma_all_read(before);
            }
        }
        let b = choose|b: int| 0 <= b < before.len() && job_of(#[trigger] before[b]) is Err;
        lemma_bad_id_told(before, b);
        let i = choose|i: int|
            0 <= i < before.len() && job_of(#[trigger] before[i]) is Err && jobs_of(before)
                == Err::<Seq<(u32, JobModel)>, Text>("invalid job history id "@ + before[i].id@);
        assert(rows[i] == before[i]);
    } else {
        if bad < before.len() {
            assert(before[bad] == rows[bad]);
            lemma_bad_id_told(before, bad);
        }
        assert(rows[rows.len() - 1] == rows.last());
    }
}

/// If a job was written under an ID that is none of a job, the history is not
/// read: the error names such an ID.
pub proof fn lemma_history_with_bad_id_refused(
    rows: Seq<JobHistoryRow>,
    jobs: Seq<StoredJob>,
    k: int,
)
    requires
        holds_history(rows, jobs),
        0 <= k < jobs.len(),
        id_number('J', jobs[k].id@) is None,
    ensures
        exists|i: int|
            0 <= i < rows.len() && id_number('J', (#[trigger] rows[i]).id@) is None && jobs_of(rows)
                == Err::<Seq<(u32, JobModel)>, Text>("invalid job history id "@ + rows[i].id@),
{
    assert(has_row(rows, jobs[k].id@));
    let bad = choose|a: int| 0 <= a < rows.len() && (#[trigger] rows[a]).id@ == jobs[k].id@;
    let told = "invalid job history id "@;
    assert("invalid "@ + "job history"@ + " id "@ =~= told) by {
        reveal_strlit("invalid ");
        reveal_strlit("job history");
        reveal_strlit(" id ");
        reveal_strlit("invalid job history id ");
    }
    assert forall|i: int| 0 <= i < rows.len() implies if id_number(
        'J',
        (#[trigger] rows[i]).id@,
    ) is Some {
        job_of(rows[i]) is Ok
    } else {
        job_of(rows[i]) == Err::<(u32, JobModel), Text>(told + rows[i].id@)
    } by {
        let job = last_written(jobs, rows[i].id@)->0;
        lemma_last_written(jobs, rows[i].id@);
        lemma_row_read_back(rows[i], job);
    }
    assert(job_of(rows[bad]) is Err);
    lemma_bad_id_told(rows, bad);
    let i = choose|i: int|
        0 <= i < rows.len() && job_of(#[trigger] rows[i]) is Err && jobs_of(rows) == Err::<
            Seq<(u32, JobModel)>,
            Text,
        >("invalid job history id "@ + rows[i].id@);
    assert(id_number('J', rows[i].id@) is None);
}

// ── Crons ──

/// A cron as it is written.
#[derive(Debug, PartialEq, Eq)]
pub struct CronWrite {
    pub id: String,
    pub schedule: String,
    pub command: String,
    pub enabled: i64,
    pub scope_hash: Option<Vec<u8>>,
    pub status_text: String,
    pub cwd_override: Option<String>,
    pub scope_enabled: i64,
    pub wrapper_enabled: i64,
}

pub open spec fn flag(b: bool) -> i64 {
    if b {
        1
    } else {
        0
    }
}

fn to_flag(b: bool) -> (r: i64)
    ensures
        r == flag(b),
{
    if b {
        1
    } else {
        0
    }
}

/// What a cron is written as, given its status in its encoding.
pub fn upsert_cron(cron: &StoredCron, status_text: String) -> (r: CronWrite)
    ensures
        r.id@ == cron.id@,
        r.schedule@ == cron.schedule@,
        r.command@ == cron.command@,
        r.enabled == flag(cron.status == CronStatus::Scheduled),
        opt_blob(r.scope_hash) == opt_hash(cron.scope_hash),
        r.status_text@ == status_text@,
        text::opt_text(r.cwd_override) == text::opt_text(cron.cwd_override),
        r.scope_enabled == flag(cron.scope_enabled),
        r.wrapper_enabled == flag(cron.wrapper_enabled),
{
    CronWrite {
        id: cron.id.clone(),
        schedule: cron.schedule.clone(),
        command: cron.command.clone(),
        enabled: to_flag(cron_enabled(cron.status)),
        scope_hash: opt_hash_blob(&cron.scope_hash),
        status_text,
        cwd_override: text::clone_opt(&cron.cwd_override),
        scope_enabled: to_flag(cron.scope_enabled),
        wrapper_enabled: to_flag(cron.wrapper_enabled),
    }
}

/// Whether a row holds what was written, its status decoded.
pub open spec fn holds_cron(row: CronTableRow, w: CronWrite, status: CronStatus) -> bool {
    &&& row.id@ == w.id@
    &&& row.schedule@ == w.schedule@
    &&& row.command@ == w.command@
    &&& opt_blob(row.scope_hash) == opt_blob(w.scope_hash)
    &&& row.status_text@ == w.status_text@
    &&& row.decoded_status == Some(status)
    &&& text::opt_text(row.cwd_override) == text::opt_text(w.cwd_override)
    &&& row.scope_enabled == w.scope_enabled
    &&& row.wrapper_enabled == w.wrapper_enabled
}

/// A cron that was written is read back as it was, with its age, if its ID is
/// that of a cron and it was not made in the future.
pub proof fn lemma_cron_read_back(cron: StoredCron, w: CronWrite, row: CronTableRow)
    requires
        w.id@ == cron.id@,
        w.schedule@ == cron.schedule@,
        w.command@ == cron.command@,
        opt_blob(w.scope_hash) == opt_hash(cron.scope_hash),
        text::opt_text(w.cwd_override) == text::opt_text(cron.cwd_override),
        w.scope_enabled == flag(cron.scope_enabled),
        w.wrapper_enabled == flag(cron.wrapper_enabled),
        holds_cron(row, w, cron.status),
        row.age_millis >= 0,
    ensures
        cron_of(row) == match numbered('C', "cron"@, cron.id@) {
            Ok(n) => Ok::<(u32, LoadedCronModel), Text>(
                (
                    n as u32,
                    LoadedCronModel {
                        id: cron.id@,
                        schedule: cron.schedule@,
                        command: cron.command@,
                        status: cron.status,
                        scope_hash: opt_hash(cron.scope_hash),
                        cwd_override: text::opt_text(cron.cwd_override),
                        scope_enabled: cron.scope_enabled,
                        wrapper_enabled: cron.wrapper_enabled,
                        elapsed_millis: row.age_millis as int,
                    },
                ),
            ),
            Err(e) => Err(e),
        },
{
    lemma_hash_read_back(cron.scope_hash);
}

// ── Script runs ──

/// A script run as it is written.
#[derive(Debug, PartialEq, Eq)]
pub struct ScriptRunWrite {
    pub id: String,
    pub mode: String,
    pub input: String,
    pub status: &'static str,
    pub item_count: i64,
    pub error_code: Option<String>,
    pub error_message: Option<String>,
    pub exit_code: Option<i32>,
    pub failed_item_index: Option<i64>,
    /// Whether the time of the end is set; it is removed if not.
    pub finished: bool,
    pub items: Vec<ScriptItemWrite>,
}

/// An item of a script as it is written.
#[derive(Debug, PartialEq, Eq)]
pub struct ScriptItemWrite {
    pub script_id: String,
    pub item_index: i64,
    pub source_text: String,
    pub kind: String,
    pub target_id: Option<String>,
    pub chain_id: Option<String>,
    pub job_ids_json: String,
}

/// A number as a signed number of 64 bits; from 2^63 on it wraps around.
pub open spec fn signed(n: usize) -> i64 {
    n as i64
}

pub open spec fn opt_signed(n: Option<usize>) -> Option<i64> {
    match n {
        Some(x) => Some(signed(x)),
        None => None,
    }
}

pub open spec fn item_written(item: StoredScriptItem, w: ScriptItemWrite) -> bool {
    &&& w.script_id@ == item.script_id@
    &&& w.item_index == signed(item.item_index)
    &&& w.source_text@ == item.source_text@
    &&& w.kind@ == item.kind@
    &&& text::opt_text(w.target_id) == text::opt_text(item.target_id)
    &&& text::opt_text(w.chain_id) == text::opt_text(item.chain_id)
    &&& w.job_ids_json@ == json::json_list(text::texts(item.job_ids@))
}

fn write_item(item: &StoredScriptItem) -> (r: ScriptItemWrite)
    ensures
        item_written(*item, r),
{
    ScriptItemWrite {
        script_id: item.script_id.clone(),
        item_index: item.item_index as i64,
        source_text: item.source_text.clone(),
        kind: item.kind.clone(),
        target_id: text::clone_opt(&item.target_id),
        chain_id: text::clone_opt(&item.chain_id),
        job_ids_json: match json::list_to_json(&item.job_ids) {
            Ok(list) => list,
            Err(error) => error,
        },
    }
}

/// What a script run is written as; its items take the place of those that were
/// there.
pub fn upsert_script_run(script: &StoredScriptRun, items: &Vec<StoredScriptItem>) -> (r:
    ScriptRunWrite)
    ensures
        r.id@ == script.id@,
        r.mode@ == script.mode@,
        r.input@ == script.input@,
        r.status@ == super::records::script_status_text(script.status),
        r.item_count == signed(script.item_count),
        text::opt_text(r.error_code) == text::opt_text(script.error_code),
        text::opt_text(r.error_message) == text::opt_text(script.error_message),
        r.exit_code == script.exit_code,
        r.failed_item_index == opt_signed(script.failed_item_index),
        r.finished == super::records::script_ended(script.status),
        r.items@.len() == items@.len(),
        forall|i: int|
            0 <= i < items@.len() ==> item_written(items@[i], #[trigger] r.items@[i]),
{
    let mut out: Vec<ScriptItemWrite> = Vec::new();
    let mut i: usize = 0;
    while i < items.len()
        invariant
            i <= items@.len(),
            out@.len() == i,
            forall|j: int| 0 <= j < i ==> item_written(items@[j], #[trigger] out@[j]),
        decreases items@.len() - i,
    {
        out.push(write_item(&items[i]));
        i = i + 1;
    }
    ScriptRunWrite {
        id: script.id.clone(),
        mode: script.mode.clone(),
        input: script.input.clone(),
        status: script.status.as_str(),
        item_count: script.item_count as i64,
        error_code: text::clone_opt(&script.error_code),
        error_message: text::clone_opt(&script.error_message),
        exit_code: script.exit_code,
        failed_item_index: match script.failed_item_index {
            Some(n) => Some(n as i64),
            None => None,
        },
        finished: script.status.is_terminal(),
        items: out,
    }
}

// ── Scopes ──

/// A scope with its changes and its contents, as far as they are stored.
#[derive(Debug)]
pub struct Scope<D, S> {
    pub hash: ScopeHash,
    pub parent: Option<ScopeHash>,
    pub delta: Option<D>,
    pub snapshot: Option<S>,
}

/// Why a row holds no scope, if it holds none: the first part that is damaged
/// decides.
pub open spec fn scope_error<D, S>(
    hash: Seq<u8>,
    parent: Option<Seq<u8>>,
    delta: Result<Option<D>, String>,
    snapshot: Result<Option<S>, String>,
) -> Option<Text> {
    match hash_of(hash) {
        Err(e) => Some(e),
        Ok(_) => match opt_hash_of(parent) {
            Err(e) => Some(e),
            Ok(_) => match delta {
                Err(e) => Some("corrupt delta_json: "@ + e@),
                Ok(_) => match snapshot {
                    Err(e) => Some("corrupt snap_json: "@ + e@),
                    Ok(_) => None,
                },
            },
        },
    }
}

/// The scope in a row, given what its two encoded columns decode to.
pub fn scope_from_row_parts<D, S>(
    hash: &Vec<u8>,
    parent: &Option<Vec<u8>>,
    delta: Result<Option<D>, String>,
    snapshot: Result<Option<S>, String>,
) -> (r: Result<Scope<D, S>, String>)
    ensures
        match r {
            Ok(s) => scope_error(hash@, opt_blob(*parent), delta, snapshot) is None && s.hash@
                == hash@ && opt_hash(s.parent) == opt_blob(*parent) && delta == Ok::<
                Option<D>,
                String,
            >(s.delta) && snapshot == Ok::<Option<S>, String>(s.snapshot),
            Err(e) => scope_error(hash@, opt_blob(*parent), delta, snapshot) == Some(e@),
        },
{
    let own = match blob_to_scope_hash(hash) {
        Ok(h) => h,
        Err(e) => {
            return Err(e);
        },
    };
    let above = match opt_scope_hash(parent) {
        Ok(h) => h,
        Err(e) => {
            return Err(e);
        },
    };
    let delta = match delta {
        Ok(d) => d,
        Err(e) => {
            return Err(text::concat2("corrupt delta_json: ", e.as_str()));
        },
    };
    let snapshot = match snapshot {
        Ok(s) => s,
        Err(e) => {
            return Err(text::concat2("corrupt snap_json: ", e.as_str()));
        },
    };
    Ok(Scope { hash: own, parent: above, delta, snapshot })
}

} // verus!
