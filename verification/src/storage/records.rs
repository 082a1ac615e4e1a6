//! Records and the rows that they are stored in.

use vstd::array::*;
use vstd::prelude::*;
use vstd::string::*;

use crate::cron::CronStatus;
use crate::duration::{duration_from_nonnegative_millis, Duration};
use crate::job::{CancelReason, JobStatus};
use crate::order;
use crate::order::{by_key, map_second, values_of};
use crate::text;
use crate::text::Text;

verus! {

/// Identifies a scope.
#[derive(Debug, Clone, Copy, PartialEq, Eq)]
pub struct ScopeHash(pub [u8; 32]);

impl View for ScopeHash {
    type V = Seq<u8>;

    open spec fn view(&self) -> Seq<u8> {
        self.0@
    }
}

/// What a blob that is no hash is refused with.
pub open spec fn hash_error(len: nat) -> Text {
    "scope hash blob is not 32 bytes (got "@ + text::decimal(len) + ")"@
}

/// The hash in a blob.
pub open spec fn hash_of(blob: Seq<u8>) -> Result<Seq<u8>, Text> {
    if blob.len() == 32 {
        Ok(blob)
    } else {
        Err(hash_error(blob.len()))
    }
}

/// The hash in an optional blob.
pub open spec fn opt_hash_of(blob: Option<Seq<u8>>) -> Result<Option<Seq<u8>>, Text> {
    match blob {
        None => Ok(None),
        Some(b) => match hash_of(b) {
            Ok(h) => Ok(Some(h)),
            Err(e) => Err(e),
        },
    }
}

pub fn blob_to_scope_hash(blob: &Vec<u8>) -> (r: Result<ScopeHash, String>)
    ensures
        match r {
            Ok(h) => hash_of(blob@) == Ok::<Seq<u8>, Text>(h@),
            Err(e) => hash_of(blob@) == Err::<Seq<u8>, Text>(e@),
        },
{
    if blob.len() != 32 {
        return Err(
            text::concat3(
                "scope hash blob is not 32 bytes (got ",
                text::decimal_usize(blob.len()).as_str(),
                ")",
            ),
        );
    }
    let mut bytes: [u8; 32] = [0u8;32];
    let mut i: usize = 0;
    while i < 32
        invariant
            i <= 32,
            blob@.len() == 32,
            forall|j: int| 0 <= j < i ==> bytes@[j] == blob@[j],
        decreases 32 - i,
    {
        bytes[i] = blob[i];
        i = i + 1;
    }
    let h = ScopeHash(bytes);
    assert(h@ =~= blob@);
    Ok(h)
}

pub open spec fn opt_blob(blob: Option<Vec<u8>>) -> Option<Seq<u8>> {
    match blob {
        Some(b) => Some(b@),
        None => None,
    }
}

pub open spec fn opt_hash(hash: Option<ScopeHash>) -> Option<Seq<u8>> {
    match hash {
        Some(h) => Some(h@),
        None => None,
    }
}

pub(crate) fn opt_scope_hash(blob: &Option<Vec<u8>>) -> (r: Result<Option<ScopeHash>, String>)
    ensures
        match r {
            Ok(h) => opt_hash_of(opt_blob(*blob)) == Ok::<Option<Seq<u8>>, Text>(opt_hash(h)),
            Err(e) => opt_hash_of(opt_blob(*blob)) == Err::<Option<Seq<u8>>, Text>(e@),
        },
{
    match blob {
        None => Ok(None),
        Some(b) => match blob_to_scope_hash(b) {
            Ok(h) => Ok(Some(h)),
            Err(e) => Err(e),
        },
    }
}

// ── Identifiers ──

/// The number in an ID with this prefix.
pub open spec fn id_number(prefix: char, id: Text) -> Option<nat> {
    if id.len() > 0 && id[0] == prefix {
        text::parse_unsigned(id.skip(1), u32::MAX as nat)
    } else {
        None
    }
}

pub(crate) fn parse_id(prefix: char, id: &str) -> (r: Option<u32>)
    ensures
        match r {
            Some(n) => id_number(prefix, id@) == Some(n as nat),
            None => id_number(prefix, id@) is None,
        },
{
    let chars = text::chars_of(id);
    if chars.len() == 0 || chars[0] != prefix {
        return None;
    }
    let digits = text::sub_chars(&chars, 1, chars.len());
    assert(digits@ =~= id@.skip(1));
    match text::parse_digits(&digits, u32::MAX as u64) {
        Some(n) => Some(n as u32),
        None => None,
    }
}

pub open spec fn numbered(prefix: char, what: Text, id: Text) -> Result<nat, Text> {
    match id_number(prefix, id) {
        Some(n) => Ok(n),
        None => Err("invalid "@ + what + " id "@ + id),
    }
}

fn parse_numbered(prefix: char, what: &str, id: &str) -> (r: Result<u32, String>)
    ensures
        match r {
            Ok(n) => numbered(prefix, what@, id@) == Ok::<nat, Text>(n as nat),
            Err(e) => numbered(prefix, what@, id@) == Err::<nat, Text>(e@),
        },
{
    match parse_id(prefix, id) {
        Some(n) => Ok(n),
        None => Err(text::concat4("invalid ", what, " id ", id)),
    }
}

pub fn parse_cron_id(id: &str) -> (r: Result<u32, String>)
    ensures
        match r {
            Ok(n) => numbered('C', "cron"@, id@) == Ok::<nat, Text>(n as nat),
            Err(e) => numbered('C', "cron"@, id@) == Err::<nat, Text>(e@),
        },
{
    parse_numbered('C', "cron", id)
}

pub fn parse_job_history_id(id: &str) -> (r: Result<u32, String>)
    ensures
        match r {
            Ok(n) => numbered('J', "job history"@, id@) == Ok::<nat, Text>(n as nat),
            Err(e) => numbered('J', "job history"@, id@) == Err::<nat, Text>(e@),
        },
{
    parse_numbered('J', "job history", id)
}

pub fn parse_script_run_id(id: &str) -> (r: Result<u32, String>)
    ensures
        match r {
            Ok(n) => numbered('R', "script run"@, id@) == Ok::<nat, Text>(n as nat),
            Err(e) => numbered('R', "script run"@, id@) == Err::<nat, Text>(e@),
        },
{
    parse_numbered('R', "script run", id)
}

// ── States ──

/// The job state that a plain word stands for.
pub open spec fn plain_job_status(text: Text) -> Option<JobStatus> {
    if text == "pending"@ {
        Some(JobStatus::Pending)
    } else if text == "running"@ {
        Some(JobStatus::Running)
    } else if text == "done"@ {
        Some(JobStatus::Done)
    } else if text == "failed"@ {
        Some(JobStatus::Failed)
    } else if text == "killed"@ {
        Some(JobStatus::Killed)
    } else if text == "cancelled"@ {
        Some(JobStatus::Cancelled(CancelReason::User))
    } else {
        None
    }
}

/// The state in a row: as decoded, else by its word.
pub open spec fn job_status_of(decoded: Option<JobStatus>, text: Text) -> Result<JobStatus, Text> {
    match decoded {
        Some(s) => Ok(s),
        None => match plain_job_status(text) {
            Some(s) => Ok(s),
            None => Err("unknown job status encoding: "@ + text),
        },
    }
}

/// Reads a stored job state. `decoded` is what it decodes to, if it does.
pub fn parse_job_status(decoded: Option<JobStatus>, text: &str) -> (r: Result<JobStatus, String>)
    ensures
        match r {
            Ok(s) => job_status_of(decoded, text@) == Ok::<JobStatus, Text>(s),
            Err(e) => job_status_of(decoded, text@) == Err::<JobStatus, Text>(e@),
        },
{
    if let Some(s) = decoded {
        return Ok(s);
    }
    if text::str_eq(text, "pending") {
        Ok(JobStatus::Pending)
    } else if text::str_eq(text, "running") {
        Ok(JobStatus::Running)
    } else if text::str_eq(text, "done") {
        Ok(JobStatus::Done)
    } else if text::str_eq(text, "failed") {
        Ok(JobStatus::Failed)
    } else if text::str_eq(text, "killed") {
        Ok(JobStatus::Killed)
    } else if text::str_eq(text, "cancelled") {
        Ok(JobStatus::Cancelled(CancelReason::User))
    } else {
        Err(text::concat2("unknown job status encoding: ", text))
    }
}

/// `s` without `c` at either end.
pub open spec fn trim_char(s: Text, c: char) -> Text
    decreases s.len(),
{
    if s.len() == 0 {
        s
    } else if s[0] == c {
        trim_char(s.skip(1), c)
    } else if s.last() == c {
        trim_char(s.drop_last(), c)
    } else {
        s
    }
}

fn str_trim_char(s: &str, c: char) -> (r: String)
    ensures
        r@ == trim_char(s@, c),
{
    let v = text::chars_of(s);
    let mut from: usize = 0;
    let mut to: usize = v.len();
    assert(v@.subrange(0, to as int) =~= v@);
    while from < to && v[from] == c
        invariant
            from <= to <= v@.len(),
            trim_char(v@.subrange(from as int, to as int), c) == trim_char(v@, c),
        decreases to - from,
    {
        assert(v@.subrange(from as int, to as int).skip(1) =~= v@.subrange(from + 1, to as int));
        from = from + 1;
    }
    while from < to && v[to - 1] == c
        invariant
            from <= to <= v@.len(),
            from < to ==> v@[from as int] != c,
            trim_char(v@.subrange(from as int, to as int), c) == trim_char(v@, c),
        decreases to - from,
    {
        assert(v@.subrange(from as int, to as int).drop_last() =~= v@.subrange(
            from as int,
            to - 1,
        ));
        to = to - 1;
    }
    text::string_of(&v, from, to)
}

pub open spec fn plain_cron_status(text: Text) -> Option<CronStatus> {
    if text == "scheduled"@ || text == "enabled"@ {
        Some(CronStatus::Scheduled)
    } else if text == "paused"@ || text == "disabled"@ {
        Some(CronStatus::Paused)
    } else if text == "completed"@ || text == "done"@ {
        Some(CronStatus::Completed)
    } else if text == "expired"@ {
        Some(CronStatus::Expired)
    } else if text == "failed"@ {
        Some(CronStatus::Failed)
    } else {
        None
    }
}

/// The state in a row: as decoded, else by its word, quoted or not.
pub open spec fn cron_status_of(decoded: Option<CronStatus>, text: Text) -> Result<CronStatus, Text> {
    match decoded {
        Some(s) => Ok(s),
        None => match plain_cron_status(trim_char(text, '"')) {
            Some(s) => Ok(s),
            None => Err("unknown cron status "@ + text::debug_text(trim_char(text, '"'))),
        },
    }
}

/// Reads a stored cron state. `decoded` is what it decodes to, if it does.
pub fn parse_cron_status(decoded: Option<CronStatus>, text: &str) -> (r: Result<CronStatus, String>)
    ensures
        match r {
            Ok(s) => cron_status_of(decoded, text@) == Ok::<CronStatus, Text>(s),
            Err(e) => cron_status_of(decoded, text@) == Err::<CronStatus, Text>(e@),
        },
{
    if let Some(s) = decoded {
        return Ok(s);
    }
    let word = str_trim_char(text, '"');
    let w = word.as_str();
    if text::str_eq(w, "scheduled") || text::str_eq(w, "enabled") {
        Ok(CronStatus::Scheduled)
    } else if text::str_eq(w, "paused") || text::str_eq(w, "disabled") {
        Ok(CronStatus::Paused)
    } else if text::str_eq(w, "completed") || text::str_eq(w, "done") {
        Ok(CronStatus::Completed)
    } else if text::str_eq(w, "expired") {
        Ok(CronStatus::Expired)
    } else if text::str_eq(w, "failed") {
        Ok(CronStatus::Failed)
    } else {
        Err(text::concat2("unknown cron status ", text::debug_str(w).as_str()))
    }
}

/// How far a script run has come.
#[derive(Debug, Clone, Copy, PartialEq, Eq, Structural)]
pub enum StoredScriptRunStatus {
    Submitted,
    PartialError,
    Done,
    Failed,
}

/// Whether a script run has come to its end.
pub open spec fn script_ended(s: StoredScriptRunStatus) -> bool {
    s == StoredScriptRunStatus::Done || s == StoredScriptRunStatus::Failed
}

pub open spec fn script_status_text(s: StoredScriptRunStatus) -> Text {
    match s {
        StoredScriptRunStatus::Submitted => "submitted"@,
        StoredScriptRunStatus::PartialError => "partial_error"@,
        StoredScriptRunStatus::Done => "done"@,
        StoredScriptRunStatus::Failed => "failed"@,
    }
}

impl StoredScriptRunStatus {
    pub fn as_str(self) -> (r: &'static str)
        ensures
            r@ == script_status_text(self),
    {
        match self {
            StoredScriptRunStatus::Submitted => "submitted",
            StoredScriptRunStatus::PartialError => "partial_error",
            StoredScriptRunStatus::Done => "done",
            StoredScriptRunStatus::Failed => "failed",
        }
    }

    pub fn is_terminal(self) -> (r: bool)
        ensures
            r == script_ended(self),
    {
        match self {
            StoredScriptRunStatus::Done => true,
            StoredScriptRunStatus::Failed => true,
            _ => false,
        }
    }
}

/// Whether a cron with this state runs.
pub fn cron_enabled(status: CronStatus) -> (r: bool)
    ensures
        r == (status == CronStatus::Scheduled),
{
    match status {
        CronStatus::Scheduled => true,
        _ => false,
    }
}

// ── Jobs ──

#[derive(Debug, PartialEq, Eq)]
pub struct StoredJob {
    pub id: String,
    pub pipeline: String,
    pub status: JobStatus,
    pub exit_code: Option<i32>,
    pub start_scope: Option<ScopeHash>,
    pub end_scope: Option<ScopeHash>,
    pub chain_id: Option<String>,
    /// Captured stderr text. Empty for jobs on a terminal, whose streams are
    /// merged.
    pub stderr: String,
}

/// A job over character and byte sequences.
pub struct JobModel {
    pub id: Text,
    pub pipeline: Text,
    pub status: JobStatus,
    pub exit_code: Option<i32>,
    pub start_scope: Option<Seq<u8>>,
    pub end_scope: Option<Seq<u8>>,
    pub chain_id: Option<Text>,
    pub stderr: Text,
}

impl View for StoredJob {
    type V = JobModel;

    open spec fn view(&self) -> JobModel {
        JobModel {
            id: self.id@,
            pipeline: self.pipeline@,
            status: self.status,
            exit_code: self.exit_code,
            start_scope: opt_hash(self.start_scope),
            end_scope: opt_hash(self.end_scope),
            chain_id: text::opt_text(self.chain_id),
            stderr: self.stderr@,
        }
    }
}

/// A row of the job history.
#[derive(Debug)]
pub struct JobHistoryRow {
    pub id: String,
    pub pipeline: String,
    pub status_text: String,
    /// What `status_text` decodes to, if it does.
    pub decoded_status: Option<JobStatus>,
    pub exit_code: Option<i32>,
    pub start_scope: Option<Vec<u8>>,
    pub end_scope: Option<Vec<u8>>,
    pub chain_id: Option<String>,
    pub stderr: String,
}

/// The job in a row, with its number.
pub open spec fn job_of(row: JobHistoryRow) -> Result<(u32, JobModel), Text> {
    match numbered('J', "job history"@, row.id@) {
        Err(e) => Err(e),
        Ok(n) => match job_status_of(row.decoded_status, row.status_text@) {
            Err(e) => Err(e),
            Ok(status) => match opt_hash_of(opt_blob(row.start_scope)) {
                Err(e) => Err(e),
                Ok(start_scope) => match opt_hash_of(opt_blob(row.end_scope)) {
                    Err(e) => Err(e),
                    Ok(end_scope) => Ok(
                        (
                            n as u32,
                            JobModel {
                                id: row.id@,
                                pipeline: row.pipeline@,
                                status,
                                exit_code: row.exit_code,
                                start_scope,
                                end_scope,
                                chain_id: text::opt_text(row.chain_id),
                                stderr: row.stderr@,
                            },
                        ),
                    ),
                },
            },
        },
    }
}

/// The jobs in rows, in their order; the first row that holds none decides.
pub open spec fn jobs_of(rows: Seq<JobHistoryRow>) -> Result<Seq<(u32, JobModel)>, Text>
    decreases rows.len(),
{
    if rows.len() == 0 {
        Ok(Seq::empty())
    } else {
        match jobs_of(rows.drop_last()) {
            Err(e) => Err(e),
            Ok(before) => match job_of(rows.last()) {
                Err(e) => Err(e),
                Ok(job) => Ok(before.push(job)),
            },
        }
    }
}

proof fn lemma_jobs_error(rows: Seq<JobHistoryRow>, n: int)
    requires
        0 <= n <= rows.len(),
        jobs_of(rows.take(n)) is Err,
    ensures
        jobs_of(rows) == jobs_of(rows.take(n)),
    decreases rows.len() - n,
{
    if n == rows.len() {
        assert(rows.take(n) =~= rows);
    } else {
        assert(rows.take(n + 1).drop_last() =~= rows.take(n));
        lemma_jobs_error(rows, n + 1);
    }
}

fn read_job(row: JobHistoryRow) -> (r: Result<(u32, StoredJob), String>)
    ensures
        match r {
            Ok((n, job)) => job_of(row) == Ok::<(u32, JobModel), Text>((n, job@)),
            Err(e) => job_of(row) == Err::<(u32, JobModel), Text>(e@),
        },
{
    let n = match parse_job_history_id(row.id.as_str()) {
        Ok(n) => n,
        Err(e) => {
            return Err(e);
        },
    };
    let status = match parse_job_status(row.decoded_status, row.status_text.as_str()) {
        Ok(s) => s,
        Err(e) => {
            return Err(e);
        },
    };
    let start_scope = match opt_scope_hash(&row.start_scope) {
        Ok(h) => h,
        Err(e) => {
            return Err(e);
        },
    };
    let end_scope = match opt_scope_hash(&row.end_scope) {
        Ok(h) => h,
        Err(e) => {
            return Err(e);
        },
    };
    Ok(
        (
            n,
            StoredJob {
                id: row.id,
                pipeline: row.pipeline,
                status,
                exit_code: row.exit_code,
                start_scope,
                end_scope,
                chain_id: row.chain_id,
                stderr: row.stderr,
            },
        ),
    )
}

pub open spec fn job_view() -> spec_fn(StoredJob) -> JobModel {
    |j: StoredJob| j@
}

/// The jobs of the history, by ascending number.
pub fn load_job_history(rows: Vec<JobHistoryRow>) -> (r: Result<Vec<StoredJob>, String>)
    ensures
        match r {
            Ok(jobs) => jobs_of(rows@) matches Ok(found) && jobs@.map_values(job_view())
                == values_of(by_key(found)),
            Err(e) => jobs_of(rows@) == Err::<Seq<(u32, JobModel)>, Text>(e@),
        },
{
    let ghost all = rows@;
    let mut rest = rows;
    let mut found: Vec<(u32, StoredJob)> = Vec::new();
    let n: usize = rest.len();
    let mut i: usize = 0;
    assert(all.skip(0) =~= all);
    assert(map_second(found@, job_view()) =~= Seq::<(u32, JobModel)>::empty());
    assert(all.take(0) =~= Seq::<JobHistoryRow>::empty());
    while i < n
        invariant
            i <= n,
            n == all.len(),
            all == rows@,
            rest@ == all.skip(i as int),
            jobs_of(all.take(i as int)) == Ok::<Seq<(u32, JobModel)>, Text>(
                map_second(found@, job_view()),
            ),
        decreases n - i,
    {
        let row = rest.remove(0);
        proof {
            assert(rest@ =~= all.skip(i + 1));
            assert(all.take(i + 1).drop_last() =~= all.take(i as int));
            assert(all.take(i + 1).last() == row);
        }
        match read_job(row) {
            Err(e) => {
                proof {
                    lemma_jobs_error(all, i + 1);
                }
                return Err(e);
            },
            Ok(job) => {
                let ghost before = found@;
                found.push(job);
                assert(map_second(found@, job_view()) =~= map_second(before, job_view()).push(
                    (job.0, job.1@),
                ));
            },
        }
        i = i + 1;
    }
    assert(all.take(i as int) =~= all);
    let ghost collected = found@;
    let sorted = order::sort_by_key(found);
    proof {
        order::lemma_by_key_map(collected, job_view());
        assert(values_of(map_second(sorted@, job_view())) =~= values_of(sorted@).map_values(
            job_view(),
        ));
    }
    Ok(order::take_values(sorted))
}

// ── Crons ──

#[derive(Debug, PartialEq, Eq)]
pub struct StoredCron {
    pub id: String,
    pub schedule: String,
    pub command: String,
    pub status: CronStatus,
    pub scope_hash: Option<ScopeHash>,
    pub cwd_override: Option<String>,
    pub scope_enabled: bool,
    pub wrapper_enabled: bool,
}

#[derive(Debug, PartialEq, Eq)]
pub struct LoadedCron {
    pub record: StoredCron,
    pub elapsed: Duration,
}

/// A cron over character and byte sequences, with its age in milliseconds.
pub struct LoadedCronModel {
    pub id: Text,
    pub schedule: Text,
    pub command: Text,
    pub status: CronStatus,
    pub scope_hash: Option<Seq<u8>>,
    pub cwd_override: Option<Text>,
    pub scope_enabled: bool,
    pub wrapper_enabled: bool,
    pub elapsed_millis: int,
}

impl View for LoadedCron {
    type V = LoadedCronModel;

    open spec fn view(&self) -> LoadedCronModel {
        LoadedCronModel {
            id: self.record.id@,
            schedule: self.record.schedule@,
            command: self.record.command@,
            status: self.record.status,
            scope_hash: opt_hash(self.record.scope_hash),
            cwd_override: text::opt_text(self.record.cwd_override),
            scope_enabled: self.record.scope_enabled,
            wrapper_enabled: self.record.wrapper_enabled,
            elapsed_millis: self.elapsed.total_millis() as int,
        }
    }
}

/// A row of the crons.
#[derive(Debug)]
pub struct CronTableRow {
    pub id: String,
    pub schedule: String,
    pub command: String,
    pub scope_hash: Option<Vec<u8>>,
    pub status_text: String,
    /// What `status_text` decodes to, if it does.
    pub decoded_status: Option<CronStatus>,
    pub cwd_override: Option<String>,
    pub scope_enabled: i64,
    pub wrapper_enabled: i64,
    pub age_millis: i64,
}

/// The cron in a row, with its number.
pub open spec fn cron_of(row: CronTableRow) -> Result<(u32, LoadedCronModel), Text> {
    match numbered('C', "cron"@, row.id@) {
        Err(e) => Err(e),
        Ok(n) => match cron_status_of(row.decoded_status, row.status_text@) {
            Err(e) => Err("parse cron "@ + row.id@ + " status: "@ + e),
            Ok(status) => match opt_hash_of(opt_blob(row.scope_hash)) {
                Err(e) => Err(e),
                Ok(scope_hash) => if row.age_millis < 0 {
                    Err("load cron elapsed age: cron created_at is in the future"@)
                } else {
                    Ok(
                        (
                            n as u32,
                            LoadedCronModel {
                                id: row.id@,
                                schedule: row.schedule@,
                                command: row.command@,
                                status,
                                scope_hash,
                                cwd_override: text::opt_text(row.cwd_override),
                                scope_enabled: row.scope_enabled != 0,
                                wrapper_enabled: row.wrapper_enabled != 0,
                                elapsed_millis: row.age_millis as int,
                            },
                        ),
                    )
                },
            },
        },
    }
}

/// The crons in rows, in their order; the first row that holds none decides.
pub open spec fn crons_of(rows: Seq<CronTableRow>) -> Result<Seq<(u32, LoadedCronModel)>, Text>
    decreases rows.len(),
{
    if rows.len() == 0 {
        Ok(Seq::empty())
    } else {
        match crons_of(rows.drop_last()) {
            Err(e) => Err(e),
            Ok(before) => match cron_of(rows.last()) {
                Err(e) => Err(e),
                Ok(cron) => Ok(before.push(cron)),
            },
        }
    }
}

proof fn lemma_crons_error(rows: Seq<CronTableRow>, n: int)
    requires
        0 <= n <= rows.len(),
        crons_of(rows.take(n)) is Err,
    ensures
        crons_of(rows) == crons_of(rows.take(n)),
    decreases rows.len() - n,
{
    if n == rows.len() {
        assert(rows.take(n) =~= rows);
    } else {
        assert(rows.take(n + 1).drop_last() =~= rows.take(n));
        lemma_crons_error(rows, n + 1);
    }
}

fn read_cron(row: CronTableRow) -> (r: Result<(u32, LoadedCron), String>)
    ensures
        match r {
            Ok((n, cron)) => cron_of(row) == Ok::<(u32, LoadedCronModel), Text>((n, cron@)),
            Err(e) => cron_of(row) == Err::<(u32, LoadedCronModel), Text>(e@),
        },
{
    let n = match parse_cron_id(row.id.as_str()) {
        Ok(n) => n,
        Err(e) => {
            return Err(e);
        },
    };
    let status = match parse_cron_status(row.decoded_status, row.status_text.as_str()) {
        Ok(s) => s,
        Err(e) => {
            return Err(text::concat4("parse cron ", row.id.as_str(), " status: ", e.as_str()));
        },
    };
    let scope_hash = match opt_scope_hash(&row.scope_hash) {
        Ok(h) => h,
        Err(e) => {
            return Err(e);
        },
    };
    let elapsed = match duration_from_nonnegative_millis(row.age_millis) {
        Some(d) => d,
        None => {
            return Err("load cron elapsed age: cron created_at is in the future".to_owned());
        },
    };
    Ok(
        (
            n,
            LoadedCron {
                record: StoredCron {
                    id: row.id,
                    schedule: row.schedule,
                    command: row.command,
                    status,
                    scope_hash,
                    cwd_override: row.cwd_override,
                    scope_enabled: row.scope_enabled != 0,
                    wrapper_enabled: row.wrapper_enabled != 0,
                },
                elapsed,
            },
        ),
    )
}

pub open spec fn cron_view() -> spec_fn(LoadedCron) -> LoadedCronModel {
    |c: LoadedCron| c@
}

/// The crons, by ascending number.
pub fn load_crons(rows: Vec<CronTableRow>) -> (r: Result<Vec<LoadedCron>, String>)
    ensures
        match r {
            Ok(crons) => crons_of(rows@) matches Ok(found) && crons@.map_values(cron_view())
                == values_of(by_key(found)),
            Err(e) => crons_of(rows@) == Err::<Seq<(u32, LoadedCronModel)>, Text>(e@),
        },
{
    let ghost all = rows@;
    let mut rest = rows;
    let mut found: Vec<(u32, LoadedCron)> = Vec::new();
    let n: usize = rest.len();
    let mut i: usize = 0;
    assert(all.skip(0) =~= all);
    assert(map_second(found@, cron_view()) =~= Seq::<(u32, LoadedCronModel)>::empty());
    assert(all.take(0) =~= Seq::<CronTableRow>::empty());
    while i < n
        invariant
            i <= n,
            n == all.len(),
            all == rows@,
            rest@ == all.skip(i as int),
            crons_of(all.take(i as int)) == Ok::<Seq<(u32, LoadedCronModel)>, Text>(
                map_second(found@, cron_view()),
            ),
        decreases n - i,
    {
        let row = rest.remove(0);
        proof {
            assert(rest@ =~= all.skip(i + 1));
            assert(all.take(i + 1).drop_last() =~= all.take(i as int));
            assert(all.take(i + 1).last() == row);
        }
        match read_cron(row) {
            Err(e) => {
                proof {
                    lemma_crons_error(all, i + 1);
                }
                return Err(e);
            },
            Ok(cron) => {
                let ghost before = found@;
                found.push(cron);
                assert(map_second(found@, cron_view()) =~= map_second(before, cron_view()).push(
                    (cron.0, cron.1@),
                ));
            },
        }
        i = i + 1;
    }
    assert(all.take(i as int) =~= all);
    let ghost collected = found@;
    let sorted = order::sort_by_key(found);
    proof {
        order::lemma_by_key_map(collected, cron_view());
        assert(values_of(map_second(sorted@, cron_view())) =~= values_of(sorted@).map_values(
            cron_view(),
        ));
    }
    Ok(order::take_values(sorted))
}

// ── Script runs ──

#[derive(Debug, PartialEq, Eq)]
pub struct StoredScriptRun {
    pub id: String,
    pub mode: String,
    pub input: String,
    pub status: StoredScriptRunStatus,
    pub item_count: usize,
    pub error_code: Option<String>,
    pub error_message: Option<String>,
    pub exit_code: Option<i32>,
    pub failed_item_index: Option<usize>,
}

#[derive(Debug, PartialEq, Eq)]
pub struct StoredScriptItem {
    pub script_id: String,
    pub item_index: usize,
    pub source_text: String,
    pub kind: String,
    pub target_id: Option<String>,
    pub chain_id: Option<String>,
    pub job_ids: Vec<String>,
}

// ── Numbered IDs ──

/// IDs with their numbers; the first ID without one decides.
pub open spec fn numbered_ids(prefix: char, what: Text, ids: Seq<Text>) -> Result<
    Seq<(u32, Text)>,
    Text,
>
    decreases ids.len(),
{
    if ids.len() == 0 {
        Ok(Seq::empty())
    } else {
        match numbered_ids(prefix, what, ids.drop_last()) {
            Err(e) => Err(e),
            Ok(before) => match numbered(prefix, what, ids.last()) {
                Err(e) => Err(e),
                Ok(n) => Ok(before.push((n as u32, ids.last()))),
            },
        }
    }
}

proof fn lemma_ids_error(prefix: char, what: Text, ids: Seq<Text>, n: int)
    requires
        0 <= n <= ids.len(),
        numbered_ids(prefix, what, ids.take(n)) is Err,
    ensures
        numbered_ids(prefix, what, ids) == numbered_ids(prefix, what, ids.take(n)),
    decreases ids.len() - n,
{
    if n == ids.len() {
        assert(ids.take(n) =~= ids);
    } else {
        assert(ids.take(n + 1).drop_last() =~= ids.take(n));
        lemma_ids_error(prefix, what, ids, n + 1);
    }
}

pub open spec fn string_view() -> spec_fn(String) -> Text {
    |s: String| s@
}

fn number_ids(prefix: char, what: &str, ids: &Vec<String>) -> (r: Result<Vec<(u32, String)>, String>)
    ensures
        match r {
            Ok(found) => numbered_ids(prefix, what@, text::texts(ids@)) == Ok::<Seq<(u32, Text)>, Text>(
                map_second(found@, string_view()),
            ),
            Err(e) => numbered_ids(prefix, what@, text::texts(ids@)) == Err::<Seq<(u32, Text)>, Text>(e@),
        },
{
    let ghost all = text::texts(ids@);
    let mut found: Vec<(u32, String)> = Vec::new();
    let mut i: usize = 0;
    assert(all.take(0) =~= Seq::<Text>::empty());
    assert(map_second(found@, string_view()) =~= Seq::<(u32, Text)>::empty());
    while i < ids.len()
        invariant
            i <= ids@.len(),
            all == text::texts(ids@),
            numbered_ids(prefix, what@, all.take(i as int)) == Ok::<Seq<(u32, Text)>, Text>(
                map_second(found@, string_view()),
            ),
        decreases ids@.len() - i,
    {
        let id = ids[i].clone();
        proof {
            assert(all.take(i + 1).drop_last() =~= all.take(i as int));
            assert(all.take(i + 1).last() == id@);
        }
        match parse_numbered(prefix, what, id.as_str()) {
            Err(e) => {
                proof {
                    lemma_ids_error(prefix, what@, all, i + 1);
                }
                return Err(e);
            },
            Ok(n) => {
                let ghost before = found@;
                let ghost shown = id@;
                found.push((n, id));
                assert(map_second(found@, string_view()) =~= map_second(before, string_view()).push(
                    (n, shown),
                ));
            },
        }
        i = i + 1;
    }
    assert(all.take(i as int) =~= all);
    Ok(found)
}

/// The IDs to remove so that `keep` remain: those with the lowest numbers.
pub open spec fn pruned(found: Seq<(u32, Text)>, keep: nat) -> Seq<Text> {
    values_of(by_key(found)).take(
        if found.len() >= keep {
            found.len() - keep
        } else {
            0
        },
    )
}

fn prune(prefix: char, what: &str, ids: &Vec<String>, keep: usize) -> (r: Result<
    Vec<String>,
    String,
>)
    ensures
        match r {
            Ok(removed) => numbered_ids(prefix, what@, text::texts(ids@)) matches Ok(found) && text::texts(
                removed@,
            ) == pruned(found, keep as nat),
            Err(e) => numbered_ids(prefix, what@, text::texts(ids@)) == Err::<Seq<(u32, Text)>, Text>(e@),
        },
{
    let found = match number_ids(prefix, what, ids) {
        Ok(f) => f,
        Err(e) => {
            return Err(e);
        },
    };
    let ghost collected = found@;
    let count: usize = found.len();
    let sorted = order::sort_by_key(found);
    proof {
        order::lemma_by_key_map(collected, string_view());
        order::lemma_by_key_sorts(collected);
        assert(values_of(map_second(sorted@, string_view())) =~= text::texts(values_of(sorted@)));
    }
    let mut removed = order::take_values(sorted);
    let drop_count: usize = if count >= keep {
        count - keep
    } else {
        0
    };
    let ghost whole = removed@;
    removed.truncate(drop_count);
    assert(text::texts(removed@) =~= text::texts(whole).take(drop_count as int));
    Ok(removed)
}

/// The job history IDs to delete so that the `keep` newest jobs stay. Nothing
/// is deleted if one of the IDs is invalid.
pub fn prune_job_history(ids: &Vec<String>, keep: usize) -> (r: Result<Vec<String>, String>)
    ensures
        match r {
            Ok(removed) => numbered_ids('J', "job history"@, text::texts(ids@)) matches Ok(found)
                && text::texts(removed@) == pruned(found, keep as nat),
            Err(e) => numbered_ids('J', "job history"@, text::texts(ids@)) == Err::<
                Seq<(u32, Text)>,
                Text,
            >(e@),
        },
{
    prune('J', "job history", ids, keep)
}

/// The script run IDs to delete so that the `keep` newest runs stay. Nothing is
/// deleted if one of the IDs is invalid.
pub fn prune_script_runs(ids: &Vec<String>, keep: usize) -> (r: Result<Vec<String>, String>)
    ensures
        match r {
            Ok(removed) => numbered_ids('R', "script run"@, text::texts(ids@)) matches Ok(found) && text::texts(
                removed@,
            ) == pruned(found, keep as nat),
            Err(e) => numbered_ids('R', "script run"@, text::texts(ids@)) == Err::<
                Seq<(u32, Text)>,
                Text,
            >(e@),
        },
{
    prune('R', "script run", ids, keep)
}

/// The highest number.
pub open spec fn highest(found: Seq<(u32, Text)>) -> Option<u32>
    decreases found.len(),
{
    if found.len() == 0 {
        None
    } else {
        match highest(found.drop_last()) {
            None => Some(found.last().0),
            Some(n) => Some(
                if n >= found.last().0 {
                    n
                } else {
                    found.last().0
                },
            ),
        }
    }
}

/// The highest number of a script run, if there are any.
pub fn max_script_run_id(ids: &Vec<String>) -> (r: Result<Option<u32>, String>)
    ensures
        match r {
            Ok(max) => numbered_ids('R', "script run"@, text::texts(ids@)) matches Ok(found) && max
                == highest(found),
            Err(e) => numbered_ids('R', "script run"@, text::texts(ids@)) == Err::<
                Seq<(u32, Text)>,
                Text,
            >(e@),
        },
{
    let found = match number_ids('R', "script run", ids) {
        Ok(f) => f,
        Err(e) => {
            return Err(e);
        },
    };
    let ghost all = map_second(found@, string_view());
    let mut max: Option<u32> = None;
    let mut i: usize = 0;
    assert(all.take(0) =~= Seq::<(u32, Text)>::empty());
    while i < found.len()
        invariant
            i <= found@.len(),
            all == map_second(found@, string_view()),
            max == highest(all.take(i as int)),
        decreases found@.len() - i,
    {
        let n = found[i].0;
        proof {
            assert(all.take(i + 1).drop_last() =~= all.take(i as int));
            assert(all.take(i + 1).last().0 == n);
        }
        max = match max {
            None => Some(n),
            Some(m) => Some(
                if m >= n {
                    m
                } else {
                    n
                },
            ),
        };
        i = i + 1;
    }
    assert(all.take(i as int) =~= all);
    Ok(max)
}

// ── Laws ──

/// Pruning removes no more than it has to, and what it removes is not newer
/// than what it keeps.
pub proof fn lemma_prune_keeps_newest(found: Seq<(u32, Text)>, keep: nat, i: int, j: int)
    requires
        0 <= i < pruned(found, keep).len(),
        pruned(found, keep).len() <= j < found.len(),
    ensures
        pruned(found, keep).len() + keep == found.len(),
        by_key(found).to_multiset() == found.to_multiset(),
        by_key(found)[i].1 == pruned(found, keep)[i],
        by_key(found)[i].0 <= by_key(found)[j].0,
{
    order::lemma_by_key_sorts(found);
}

/// With room for all of them, nothing is pruned.
pub proof fn lemma_prune_within_limit(found: Seq<(u32, Text)>, keep: nat)
    requires
        found.len() <= keep,
    ensures
        pruned(found, keep) == Seq::<Text>::empty(),
{
    order::lemma_by_key_sorts(found);
    assert(pruned(found, keep) =~= Seq::<Text>::empty());
}

/// The number of an ID is read back from its text.
pub proof fn lemma_id_read_back(prefix: char, n: u32)
    ensures
        id_number(prefix, seq![prefix] + text::decimal(n as nat)) == Some(n as nat),
{
    let id = seq![prefix] + text::decimal(n as nat);
    text::lemma_decimal_read_back(n as nat, u32::MAX as nat);
    assert(id.skip(1) =~= text::decimal(n as nat));
}

} // verus!
