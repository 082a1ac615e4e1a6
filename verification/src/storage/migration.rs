//! Schema migrations: which statements bring a database of one version to the
//! current one.

use vstd::prelude::*;
use vstd::string::*;

use crate::text;
use crate::text::Text;

verus! {

/// The current schema version.
pub const SCHEMA_VERSION: u32 = 14;

/// One step of a migration.
#[derive(Debug)]
pub enum MigrationStep {
    /// Run the statements, unless the column (table, column) is there already.
    /// `context` says what failed if they fail.
    Execute { unless: Option<(String, String)>, sql: String, context: String },
    /// Record the version that has been reached.
    SetVersion(u32),
}

/// A step over character sequences.
pub enum StepModel {
    Execute { unless: Option<(Text, Text)>, sql: Text, context: Text },
    SetVersion(u32),
}

impl View for MigrationStep {
    type V = StepModel;

    open spec fn view(&self) -> StepModel {
        match self {
            MigrationStep::Execute { unless, sql, context } => StepModel::Execute {
                unless: match unless {
                    Some((t, c)) => Some((t@, c@)),
                    None => None,
                },
                sql: sql@,
                context: context@,
            },
            MigrationStep::SetVersion(v) => StepModel::SetVersion(*v),
        }
    }
}

pub open spec fn step_models(v: Seq<MigrationStep>) -> Seq<StepModel> {
    v.map_values(|s: MigrationStep| s@)
}

/// Statements that run in any case.
pub open spec fn run(sql: Text, context: Text) -> StepModel {
    StepModel::Execute { unless: None, sql, context }
}

/// Statements that add a column.
pub open spec fn run_unless(table: Text, column: Text, sql: Text, context: Text) -> StepModel {
    StepModel::Execute { unless: Some((table, column)), sql, context }
}

/// The tables of the first version.
pub open spec fn schema_v1() -> Text {
    "
CREATE TABLE IF NOT EXISTS scopes (
    hash        BLOB PRIMARY KEY,
    parent      BLOB,
    delta_json  TEXT,
    snap_json   TEXT
);

CREATE TABLE IF NOT EXISTS scope_head (
    id   INTEGER PRIMARY KEY CHECK (id = 0),
    hash BLOB NOT NULL
);

CREATE TABLE IF NOT EXISTS crons (
    id          TEXT PRIMARY KEY,
    schedule    TEXT NOT NULL,
    command     TEXT NOT NULL,
    enabled     INTEGER NOT NULL DEFAULT 1,
    scope_hash  BLOB,
    cwd_override TEXT,
    scope_enabled INTEGER NOT NULL DEFAULT 0,
    wrapper_enabled INTEGER NOT NULL DEFAULT 0,
    created_at  TEXT NOT NULL DEFAULT (datetime('now')),
    created_at_ms INTEGER
);

CREATE TABLE IF NOT EXISTS jobs_history (
    id          TEXT PRIMARY KEY,
    pipeline    TEXT NOT NULL,
    status      TEXT NOT NULL,
    exit_code   INTEGER,
    scope_hash  BLOB,
    start_scope BLOB,
    end_scope   BLOB,
    created_at  TEXT NOT NULL DEFAULT (datetime('now')),
    finished_at TEXT
);

CREATE TABLE IF NOT EXISTS config_cache (
    key   TEXT PRIMARY KEY,
    value TEXT NOT NULL
);
"@
}

/// The tables for script runs.
pub open spec fn schema_v9() -> Text {
    "
CREATE TABLE IF NOT EXISTS script_runs (
    id            TEXT PRIMARY KEY,
    mode          TEXT NOT NULL,
    input         TEXT NOT NULL,
    status        TEXT NOT NULL,
    item_count    INTEGER NOT NULL,
    error_code    TEXT,
    error_message TEXT,
    created_at    TEXT NOT NULL DEFAULT (datetime('now'))
);

CREATE TABLE IF NOT EXISTS script_items (
    script_id     TEXT NOT NULL REFERENCES script_runs(id) ON DELETE CASCADE,
    item_index    INTEGER NOT NULL,
    source_text   TEXT NOT NULL,
    kind          TEXT NOT NULL,
    target_id     TEXT,
    chain_id      TEXT,
    job_ids_json  TEXT NOT NULL DEFAULT '[]',
    PRIMARY KEY (script_id, item_index)
);
"@
}

/// What brings a database of the version before to version `v`.
pub open spec fn steps_to(v: u32) -> Seq<StepModel> {
    if v == 1 {
        seq![run(schema_v1(), "failed to run schema migration v1"@)]
    } else if v == 2 {
        seq![
            run_unless(
                "crons"@,
                "scope_hash"@,
                "ALTER TABLE crons ADD COLUMN scope_hash BLOB;"@,
                "failed to run schema migration v2"@,
            ),
        ]
    } else if v == 3 {
        seq![
            run_unless(
                "jobs_history"@,
                "start_scope"@,
                "ALTER TABLE jobs_history ADD COLUMN start_scope BLOB;"@,
                "failed to add jobs_history.start_scope"@,
            ),
            run_unless(
                "jobs_history"@,
                "end_scope"@,
                "ALTER TABLE jobs_history ADD COLUMN end_scope BLOB;"@,
                "failed to add jobs_history.end_scope"@,
            ),
            run(
                "UPDATE jobs_history SET start_scope = COALESCE(start_scope, scope_hash), end_scope = COALESCE(end_scope, scope_hash) WHERE start_scope IS NULL OR end_scope IS NULL;"@,
                "failed to backfill jobs_history start/end scope"@,
            ),
        ]
    } else if v == 6 {
        seq![
            run_unless(
                "crons"@,
                "status"@,
                "ALTER TABLE crons ADD COLUMN status TEXT;"@,
                "failed to add crons.status"@,
            ),
            run(
                "UPDATE crons SET status = CASE WHEN enabled != 0 THEN 'scheduled' ELSE 'paused' END WHERE status IS NULL OR status = '';"@,
                "failed to backfill crons.status"@,
            ),
        ]
    } else if v == 7 {
        seq![
            run_unless(
                "jobs_history"@,
                "chain_id"@,
                "ALTER TABLE jobs_history ADD COLUMN chain_id TEXT;"@,
                "failed to add jobs_history.chain_id"@,
            ),
        ]
    } else if v == 8 {
        seq![
            run_unless(
                "jobs_history"@,
                "stderr"@,
                "ALTER TABLE jobs_history ADD COLUMN stderr TEXT NOT NULL DEFAULT '';"@,
                "failed to add jobs_history.stderr"@,
            ),
        ]
    } else if v == 9 {
        seq![run(schema_v9(), "failed to run schema migration v9"@)]
    } else if v == 10 {
        seq![
            run_unless(
                "crons"@,
                "cwd_override"@,
                "ALTER TABLE crons ADD COLUMN cwd_override TEXT;"@,
                "failed to run schema migration v10"@,
            ),
        ]
    } else if v == 11 {
        seq![
            run_unless(
                "crons"@,
                "scope_enabled"@,
                "ALTER TABLE crons ADD COLUMN scope_enabled INTEGER NOT NULL DEFAULT 0;"@,
                "failed to run schema migration v11"@,
            ),
        ]
    } else if v == 12 {
        seq![
            run_unless(
                "crons"@,
                "wrapper_enabled"@,
                "ALTER TABLE crons ADD COLUMN wrapper_enabled INTEGER NOT NULL DEFAULT 0;"@,
                "failed to run schema migration v12"@,
            ),
        ]
    } else if v == 13 {
        seq![
            run_unless(
                "script_runs"@,
                "exit_code"@,
                "ALTER TABLE script_runs ADD COLUMN exit_code INTEGER;"@,
                "failed to add script_runs.exit_code"@,
            ),
            run_unless(
                "script_runs"@,
                "failed_item_index"@,
                "ALTER TABLE script_runs ADD COLUMN failed_item_index INTEGER;"@,
                "failed to add script_runs.failed_item_index"@,
            ),
            run_unless(
                "script_runs"@,
                "finished_at"@,
                "ALTER TABLE script_runs ADD COLUMN finished_at TEXT;"@,
                "failed to add script_runs.finished_at"@,
            ),
        ]
    } else if v == 14 {
        seq![
            run_unless(
                "crons"@,
                "created_at_ms"@,
                "ALTER TABLE crons ADD COLUMN created_at_ms INTEGER;"@,
                "failed to add crons.created_at_ms"@,
            ),
            run(
                "UPDATE crons SET created_at_ms = CAST((julianday(created_at) - 2440587.5) * 86400000 AS INTEGER) WHERE created_at_ms IS NULL;"@,
                "failed to backfill crons.created_at_ms"@,
            ),
        ]
    } else {
        Seq::empty()
    }
}

/// What brings a database of version `current` to the current one.
pub open spec fn plan_from(current: int) -> Seq<StepModel>
    decreases SCHEMA_VERSION - current,
{
    if current >= SCHEMA_VERSION {
        Seq::empty()
    } else {
        steps_to((current + 1) as u32).push(StepModel::SetVersion((current + 1) as u32))
            + plan_from(current + 1)
    }
}

fn exec_step(sql: &str, context: &str) -> (r: MigrationStep)
    ensures
        r@ == run(sql@, context@),
{
    MigrationStep::Execute { unless: None, sql: sql.to_owned(), context: context.to_owned() }
}

fn column_step(table: &str, column: &str, sql: &str, context: &str) -> (r: MigrationStep)
    ensures
        r@ == run_unless(table@, column@, sql@, context@),
{
    MigrationStep::Execute {
        unless: Some((table.to_owned(), column.to_owned())),
        sql: sql.to_owned(),
        context: context.to_owned(),
    }
}

fn steps1(a: MigrationStep) -> (r: Vec<MigrationStep>)
    ensures
        step_models(r@) == seq![a@],
{
    let r = vec![a];
    assert(step_models(r@) =~= seq![a@]);
    r
}

fn steps2(a: MigrationStep, b: MigrationStep) -> (r: Vec<MigrationStep>)
    ensures
        step_models(r@) == seq![a@, b@],
{
    let r = vec![a, b];
    assert(step_models(r@) =~= seq![a@, b@]);
    r
}

fn steps3(a: MigrationStep, b: MigrationStep, c: MigrationStep) -> (r: Vec<MigrationStep>)
    ensures
        step_models(r@) == seq![a@, b@, c@],
{
    let r = vec![a, b, c];
    assert(step_models(r@) =~= seq![a@, b@, c@]);
    r
}

fn version_steps(v: u32) -> (r: Vec<MigrationStep>)
    ensures
        step_models(r@) == steps_to(v),
{
    if v == 1 {
        steps1(
            exec_step(
                "
CREATE TABLE IF NOT EXISTS scopes (
    hash        BLOB PRIMARY KEY,
    parent      BLOB,
    delta_json  TEXT,
    snap_json   TEXT
);

CREATE TABLE IF NOT EXISTS scope_head (
    id   INTEGER PRIMARY KEY CHECK (id = 0),
    hash BLOB NOT NULL
);

CREATE TABLE IF NOT EXISTS crons (
    id          TEXT PRIMARY KEY,
    schedule    TEXT NOT NULL,
    command     TEXT NOT NULL,
    enabled     INTEGER NOT NULL DEFAULT 1,
    scope_hash  BLOB,
    cwd_override TEXT,
    scope_enabled INTEGER NOT NULL DEFAULT 0,
    wrapper_enabled INTEGER NOT NULL DEFAULT 0,
    created_at  TEXT NOT NULL DEFAULT (datetime('now')),
    created_at_ms INTEGER
);

CREATE TABLE IF NOT EXISTS jobs_history (
    id          TEXT PRIMARY KEY,
    pipeline    TEXT NOT NULL,
    status      TEXT NOT NULL,
    exit_code   INTEGER,
    scope_hash  BLOB,
    start_scope BLOB,
    end_scope   BLOB,
    created_at  TEXT NOT NULL DEFAULT (datetime('now')),
    finished_at TEXT
);

CREATE TABLE IF NOT EXISTS config_cache (
    key   TEXT PRIMARY KEY,
    value TEXT NOT NULL
);
",
                "failed to run schema migration v1",
            ),
        )
    } else if v == 2 {
        steps1(
            column_step(
                "crons",
                "scope_hash",
                "ALTER TABLE crons ADD COLUMN scope_hash BLOB;",
                "failed to run schema migration v2",
            ),
        )
    } else if v == 3 {
        steps3(
            column_step(
                "jobs_history",
                "start_scope",
                "ALTER TABLE jobs_history ADD COLUMN start_scope BLOB;",
                "failed to add jobs_history.start_scope",
            ),
            column_step(
                "jobs_history",
                "end_scope",
                "ALTER TABLE jobs_history ADD COLUMN end_scope BLOB;",
                "failed to add jobs_history.end_scope",
            ),
            exec_step(
                "UPDATE jobs_history SET start_scope = COALESCE(start_scope, scope_hash), end_scope = COALESCE(end_scope, scope_hash) WHERE start_scope IS NULL OR end_scope IS NULL;",
                "failed to backfill jobs_history start/end scope",
            ),
        )
    } else if v == 6 {
        steps2(
            column_step(
                "crons",
                "status",
                "ALTER TABLE crons ADD COLUMN status TEXT;",
                "failed to add crons.status",
            ),
            exec_step(
                "UPDATE crons SET status = CASE WHEN enabled != 0 THEN 'scheduled' ELSE 'paused' END WHERE status IS NULL OR status = '';",
                "failed to backfill crons.status",
            ),
        )
    } else if v == 7 {
        steps1(
            column_step(
                "jobs_history",
                "chain_id",
                "ALTER TABLE jobs_history ADD COLUMN chain_id TEXT;",
                "failed to add jobs_history.chain_id",
            ),
        )
    } else if v == 8 {
        steps1(
            column_step(
                "jobs_history",
                "stderr",
                "ALTER TABLE jobs_history ADD COLUMN stderr TEXT NOT NULL DEFAULT '';",
                "failed to add jobs_history.stderr",
            ),
        )
    } else if v == 9 {
        steps1(
            exec_step(
                "
CREATE TABLE IF NOT EXISTS script_runs (
    id            TEXT PRIMARY KEY,
    mode          TEXT NOT NULL,
    input         TEXT NOT NULL,
    status        TEXT NOT NULL,
    item_count    INTEGER NOT NULL,
    error_code    TEXT,
    error_message TEXT,
    created_at    TEXT NOT NULL DEFAULT (datetime('now'))
);

CREATE TABLE IF NOT EXISTS script_items (
    script_id     TEXT NOT NULL REFERENCES script_runs(id) ON DELETE CASCADE,
    item_index    INTEGER NOT NULL,
    source_text   TEXT NOT NULL,
    kind          TEXT NOT NULL,
    target_id     TEXT,
    chain_id      TEXT,
    job_ids_json  TEXT NOT NULL DEFAULT '[]',
    PRIMARY KEY (script_id, item_index)
);
",
                "failed to run schema migration v9",
            ),
        )
    } else if v == 10 {
        steps1(
            column_step(
                "crons",
                "cwd_override",
                "ALTER TABLE crons ADD COLUMN cwd_override TEXT;",
                "failed to run schema migration v10",
            ),
        )
    } else if v == 11 {
        steps1(
            column_step(
                "crons",
                "scope_enabled",
                "ALTER TABLE crons ADD COLUMN scope_enabled INTEGER NOT NULL DEFAULT 0;",
                "failed to run schema migration v11",
            ),
        )
    } else if v == 12 {
        steps1(
            column_step(
                "crons",
                "wrapper_enabled",
                "ALTER TABLE crons ADD COLUMN wrapper_enabled INTEGER NOT NULL DEFAULT 0;",
                "failed to run schema migration v12",
            ),
        )
    } else if v == 13 {
        steps3(
            column_step(
                "script_runs",
                "exit_code",
                "ALTER TABLE script_runs ADD COLUMN exit_code INTEGER;",
                "failed to add script_runs.exit_code",
            ),
            column_step(
                "script_runs",
                "failed_item_index",
                "ALTER TABLE script_runs ADD COLUMN failed_item_index INTEGER;",
                "failed to add script_runs.failed_item_index",
            ),
            column_step(
                "script_runs",
                "finished_at",
                "ALTER TABLE script_runs ADD COLUMN finished_at TEXT;",
                "failed to add script_runs.finished_at",
            ),
        )
    } else if v == 14 {
        steps2(
            column_step(
                "crons",
                "created_at_ms",
                "ALTER TABLE crons ADD COLUMN created_at_ms INTEGER;",
                "failed to add crons.created_at_ms",
            ),
            exec_step(
                "UPDATE crons SET created_at_ms = CAST((julianday(created_at) - 2440587.5) * 86400000 AS INTEGER) WHERE created_at_ms IS NULL;",
                "failed to backfill crons.created_at_ms",
            ),
        )
    } else {
        let r: Vec<MigrationStep> = Vec::new();
        assert(step_models(r@) =~= Seq::<StepModel>::empty());
        r
    }
}

/// The steps that bring a database of version `current` to the current one.
/// A newer database is refused.
pub fn migrate(current: u32) -> (r: Result<Vec<MigrationStep>, String>)
    ensures
        match r {
            Ok(steps) => current <= SCHEMA_VERSION && step_models(steps@) == plan_from(
                current as int,
            ),
            Err(e) => current > SCHEMA_VERSION && e@ == "database schema version "@ + text::decimal(
                current as nat,
            ) + " is newer than supported version "@ + text::decimal(SCHEMA_VERSION as nat),
        },
{
    if current > SCHEMA_VERSION {
        return Err(
            text::concat4(
                "database schema version ",
                text::decimal_u64(current as u64).as_str(),
                " is newer than supported version ",
                text::decimal_u64(SCHEMA_VERSION as u64).as_str(),
            ),
        );
    }
    let mut out: Vec<MigrationStep> = Vec::new();
    let mut v: u32 = current;
    proof {
        assert(step_models(out@) + plan_from(v as int) =~= plan_from(v as int));
    }
    while v < SCHEMA_VERSION
        invariant
            current <= v <= SCHEMA_VERSION,
            step_models(out@) + plan_from(v as int) == plan_from(current as int),
        decreases SCHEMA_VERSION - v,
    {
        let ghost before = step_models(out@);
        let mut steps = version_steps(v + 1);
        let ghost more = step_models(steps@);
        let ghost taken = steps@;
        let ghost had = out@;
        out.append(&mut steps);
        proof {
            assert(out@ =~= had + taken);
            assert(step_models(out@) =~= before + more);
        }
        let last = MigrationStep::SetVersion(v + 1);
        out.push(last);
        proof {
            assert(step_models(out@) =~= (before + more).push(last@));
            assert(step_models(out@) + plan_from(v + 1) =~= before + plan_from(v as int));
        }
        v = v + 1;
    }
    assert(step_models(out@) + plan_from(v as int) =~= step_models(out@));
    Ok(out)
}

// ── Laws ──

/// The version that a database has after the first `n` steps of a plan.
pub open spec fn version_after(start: u32, steps: Seq<StepModel>, n: int) -> u32
    decreases n,
{
    if n <= 0 || n > steps.len() {
        start
    } else {
        match steps[n - 1] {
            StepModel::SetVersion(v) => v,
            StepModel::Execute { .. } => version_after(start, steps, n - 1),
        }
    }
}

/// A database of the current version needs no step.
pub proof fn lemma_migrate_idempotent()
    ensures
        plan_from(SCHEMA_VERSION as int) == Seq::<StepModel>::empty(),
{
}

proof fn lemma_steps_execute(v: u32, i: int)
    requires
        0 <= i < steps_to(v).len(),
    ensures
        steps_to(v)[i] is Execute,
{
}

proof fn lemma_version_shift(start: u32, head: Seq<StepModel>, tail: Seq<StepModel>, n: int)
    requires
        head.len() > 0,
        head.last() is SetVersion,
        head.len() <= n <= head.len() + tail.len(),
    ensures
        version_after(start, head + tail, n) == version_after(
            head.last()->SetVersion_0,
            tail,
            n - head.len(),
        ),
    decreases n,
{
    let all = head + tail;
    if n == head.len() {
        assert(all[n - 1] == head.last());
    } else {
        assert(all[n - 1] == tail[n - head.len() - 1]);
        lemma_version_shift(start, head, tail, n - 1);
    }
}

proof fn lemma_version_before(start: u32, head: Seq<StepModel>, tail: Seq<StepModel>, n: int)
    requires
        0 <= n < head.len(),
        forall|i: int| 0 <= i < head.len() - 1 ==> (#[trigger] head[i]) is Execute,
    ensures
        version_after(start, head + tail, n) == start,
    decreases n,
{
    if n > 0 {
        assert((head + tail)[n - 1] == head[n - 1]);
        lemma_version_before(start, head, tail, n - 1);
    }
}

/// A migration that stops at any step leaves the database at the last version
/// that it reached in full: between the one it had and the current one, and
/// never lower than after fewer steps. All steps lead to the current version.
pub proof fn lemma_migration_progress(current: u32, n: int)
    requires
        current <= SCHEMA_VERSION,
        0 <= n <= plan_from(current as int).len(),
    ensures
        current <= version_after(current, plan_from(current as int), n) <= SCHEMA_VERSION,
        n > 0 ==> version_after(current, plan_from(current as int), n - 1) <= version_after(
            current,
            plan_from(current as int),
            n,
        ),
        n == plan_from(current as int).len() ==> version_after(
            current,
            plan_from(current as int),
            n,
        ) == SCHEMA_VERSION,
    decreases SCHEMA_VERSION - current,
{
    if current < SCHEMA_VERSION {
        let next = (current + 1) as u32;
        let head = steps_to(next).push(StepModel::SetVersion(next));
        let tail = plan_from(current + 1);
        assert forall|i: int| 0 <= i < head.len() - 1 implies (#[trigger] head[i]) is Execute by {
            lemma_steps_execute(next, i);
        }
        if n < head.len() {
            lemma_version_before(current, head, tail, n);
            if n > 0 {
                lemma_version_before(current, head, tail, n - 1);
            }
        } else {
            lemma_version_shift(current, head, tail, n);
            lemma_migration_progress(next, n - head.len());
            if n - 1 < head.len() {
                lemma_version_before(current, head, tail, n - 1);
            } else {
                lemma_version_shift(current, head, tail, n - 1);
            }
        }
    }
}

/// The version that step `n` of a plan works towards.
pub open spec fn leads_to(steps: Seq<StepModel>, n: int) -> u32
    decreases steps.len() - n,
{
    if !(0 <= n < steps.len()) {
        0
    } else {
        match steps[n] {
            StepModel::SetVersion(v) => v,
            StepModel::Execute { .. } => leads_to(steps, n + 1),
        }
    }
}

proof fn lemma_leads_to_next(head: Seq<StepModel>, tail: Seq<StepModel>, n: int)
    requires
        0 <= n < head.len(),
        forall|i: int| 0 <= i < head.len() - 1 ==> (#[trigger] head[i]) is Execute,
        head.last() is SetVersion,
    ensures
        leads_to(head + tail, n) == head.last()->SetVersion_0,
    decreases head.len() - n,
{
    assert((head + tail)[n] == head[n]);
    if n < head.len() - 1 {
        lemma_leads_to_next(head, tail, n + 1);
    }
}

proof fn lemma_leads_to_shift(head: Seq<StepModel>, tail: Seq<StepModel>, n: int)
    requires
        head.len() <= n <= head.len() + tail.len(),
    ensures
        leads_to(head + tail, n) == leads_to(tail, n - head.len()),
    decreases head.len() + tail.len() - n,
{
    if n < head.len() + tail.len() {
        assert((head + tail)[n] == tail[n - head.len()]);
        lemma_leads_to_shift(head, tail, n + 1);
    }
}

/// A migration that fails in a step towards a version leaves the database at
/// the version before that one.
pub proof fn lemma_failed_step_leaves_last_version(current: u32, n: int)
    requires
        current <= SCHEMA_VERSION,
        0 <= n < plan_from(current as int).len(),
    ensures
        current < leads_to(plan_from(current as int), n) <= SCHEMA_VERSION,
        version_after(current, plan_from(current as int), n) == leads_to(
            plan_from(current as int),
            n,
        ) - 1,
    decreases SCHEMA_VERSION - current,
{
    if current < SCHEMA_VERSION {
        let next = (current + 1) as u32;
        let head = steps_to(next).push(StepModel::SetVersion(next));
        let tail = plan_from(current + 1);
        assert forall|i: int| 0 <= i < head.len() - 1 implies (#[trigger] head[i]) is Execute by {
            lemma_steps_execute(next, i);
        }
        if n < head.len() {
            lemma_version_before(current, head, tail, n);
            lemma_leads_to_next(head, tail, n);
        } else {
            lemma_version_shift(current, head, tail, n);
            lemma_leads_to_shift(head, tail, n);
            lemma_failed_step_leaves_last_version(next, n - head.len());
        }
    }
}

} // verus!
