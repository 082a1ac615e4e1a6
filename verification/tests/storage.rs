use anyhow::{Context, Error, Result};
use cue_shell::cron::CronStatus;
use cue_shell::job::{CancelReason, JobStatus};
use cue_shell::storage::migration::{self, MigrationStep};
use cue_shell::storage::records::{
    self, CronTableRow, JobHistoryRow, LoadedCron, ScopeHash, StoredCron, StoredJob,
    StoredScriptItem, StoredScriptRun, StoredScriptRunStatus,
};
use cue_shell::storage::rows::{self, Scope};
use rusqlite::{Connection, OptionalExtension, Row};
use serde_json::Value;

fn in_memory_db() -> Connection {
    let conn = Connection::open_in_memory().expect("open in-memory db");
    conn.pragma_update(None, "foreign_keys", "ON").expect("enable foreign keys");
    migrate(&conn).expect("migrate in-memory db");
    conn
}

fn snapshot(cwd: &str) -> Value {
    let mut map = serde_json::Map::new();
    map.insert("PATH".to_string(), Value::String("/usr/bin".to_string()));
    map.insert("cwd".to_string(), Value::String(cwd.to_string()));
    Value::Object(map)
}

fn encode_job_status(status: JobStatus) -> Result<String> {
    let text = match status {
        JobStatus::Pending => "\"Pending\"",
        JobStatus::Running => "\"Running\"",
        JobStatus::Done => "\"Done\"",
        JobStatus::Failed => "\"Failed\"",
        JobStatus::Killed => "\"Killed\"",
        JobStatus::Cancelled(CancelReason::User) => "{\"Cancelled\":\"User\"}",
    };
    Ok(text.to_string())
}

fn decode_job_status(text: &str) -> Option<JobStatus> {
    match text {
        "\"Pending\"" => Some(JobStatus::Pending),
        "\"Running\"" => Some(JobStatus::Running),
        "\"Done\"" => Some(JobStatus::Done),
        "\"Failed\"" => Some(JobStatus::Failed),
        "\"Killed\"" => Some(JobStatus::Killed),
        "{\"Cancelled\":\"User\"}" => Some(JobStatus::Cancelled(CancelReason::User)),
        _ => None,
    }
}

fn encode_cron_status(status: CronStatus) -> Result<String> {
    let text = match status {
        CronStatus::Scheduled => "\"scheduled\"",
        CronStatus::Paused => "\"paused\"",
        CronStatus::Completed => "\"completed\"",
        CronStatus::Expired => "\"expired\"",
        CronStatus::Failed => "\"failed\"",
    };
    Ok(text.to_string())
}

fn decode_cron_status(text: &str) -> Option<CronStatus> {
    match text {
        "\"scheduled\"" => Some(CronStatus::Scheduled),
        "\"paused\"" => Some(CronStatus::Paused),
        "\"completed\"" => Some(CronStatus::Completed),
        "\"expired\"" => Some(CronStatus::Expired),
        "\"failed\"" => Some(CronStatus::Failed),
        _ => None,
    }
}

/// The milliseconds since the epoch, in SQL.
const CRON_CREATED_AT_MS_EXPR: &str = "CAST((julianday('now') - 2440587.5) * 86400000 AS INTEGER)";

const CRON_LEGACY_CREATED_AT_MS_EXPR: &str =
    "CAST((julianday(created_at) - 2440587.5) * 86400000 AS INTEGER)";

fn column_exists(conn: &Connection, table: &str, column: &str) -> Result<bool> {
    let mut stmt = conn.prepare(&format!("PRAGMA table_info({table})"))?;
    let columns = stmt.query_map([], |row| row.get::<_, String>(1))?;
    for name in columns {
        if name? == column {
            return Ok(true);
        }
    }
    Ok(false)
}

/// Bring the database to the current schema version.
fn migrate(conn: &Connection) -> Result<()> {
    let current: u32 = conn.pragma_query_value(None, "user_version", |row| row.get(0))?;
    for step in migration::migrate(current).map_err(Error::msg)? {
        match step {
            MigrationStep::Execute { unless, sql, context } => {
                let present = match &unless {
                    Some((table, column)) => column_exists(conn, table, column)?,
                    None => false,
                };
                if !present {
                    conn.execute_batch(&sql).context(context)?;
                }
            }
            MigrationStep::SetVersion(version) => {
                conn.pragma_update(None, "user_version", version)?;
            }
        }
    }
    Ok(())
}

/// Insert a scope, unless it is there.
fn insert_scope(conn: &Connection, scope: &Scope<Value, Value>) -> Result<()> {
    conn.execute(
        "INSERT OR IGNORE INTO scopes (hash, parent, delta_json, snap_json) VALUES (?1, ?2, ?3, ?4)",
        (
            scope.hash.0.to_vec(),
            scope.parent.map(|parent| parent.0.to_vec()),
            scope.delta.as_ref().map(Value::to_string),
            scope.snapshot.as_ref().map(Value::to_string),
        ),
    )?;
    Ok(())
}

type ScopeRow = (Vec<u8>, Option<Vec<u8>>, Option<String>, Option<String>);

fn scope_row(row: &Row<'_>) -> rusqlite::Result<ScopeRow> {
    Ok((row.get(0)?, row.get(1)?, row.get(2)?, row.get(3)?))
}

fn decode_json(text: Option<String>) -> Result<Option<Value>, String> {
    match text {
        Some(text) => serde_json::from_str(&text).map(Some).map_err(|error| error.to_string()),
        None => Ok(None),
    }
}

fn scope_of((hash, parent, delta, snapshot): ScopeRow) -> Result<Scope<Value, Value>> {
    rows::scope_from_row_parts(&hash, &parent, decode_json(delta), decode_json(snapshot))
        .map_err(Error::msg)
}

fn get_scope(conn: &Connection, hash: &ScopeHash) -> Result<Option<Scope<Value, Value>>> {
    let mut stmt =
        conn.prepare("SELECT hash, parent, delta_json, snap_json FROM scopes WHERE hash = ?1")?;
    let row = stmt.query_row([hash.0.to_vec()], scope_row).optional()?;
    row.map(scope_of).transpose()
}

fn list_scopes(conn: &Connection) -> Result<Vec<Scope<Value, Value>>> {
    let mut stmt = conn.prepare("SELECT hash, parent, delta_json, snap_json FROM scopes")?;
    let found = stmt.query_map([], scope_row)?;
    let mut scopes = Vec::new();
    for row in found {
        scopes.push(scope_of(row?)?);
    }
    Ok(scopes)
}

/// The current HEAD scope hash.
fn get_head(conn: &Connection) -> Result<Option<ScopeHash>> {
    let mut stmt = conn.prepare("SELECT hash FROM scope_head WHERE id = 0")?;
    let blob: Option<Vec<u8>> = stmt.query_row([], |row| row.get(0)).optional()?;
    blob.map(|blob| records::blob_to_scope_hash(&blob).map_err(Error::msg)).transpose()
}

/// Set or create the HEAD pointer.
fn set_head(conn: &Connection, hash: &ScopeHash) -> Result<()> {
    conn.execute(
        "INSERT INTO scope_head (id, hash) VALUES (0, ?1)
         ON CONFLICT(id) DO UPDATE SET hash = excluded.hash",
        [hash.0.to_vec()],
    )?;
    Ok(())
}

fn upsert_job_history(conn: &Connection, job: &StoredJob) -> Result<()> {
    let row = rows::upsert_job_history(job, encode_job_status(job.status)?);
    conn.execute(
        "INSERT INTO jobs_history (
             id, pipeline, status, exit_code, scope_hash, start_scope, end_scope, chain_id, stderr, finished_at
         )
         VALUES (
             ?1, ?2, ?3, ?4, ?5, ?6, ?7, ?8, ?9, CASE WHEN ?10 THEN datetime('now') ELSE NULL END
         )
         ON CONFLICT(id) DO UPDATE SET
              pipeline = excluded.pipeline,
              status = excluded.status,
              exit_code = excluded.exit_code,
              scope_hash = excluded.scope_hash,
              start_scope = excluded.start_scope,
              end_scope = excluded.end_scope,
              chain_id = excluded.chain_id,
              stderr = excluded.stderr,
              finished_at = CASE WHEN ?10 THEN datetime('now') ELSE jobs_history.finished_at END",
        (
            row.id,
            row.pipeline,
            row.status_text,
            row.exit_code,
            row.scope_hash,
            row.start_scope,
            row.end_scope,
            row.chain_id,
            row.stderr,
            row.finished,
        ),
    )?;
    Ok(())
}

fn load_job_history(conn: &Connection) -> Result<Vec<StoredJob>> {
    let mut stmt = conn.prepare(
        "SELECT id, pipeline, status, exit_code, start_scope, end_scope,
                COALESCE(chain_id, NULL) AS chain_id,
                COALESCE(stderr, '') AS stderr
         FROM jobs_history",
    )?;
    let found = stmt.query_map([], |row| {
        let status_text: String = row.get(2)?;
        Ok(JobHistoryRow {
            id: row.get(0)?,
            pipeline: row.get(1)?,
            decoded_status: decode_job_status(&status_text),
            status_text,
            exit_code: row.get(3)?,
            start_scope: row.get(4)?,
            end_scope: row.get(5)?,
            chain_id: row.get(6)?,
            stderr: row.get(7)?,
        })
    })?;
    let table = found.collect::<rusqlite::Result<Vec<JobHistoryRow>>>()?;
    records::load_job_history(table).map_err(Error::msg)
}

fn upsert_cron(conn: &Connection, cron: &StoredCron) -> Result<()> {
    let row = rows::upsert_cron(cron, encode_cron_status(cron.status)?);
    conn.execute(
        &format!(
            "INSERT INTO crons (id, schedule, command, enabled, scope_hash, status, cwd_override, scope_enabled, wrapper_enabled, created_at_ms)
         VALUES (?1, ?2, ?3, ?4, ?5, ?6, ?7, ?8, ?9, {CRON_CREATED_AT_MS_EXPR})
         ON CONFLICT(id) DO UPDATE SET
              schedule = excluded.schedule,
              command = excluded.command,
              enabled = excluded.enabled,
              scope_hash = excluded.scope_hash,
              status = excluded.status,
              cwd_override = excluded.cwd_override,
              scope_enabled = excluded.scope_enabled,
              wrapper_enabled = excluded.wrapper_enabled"
        ),
        (
            row.id,
            row.schedule,
            row.command,
            row.enabled,
            row.scope_hash,
            row.status_text,
            row.cwd_override,
            row.scope_enabled,
            row.wrapper_enabled,
        ),
    )?;
    Ok(())
}

fn load_crons(conn: &Connection) -> Result<Vec<LoadedCron>> {
    let mut stmt = conn.prepare(&format!(
        "WITH now_ms(value) AS (SELECT {CRON_CREATED_AT_MS_EXPR})
         SELECT id, schedule, command, scope_hash,
                COALESCE(status, CASE WHEN enabled != 0 THEN 'scheduled' ELSE 'paused' END) AS status,
                cwd_override,
                COALESCE(scope_enabled, 0) AS scope_enabled,
                COALESCE(wrapper_enabled, 0) AS wrapper_enabled,
                now_ms.value - COALESCE(created_at_ms, {CRON_LEGACY_CREATED_AT_MS_EXPR}) AS age_millis
          FROM crons, now_ms"
    ))?;
    let found = stmt.query_map([], |row| {
        let status_text: String = row.get(4)?;
        Ok(CronTableRow {
            id: row.get(0)?,
            schedule: row.get(1)?,
            command: row.get(2)?,
            scope_hash: row.get(3)?,
            decoded_status: decode_cron_status(&status_text),
            status_text,
            cwd_override: row.get(5)?,
            scope_enabled: row.get(6)?,
            wrapper_enabled: row.get(7)?,
            age_millis: row.get(8)?,
        })
    })?;
    let table = found.collect::<rusqlite::Result<Vec<CronTableRow>>>()?;
    records::load_crons(table).map_err(Error::msg)
}

fn upsert_script_run(
    conn: &Connection,
    script: &StoredScriptRun,
    items: &Vec<StoredScriptItem>,
) -> Result<()> {
    let row = rows::upsert_script_run(script, items);
    let tx = conn.unchecked_transaction().context("begin script run upsert transaction")?;
    tx.execute(
        "INSERT INTO script_runs (
             id, mode, input, status, item_count, error_code, error_message,
             exit_code, failed_item_index, finished_at
         )
         VALUES (
             ?1, ?2, ?3, ?4, ?5, ?6, ?7, ?8, ?9,
             CASE WHEN ?10 THEN datetime('now') ELSE NULL END
         )
         ON CONFLICT(id) DO UPDATE SET
              mode = excluded.mode,
              input = excluded.input,
              status = excluded.status,
              item_count = excluded.item_count,
              error_code = excluded.error_code,
              error_message = excluded.error_message,
              exit_code = excluded.exit_code,
              failed_item_index = excluded.failed_item_index,
              finished_at = CASE WHEN ?10 THEN datetime('now') ELSE NULL END",
        (
            &row.id,
            &row.mode,
            &row.input,
            row.status,
            row.item_count,
            &row.error_code,
            &row.error_message,
            row.exit_code,
            row.failed_item_index,
            row.finished,
        ),
    )
    .context("upsert script run")?;
    tx.execute("DELETE FROM script_items WHERE script_id = ?1", [&row.id])
        .context("delete existing script items")?;
    for item in &row.items {
        tx.execute(
            "INSERT INTO script_items (
                 script_id, item_index, source_text, kind, target_id, chain_id, job_ids_json
             ) VALUES (?1, ?2, ?3, ?4, ?5, ?6, ?7)",
            (
                &item.script_id,
                item.item_index,
                &item.source_text,
                &item.kind,
                &item.target_id,
                &item.chain_id,
                &item.job_ids_json,
            ),
        )
        .context("insert script item")?;
    }
    tx.commit().context("commit script run upsert")
}

fn ids_of(conn: &Connection, query: &str) -> Result<Vec<String>> {
    let mut stmt = conn.prepare(query)?;
    let found = stmt.query_map([], |row| row.get::<_, String>(0))?;
    Ok(found.collect::<rusqlite::Result<Vec<String>>>()?)
}

fn max_script_run_id(conn: &Connection) -> Result<Option<u32>> {
    records::max_script_run_id(&ids_of(conn, "SELECT id FROM script_runs")?).map_err(Error::msg)
}

fn prune_job_history(conn: &Connection, keep: usize) -> Result<Vec<String>> {
    let ids = ids_of(conn, "SELECT id FROM jobs_history")?;
    let removed = records::prune_job_history(&ids, keep).map_err(Error::msg)?;
    for id in &removed {
        conn.execute("DELETE FROM jobs_history WHERE id = ?1", [id])?;
    }
    Ok(removed)
}

fn prune_script_runs(conn: &Connection, keep: usize) -> Result<Vec<String>> {
    let ids = ids_of(conn, "SELECT id FROM script_runs")?;
    let removed = records::prune_script_runs(&ids, keep).map_err(Error::msg)?;
    for id in &removed {
        conn.execute("DELETE FROM script_runs WHERE id = ?1", [id])?;
    }
    Ok(removed)
}

#[test]
fn migration_is_idempotent() {
    let conn = in_memory_db();
    // Running migrate again should be a no-op.
    migrate(&conn).expect("second migration");
}

#[test]
fn failed_later_migration_preserves_last_successful_version() {
    let conn = Connection::open_in_memory().expect("open in-memory db");
    conn.execute_batch(
        "
        CREATE VIEW crons AS
        SELECT
            'C1' AS id,
            'every 5m' AS schedule,
            'echo hi' AS command,
            1 AS enabled,
            NULL AS scope_hash,
            datetime('now') AS created_at;
        CREATE TABLE jobs_history (
            id          TEXT PRIMARY KEY,
            pipeline    TEXT NOT NULL,
            status      TEXT NOT NULL,
            exit_code   INTEGER,
            scope_hash  BLOB,
            start_scope BLOB,
            end_scope   BLOB,
            chain_id    TEXT,
            stderr      TEXT NOT NULL DEFAULT '',
            created_at  TEXT NOT NULL DEFAULT (datetime('now')),
            finished_at TEXT
        );
        PRAGMA user_version = 8;
        ",
    )
    .expect("seed broken v8 database");

    let error = migrate(&conn).expect_err("v10 must fail against a crons view");
    let version: u32 = conn
        .pragma_query_value(None, "user_version", |row| row.get(0))
        .expect("read user_version");

    assert!(
        error
            .to_string()
            .contains("failed to run schema migration v10")
    );
    assert_eq!(version, 9);
}

#[test]
fn migration_rejects_newer_schema_version() {
    let conn = Connection::open_in_memory().expect("open in-memory db");
    conn.pragma_update(None, "user_version", migration::SCHEMA_VERSION + 1)
        .expect("set future schema version");

    let error = migrate(&conn).expect_err("future schema must be rejected");

    assert!(error.to_string().contains("newer than supported version"));
}

#[test]
fn scope_roundtrip() {
    let conn = in_memory_db();
    let scope: Scope<Value, Value> = Scope {
        hash: ScopeHash([1; 32]),
        parent: None,
        delta: None,
        snapshot: Some(snapshot("/tmp")),
    };
    insert_scope(&conn, &scope).unwrap();
    let loaded = get_scope(&conn, &scope.hash)
        .unwrap()
        .expect("scope exists");
    assert_eq!(loaded.hash, scope.hash);
    assert!(loaded.parent.is_none());
    assert!(loaded.snapshot.is_some());
}

#[test]
fn list_scopes_returns_persisted_scopes() {
    let conn = in_memory_db();
    let root: Scope<Value, Value> = Scope {
        hash: ScopeHash([1; 32]),
        parent: None,
        delta: None,
        snapshot: Some(snapshot("/tmp/root")),
    };
    let child: Scope<Value, Value> = Scope {
        hash: ScopeHash([2; 32]),
        parent: Some(root.hash),
        delta: Some(Value::String("FOO=bar".to_string())),
        snapshot: Some(snapshot("/tmp/child")),
    };
    insert_scope(&conn, &root).unwrap();
    insert_scope(&conn, &child).unwrap();

    let scopes = list_scopes(&conn).unwrap();
    let hashes = scopes.iter().map(|scope| scope.hash).collect::<Vec<_>>();

    assert!(hashes.contains(&root.hash));
    assert!(hashes.contains(&child.hash));
}

#[test]
fn head_roundtrip() {
    let conn = in_memory_db();
    assert!(get_head(&conn).unwrap().is_none());
    let hash = ScopeHash([42; 32]);
    set_head(&conn, &hash).unwrap();
    assert_eq!(get_head(&conn).unwrap(), Some(hash));

    // Update head.
    let hash2 = ScopeHash([99; 32]);
    set_head(&conn, &hash2).unwrap();
    assert_eq!(get_head(&conn).unwrap(), Some(hash2));
}

#[test]
fn job_history_roundtrip() {
    let conn = in_memory_db();
    let start_scope = ScopeHash([7; 32]);
    let end_scope = ScopeHash([8; 32]);
    let job = StoredJob {
        id: "J12".into(),
        pipeline: "cargo test".into(),
        status: JobStatus::Cancelled(CancelReason::User),
        exit_code: Some(130),
        start_scope: Some(start_scope),
        end_scope: Some(end_scope),
        chain_id: None,
        stderr: String::new(),
    };

    upsert_job_history(&conn, &job).unwrap();
    let loaded = load_job_history(&conn).unwrap();

    assert_eq!(loaded, vec![job]);
}

#[test]
fn load_job_history_rejects_invalid_ids() {
    let conn = in_memory_db();
    conn.execute(
        "INSERT INTO jobs_history (id, pipeline, status)
         VALUES ('not-a-job', 'echo bad', '\"Done\"')",
        [],
    )
    .unwrap();

    let error = load_job_history(&conn).unwrap_err();

    assert!(error.to_string().contains("invalid job history id"));
}

#[test]
fn prune_job_history_rejects_invalid_ids_without_deleting_valid_rows() {
    let conn = in_memory_db();
    conn.execute(
        "INSERT INTO jobs_history (id, pipeline, status)
         VALUES ('J1', 'echo ok', '\"Done\"')",
        [],
    )
    .unwrap();
    conn.execute(
        "INSERT INTO jobs_history (id, pipeline, status)
         VALUES ('bad-job', 'echo bad', '\"Done\"')",
        [],
    )
    .unwrap();

    let error = prune_job_history(&conn, 0).unwrap_err();

    assert!(error.to_string().contains("invalid job history id"));
    let valid_count: i64 = conn
        .query_row(
            "SELECT COUNT(*) FROM jobs_history WHERE id = 'J1'",
            [],
            |row| row.get(0),
        )
        .unwrap();
    assert_eq!(valid_count, 1);
}

#[test]
fn cron_roundtrip() {
    let conn = in_memory_db();
    let cron = StoredCron {
        id: "C3".into(),
        schedule: "every 5m".into(),
        command: "cargo test".into(),
        status: CronStatus::Scheduled,
        scope_hash: Some(ScopeHash([9; 32])),
        cwd_override: Some("/tmp/cue-cron-cwd".to_string()),
        scope_enabled: true,
        wrapper_enabled: true,
    };

    upsert_cron(&conn, &cron).unwrap();
    let loaded = load_crons(&conn).unwrap();

    assert_eq!(loaded.len(), 1);
    let loaded = &loaded[0].record;
    assert_eq!(loaded.id, cron.id);
    assert_eq!(loaded.schedule, cron.schedule);
    assert_eq!(loaded.command, cron.command);
    assert_eq!(loaded.status, cron.status);
    assert_eq!(loaded.scope_hash, cron.scope_hash);
    assert_eq!(loaded.cwd_override, cron.cwd_override);
    assert_eq!(loaded.scope_enabled, cron.scope_enabled);
    assert_eq!(loaded.wrapper_enabled, cron.wrapper_enabled);
}

#[test]
fn failed_cron_status_roundtrips() {
    let conn = in_memory_db();
    let cron = StoredCron {
        id: "C4".into(),
        schedule: "in 1s".into(),
        command: "echo due".into(),
        status: CronStatus::Failed,
        scope_hash: Some(ScopeHash([4; 32])),
        cwd_override: None,
        scope_enabled: false,
        wrapper_enabled: false,
    };

    upsert_cron(&conn, &cron).unwrap();
    let loaded = load_crons(&conn).unwrap();

    assert_eq!(loaded.len(), 1);
    assert_eq!(loaded[0].record.status, CronStatus::Failed);
}

#[test]
fn cron_load_uses_legacy_enabled_only_when_status_is_null() {
    let conn = in_memory_db();
    conn.execute(
        "INSERT INTO crons (id, schedule, command, enabled, scope_hash)
         VALUES ('C5', 'every 5m', 'echo legacy', 0, ?1)",
        [vec![5u8; 32]],
    )
    .unwrap();

    let loaded = load_crons(&conn).unwrap();

    assert_eq!(loaded.len(), 1);
    assert_eq!(loaded[0].record.status, CronStatus::Paused);
}

#[test]
fn cron_load_preserves_millisecond_age() {
    let conn = in_memory_db();
    let cron = StoredCron {
        id: "C7".into(),
        schedule: "in 1500ms".into(),
        command: "echo soon".into(),
        status: CronStatus::Scheduled,
        scope_hash: Some(ScopeHash([7; 32])),
        cwd_override: None,
        scope_enabled: false,
        wrapper_enabled: false,
    };
    upsert_cron(&conn, &cron).unwrap();
    conn.execute(
        &format!(
            "UPDATE crons
             SET created_at_ms = {CRON_CREATED_AT_MS_EXPR} - 1500
             WHERE id = 'C7'"
        ),
        [],
    )
    .unwrap();

    let loaded = load_crons(&conn).unwrap();

    assert_eq!(loaded.len(), 1);
    let elapsed = loaded[0].elapsed.secs * 1000 + u64::from(loaded[0].elapsed.millis);
    assert!(elapsed >= 1500);
    assert!(elapsed < 3000);
}

#[test]
fn cron_load_rejects_invalid_status_text() {
    let conn = in_memory_db();
    conn.execute(
        "INSERT INTO crons (id, schedule, command, enabled, scope_hash, status)
         VALUES ('C6', 'every 5m', 'echo invalid', 1, ?1, 'unknown')",
        [vec![6u8; 32]],
    )
    .unwrap();

    let error = load_crons(&conn).unwrap_err();

    assert!(error.to_string().contains("parse cron C6 status"));
}

#[test]
fn load_crons_rejects_invalid_ids() {
    let conn = in_memory_db();
    conn.execute(
        "INSERT INTO crons (id, schedule, command, enabled, scope_hash, status)
         VALUES ('not-a-cron', 'every 5m', 'echo invalid', 1, ?1, 'scheduled')",
        [vec![6u8; 32]],
    )
    .unwrap();

    let error = load_crons(&conn).unwrap_err();

    assert!(error.to_string().contains("invalid cron id"));
}

#[test]
fn script_run_upsert_rolls_back_when_items_cannot_be_written() {
    let conn = in_memory_db();
    let original = StoredScriptRun {
        id: "R1".into(),
        mode: "job".into(),
        input: "echo old".into(),
        status: StoredScriptRunStatus::Submitted,
        item_count: 1,
        error_code: None,
        error_message: None,
        exit_code: None,
        failed_item_index: None,
    };
    let original_items = vec![StoredScriptItem {
        script_id: "R1".into(),
        item_index: 0,
        source_text: "echo old".into(),
        kind: "job".into(),
        target_id: Some("J1".into()),
        chain_id: None,
        job_ids: vec!["J1".into()],
    }];
    upsert_script_run(&conn, &original, &original_items).unwrap();

    conn.execute_batch("DROP TABLE script_items;").unwrap();
    let updated = StoredScriptRun {
        id: "R1".into(),
        mode: "job".into(),
        input: "echo new".into(),
        status: StoredScriptRunStatus::PartialError,
        item_count: 0,
        error_code: Some("INTERNAL".into()),
        error_message: Some("write failed".into()),
        exit_code: None,
        failed_item_index: None,
    };

    let error = upsert_script_run(&conn, &updated, &Vec::new()).unwrap_err();
    assert!(error.to_string().contains("delete existing script items"));

    let (input, status, item_count, error_code): (String, String, i64, Option<String>) = conn
        .query_row(
            "SELECT input, status, item_count, error_code FROM script_runs WHERE id = 'R1'",
            [],
            |row| Ok((row.get(0)?, row.get(1)?, row.get(2)?, row.get(3)?)),
        )
        .unwrap();
    assert_eq!(input, "echo old");
    assert_eq!(status, "submitted");
    assert_eq!(item_count, 1);
    assert_eq!(error_code, None);
}

#[test]
fn script_run_terminal_state_persists_exit_and_failed_item() {
    let conn = in_memory_db();
    let script = StoredScriptRun {
        id: "R2".into(),
        mode: "job".into(),
        input: "false".into(),
        status: StoredScriptRunStatus::Failed,
        item_count: 1,
        error_code: None,
        error_message: None,
        exit_code: Some(7),
        failed_item_index: Some(0),
    };
    let items = vec![StoredScriptItem {
        script_id: "R2".into(),
        item_index: 0,
        source_text: "false".into(),
        kind: "job".into(),
        target_id: Some("J2".into()),
        chain_id: None,
        job_ids: vec!["J2".into()],
    }];

    upsert_script_run(&conn, &script, &items).unwrap();

    let (status, exit_code, failed_item_index, finished_at): (
        String,
        Option<i32>,
        Option<i64>,
        Option<String>,
    ) = conn
        .query_row(
            "SELECT status, exit_code, failed_item_index, finished_at
             FROM script_runs WHERE id = 'R2'",
            [],
            |row| Ok((row.get(0)?, row.get(1)?, row.get(2)?, row.get(3)?)),
        )
        .unwrap();
    assert_eq!(status, "failed");
    assert_eq!(exit_code, Some(7));
    assert_eq!(failed_item_index, Some(0));
    assert!(finished_at.is_some());
}

#[test]
fn max_script_run_id_rejects_invalid_ids() {
    let conn = in_memory_db();
    conn.execute(
        "INSERT INTO script_runs (id, mode, input, status, item_count)
         VALUES ('not-a-script', 'job', 'echo bad', 'submitted', 1)",
        [],
    )
    .unwrap();

    let error = max_script_run_id(&conn).unwrap_err();

    assert!(error.to_string().contains("invalid script run id"));
}

#[test]
fn prune_script_runs_rejects_invalid_ids_without_deleting_valid_rows() {
    let conn = in_memory_db();
    conn.execute(
        "INSERT INTO script_runs (id, mode, input, status, item_count)
         VALUES ('R1', 'job', 'echo ok', 'submitted', 1)",
        [],
    )
    .unwrap();
    conn.execute(
        "INSERT INTO script_runs (id, mode, input, status, item_count)
         VALUES ('bad-script', 'job', 'echo bad', 'submitted', 1)",
        [],
    )
    .unwrap();

    let error = prune_script_runs(&conn, 0).unwrap_err();

    assert!(error.to_string().contains("invalid script run id"));
    let valid_count: i64 = conn
        .query_row(
            "SELECT COUNT(*) FROM script_runs WHERE id = 'R1'",
            [],
            |row| row.get(0),
        )
        .unwrap();
    assert_eq!(valid_count, 1);
}

#[test]
fn job_stderr_persistence_roundtrip() {
    let conn = in_memory_db();
    let job = StoredJob {
        id: "J3".into(),
        pipeline: "echo oops 1>&2".into(),
        status: JobStatus::Failed,
        exit_code: Some(1),
        start_scope: None,
        end_scope: None,
        chain_id: None,
        stderr: "error: something went wrong\n".into(),
    };

    upsert_job_history(&conn, &job).unwrap();
    let loaded = load_job_history(&conn).unwrap();

    assert_eq!(loaded.len(), 1);
    assert_eq!(loaded[0].id, "J3");
    assert_eq!(loaded[0].stderr, "error: something went wrong\n");
}

#[test]
fn job_stderr_defaults_to_empty_on_old_rows() {
    let conn = in_memory_db();
    // Insert without specifying stderr (rely on DEFAULT).
    conn.execute(
        "INSERT INTO jobs_history (id, pipeline, status) VALUES ('J1', 'echo hi', '\"Done\"')",
        [],
    )
    .unwrap();

    let loaded = load_job_history(&conn).unwrap();
    assert_eq!(loaded.len(), 1);
    assert_eq!(loaded[0].stderr, "");
}

#[test]
fn ids_are_pruned_oldest_first() {
    let ids: Vec<String> = ["J10", "J2", "J9"].iter().map(|id| id.to_string()).collect();
    assert_eq!(records::prune_job_history(&ids, 1).unwrap(), vec!["J2", "J9"]);
    assert!(records::prune_job_history(&ids, 3).unwrap().is_empty());
    let runs: Vec<String> = ["R3", "R12"].iter().map(|id| id.to_string()).collect();
    assert_eq!(records::prune_script_runs(&runs, 1).unwrap(), vec!["R3"]);
    assert_eq!(records::max_script_run_id(&runs).unwrap(), Some(12));
    assert_eq!(records::max_script_run_id(&Vec::new()).unwrap(), None);
}

#[test]
fn a_blob_of_another_length_is_no_scope_hash() {
    assert_eq!(records::blob_to_scope_hash(&vec![3; 32]).unwrap(), ScopeHash([3; 32]));
    let error = records::blob_to_scope_hash(&vec![3; 5]).unwrap_err();
    assert_eq!(error, "scope hash blob is not 32 bytes (got 5)");
}

#[test]
fn legacy_job_status_texts_are_understood() {
    assert_eq!(records::parse_job_status(None, "killed"), Ok(JobStatus::Killed));
    assert_eq!(
        records::parse_job_status(None, "cancelled"),
        Ok(JobStatus::Cancelled(CancelReason::User))
    );
    assert!(records::parse_job_status(None, "lost").is_err());
    assert_eq!(records::parse_cron_status(None, "disabled"), Ok(CronStatus::Paused));
}

#[test]
fn a_stored_cron_from_the_future_is_refused() {
    let row = CronTableRow {
        id: "C1".into(),
        schedule: "every 5m".into(),
        command: "echo hi".into(),
        scope_hash: None,
        status_text: "scheduled".into(),
        decoded_status: None,
        cwd_override: None,
        scope_enabled: 0,
        wrapper_enabled: 0,
        age_millis: -1,
    };
    assert!(records::load_crons(vec![row]).is_err());
}

#[test]
fn the_history_is_read_back_as_last_written_in_numeric_order() {
    let conn = in_memory_db();
    let job = |id: &str, pipeline: &str, status: JobStatus| StoredJob {
        id: id.into(),
        pipeline: pipeline.into(),
        status,
        exit_code: None,
        start_scope: Some(ScopeHash([1; 32])),
        end_scope: None,
        chain_id: Some("X1".into()),
        stderr: "warning".into(),
    };
    upsert_job_history(&conn, &job("J10", "ten", JobStatus::Running)).unwrap();
    upsert_job_history(&conn, &job("J2", "first", JobStatus::Running)).unwrap();
    upsert_job_history(&conn, &job("J2", "second", JobStatus::Done)).unwrap();

    assert_eq!(
        load_job_history(&conn).unwrap(),
        vec![job("J2", "second", JobStatus::Done), job("J10", "ten", JobStatus::Running)]
    );
}

#[test]
fn a_failed_step_leaves_the_version_before_it() {
    for version in 0..migration::SCHEMA_VERSION {
        let steps = migration::migrate(version).unwrap();
        let mut reached = version;
        for (n, step) in steps.iter().enumerate() {
            let towards = steps[n..]
                .iter()
                .find_map(|s| match s {
                    MigrationStep::SetVersion(v) => Some(*v),
                    _ => None,
                })
                .unwrap();
            assert_eq!(reached, towards - 1);
            if let MigrationStep::SetVersion(v) = step {
                reached = *v;
            }
        }
        assert_eq!(reached, migration::SCHEMA_VERSION);
    }
}

#[test]
fn job_ids_are_written_as_a_json_list() {
    let script = StoredScriptRun {
        id: "R3".into(),
        mode: "job".into(),
        input: "true".into(),
        status: StoredScriptRunStatus::Submitted,
        item_count: 3,
        error_code: None,
        error_message: None,
        exit_code: None,
        failed_item_index: None,
    };
    let written = |job_ids: &[&str]| {
        let item = StoredScriptItem {
            script_id: "R3".into(),
            item_index: 0,
            source_text: "true".into(),
            kind: "job".into(),
            target_id: None,
            chain_id: None,
            job_ids: job_ids.iter().map(|id| id.to_string()).collect(),
        };
        rows::upsert_script_run(&script, &vec![item]).items.remove(0).job_ids_json
    };
    assert_eq!(written(&[]), "[]");
    assert_eq!(written(&["J1", "J22"]), "[\"J1\",\"J22\"]");
    assert_eq!(
        written(&["a\"b\\c/\u{8}\t\n\u{c}\r\u{1}\u{1f}\u{7f}漢"]),
        "[\"a\\\"b\\\\c/\\b\\t\\n\\f\\r\\u0001\\u001f\u{7f}漢\"]"
    );
}
