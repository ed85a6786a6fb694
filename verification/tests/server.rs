//! Handles, transactions, statements and schema readings.
use rusqlite::Connection;
use sqlite_mcp_core::admission::AdmissionRegistry;
use rusqlite::fallible_iterator::FallibleIterator;
use rusqlite::hooks::{AuthAction, AuthContext};
use sqlite_mcp_core::policy::decision::{
    authorize, decide_kind, ActionKind, Authorization, MutationSignal, TrustScope,
};
use sqlite_mcp_core::server::error::classify_worker_error;
use std::sync::atomic::{AtomicBool, Ordering};
use std::sync::Arc;
use sqlite_mcp_core::policy::guard::PolicyError;
use sqlite_mcp_core::schema::{SchemaColumn, SchemaForeignKey, SchemaInfo, SchemaObject};
use sqlite_mcp_core::server::batch::{BatchAction, BatchReply, BatchRun};
use sqlite_mcp_core::server::error::bool_str;
use sqlite_mcp_core::server::files::{check_access, check_creation_identity, check_header};
use sqlite_mcp_core::server::lifecycle::{
    admit_merge, close_result, idle_seconds, join_error, probe_error, shutdown_report,
    worker_limits, ShutdownJoin,
};
use sqlite_mcp_core::server::query::{
    batch_text, check_statement, payload_len, validate_batch_sql, RowCollector,
};
use sqlite_mcp_core::server::registry::{probe_is_wanted, FileIdentity, HandleRegistry};
use sqlite_mcp_core::server::schema_read::{
    schema_cleanup, schema_column, schema_index, schema_query, schema_table, settle_schema,
    user_version, ColumnInfo, IndexInfo, SchemaCleanup, SchemaPragma,
};
use sqlite_mcp_core::server::schema_run::{
    IndexRow, SchemaAction, SchemaReply, SchemaRun, TableRow,
};
use sqlite_mcp_core::server::schema_text::schema_text;
use sqlite_mcp_core::server::transaction::{
    begin_statement, parse_begin_mode, settle_begin, settle_rollback,
};
use sqlite_mcp_core::sql::RealReading;
use sqlite_mcp_core::worker::arms::CommitOutcome;
use sqlite_mcp_core::worker::{SqliteFailure, WorkerError};
use sqlite_mcp_core::{
    Cell, Config, CoreError, Handle, LimitInstallError, QueryResult, ShutdownStatus,
    WorkerShutdownError,
};

fn failure(code: Option<i32>, text: &str) -> SqliteFailure {
    SqliteFailure { code, text: text.to_owned() }
}

const A: FileIdentity = FileIdentity { device: 1, inode: 1 };
const B: FileIdentity = FileIdentity { device: 1, inode: 2 };

fn opened() -> HandleRegistry {
    let mut registry = HandleRegistry::new();
    assert!(registry.check_open("/a", A, 2).is_ok());
    let handle = Handle::with_id("h".into(), "/a".into(), false, "wal".into());
    registry.register(handle, A, 2);
    registry
}

fn schema(version: i64) -> SchemaInfo {
    SchemaInfo {
        schema_version: version,
        user_version: 0,
        identity: "/a".into(),
        objects: Vec::new(),
        tables: Vec::new(),
    }
}

/// A handle whose schema was observed.
fn observed() -> HandleRegistry {
    let mut registry = opened();
    registry.publish_schema("h", schema(4), 1000).unwrap();
    registry
}

/// A handle with a transaction.
fn begun() -> HandleRegistry {
    let mut registry = observed();
    assert_eq!(registry.check_begin("h", false).unwrap(), 4);
    registry.publish_begin_as("h", 4, "deferred", "t".into()).unwrap();
    registry
}

fn handle(registry: &HandleRegistry) -> Handle {
    registry.get("h").unwrap()
}

fn confirmed(result: Result<i64, WorkerError>) -> CommitOutcome {
    CommitOutcome {
        result,
        commit_confirmed: true,
        transaction_open: false,
        transaction_continuable: false,
        expired: false,
        uncertain_or_invalidated: false,
    }
}

#[test]
fn files_are_opened_once() {
    let mut registry = opened();
    assert!(matches!(registry.check_open("/a", B, 2), Err(CoreError::AlreadyOpen)));
    assert!(matches!(registry.check_open("/b", A, 2), Err(CoreError::AlreadyOpen)));
    assert!(matches!(registry.check_open("/b", B, 1), Err(CoreError::HandleLimitReached)));
    assert!(registry.check_open("/b", B, 2).is_ok());
    registry.register(Handle::with_id("g".into(), "/b".into(), true, "delete".into()), B, 2);
    let names: Vec<String> = registry.list().into_iter().map(|h| h.id).collect();
    assert_eq!(names.len(), 2);
    assert!(names.contains(&"g".to_owned()) && names.contains(&"h".to_owned()));
    assert!(registry.close("h").is_ok());
    assert!(matches!(registry.close("h"), Err(CoreError::UnknownHandle)));
    assert!(registry.check_open("/a", A, 2).is_ok());
    assert!(registry.invalidate("g"));
    assert!(!registry.invalidate("g"));
    assert!(registry.list().is_empty());
}

#[test]
fn handles_have_fresh_names() {
    let a = Handle::new("/a".into(), false, "wal".into());
    let b = Handle::new("/a".into(), false, "wal".into());
    assert_ne!(a.id, b.id);
    assert_eq!(a.id.len(), 36);
    assert!(a.id.chars().all(|c| c == '-' || c.is_ascii_hexdigit()));
    assert!(!a.schema_observed && !a.expired && a.transaction_id.is_none());
    assert_eq!(a.copy().id, a.id);
}

#[test]
fn second_begin_returns_transaction_open() {
    let registry = begun();
    assert!(matches!(registry.check_begin("h", false), Err(CoreError::TransactionOpen)));
    assert!(registry.transaction_open("h").unwrap());
}

#[test]
fn begins_need_an_observation_and_access() {
    let mut registry = opened();
    assert!(matches!(registry.check_begin("x", false), Err(CoreError::UnknownHandle)));
    assert!(matches!(registry.check_begin("h", false), Err(CoreError::SchemaRequired)));
    assert!(registry.check_open("/b", B, 2).is_ok());
    registry.register(Handle::with_id("r".into(), "/b".into(), true, "delete".into()), B, 2);
    registry.publish_schema("r", schema(1), 1000).unwrap();
    assert!(matches!(registry.check_begin("r", true), Err(CoreError::ReadonlyImmediate)));
    assert_eq!(registry.check_begin("r", false).unwrap(), 1);
    let begun = registry.publish_begin("r", 1, "deferred").unwrap();
    assert_eq!(begun.transaction_id.unwrap().len(), 36);
    assert_eq!(begun.transaction_mode.as_deref(), Some("deferred"));
    assert!(matches!(registry.publish_begin("x", 1, "deferred"), Err(CoreError::UnknownHandle)));
}

#[test]
fn modes_are_parsed() {
    assert!(!parse_begin_mode("deferred").unwrap());
    assert!(parse_begin_mode("immediate").unwrap());
    assert!(matches!(parse_begin_mode("exclusive"), Err(CoreError::InvalidTransactionMode)));
    assert_eq!(begin_statement(true), "BEGIN IMMEDIATE");
    assert_eq!(begin_statement(false), "BEGIN DEFERRED");
}

#[test]
fn begins_are_checked_against_the_schema() {
    assert!(matches!(settle_begin(4, 4, false, false), Ok(4)));
    assert_eq!(settle_begin(5, 4, true, true).unwrap_err().message(), "SCHEMA_STALE");
    assert!(settle_begin(5, 4, false, true).unwrap_err().mentions("handle invalidated"));
    let mut registry = observed();
    let e = registry.fail_begin("h", WorkerError::Message("SCHEMA_STALE".into()));
    assert!(matches!(e, CoreError::SchemaStale));
    assert!(handle(&registry).schema_observed);
}

#[test]
fn rollbacks_are_verified() {
    assert!(settle_rollback(true, false, Ok(()), true).is_ok());
    assert!(settle_rollback(false, true, Ok(()), true).is_ok());
    assert!(settle_rollback(true, false, Ok(()), false)
        .unwrap_err()
        .mentions("handle invalidated"));
    assert!(settle_rollback(true, false, Err(failure(None, "x")), false).is_err());
    assert!(settle_rollback(true, true, Ok(()), true).is_err());
}

#[test]
fn rollback_of_local_ddl_keeps_observation() {
    let mut registry = begun();
    let before = handle(&registry);
    registry.publish_query("h", 4, 5, true).unwrap();
    assert_eq!(registry.check_query("h").unwrap(), 5);
    let after = registry.publish_rollback("h", Ok(())).unwrap();
    assert!(after.schema_observed && after.transaction_id.is_none());
    assert_eq!(after.schema_version, before.schema_version);
    assert_eq!(after.observation_generation, before.observation_generation);
    assert!(matches!(registry.publish_rollback("x", Ok(())), Err(CoreError::UnknownHandle)));
}

#[test]
fn rollbacks_report_what_was_lost() {
    let mut registry = begun();
    let e = registry
        .publish_rollback("h", Err(WorkerError::Message("TRANSACTION_EXPIRED".into())))
        .unwrap_err();
    assert!(matches!(e, CoreError::TransactionExpired));
    assert!(handle(&registry).expired);
    let e = registry
        .publish_rollback("h", Err(WorkerError::Message("handle invalidated; x".into())))
        .unwrap_err();
    assert!(matches!(e, CoreError::Worker(_)));
    assert!(registry.get("h").is_none());
    assert!(registry.check_open("/a", A, 1).is_ok());
}

#[test]
fn successful_dml_does_not_invalidate_observation() {
    let mut registry = begun();
    registry.publish_query("h", 4, 4, true).unwrap();
    let h = registry.publish_commit("h", Ok(confirmed(Ok(4)))).unwrap();
    assert!(h.schema_observed && h.transaction_id.is_none());
    assert_eq!(registry.check_begin("h", false).unwrap(), 4);
}

#[test]
fn actual_ddl_commit_requires_one_post_commit_schema_read() {
    let mut registry = begun();
    registry.publish_query("h", 4, 5, true).unwrap();
    let h = registry.publish_commit("h", Ok(confirmed(Ok(5)))).unwrap();
    assert!(!h.schema_observed);
    assert!(matches!(registry.check_begin("h", false), Err(CoreError::SchemaRequired)));
    registry.publish_schema("h", schema(5), 1000).unwrap();
    assert_eq!(registry.check_begin("h", false).unwrap(), 5);
}

#[test]
fn active_transaction_schema_result_does_not_promote_handle_state() {
    let mut registry = begun();
    registry.publish_query("h", 4, 5, true).unwrap();
    let before = handle(&registry);
    registry.publish_schema("h", schema(5), 1000).unwrap();
    let after = handle(&registry);
    assert_eq!(after.schema_version, before.schema_version);
    assert_eq!(after.observation_generation, before.observation_generation);
    assert_eq!(registry.check_query("h").unwrap(), 5);
}

#[test]
fn commit_faults_are_published() {
    let mut registry = begun();
    let open = CommitOutcome {
        result: Err(WorkerError::Sqlite(failure(Some(5), "busy"))),
        commit_confirmed: false,
        transaction_open: true,
        transaction_continuable: true,
        expired: false,
        uncertain_or_invalidated: false,
    };
    let e = registry.publish_commit("h", Ok(open)).unwrap_err();
    assert!(matches!(
        e,
        CoreError::CommitLifecycle { transaction_open: true, transaction_continuable: true, .. }
    ));
    assert!(registry.transaction_open("h").unwrap());
    let restored = CommitOutcome {
        result: Err(WorkerError::Closed),
        commit_confirmed: false,
        transaction_open: false,
        transaction_continuable: false,
        expired: false,
        uncertain_or_invalidated: false,
    };
    assert!(registry.publish_commit("h", Ok(restored)).is_err());
    assert!(!registry.transaction_open("h").unwrap());
    let e = registry.publish_commit("h", Err(WorkerError::Closed)).unwrap_err();
    assert!(matches!(e, CoreError::CommitLifecycle { uncertain_or_invalidated: true, .. }));
    assert!(registry.get("h").is_some());
    let uncertain = CommitOutcome {
        result: Ok(4),
        commit_confirmed: false,
        transaction_open: false,
        transaction_continuable: false,
        expired: false,
        uncertain_or_invalidated: true,
    };
    let e = registry.publish_commit("h", Ok(uncertain)).unwrap_err();
    assert!(matches!(e, CoreError::CommitLifecycle { uncertain_or_invalidated: true, .. }));
    assert!(registry.get("h").is_none());
}

#[test]
fn expired_direct_commit_never_persists() {
    let mut registry = begun();
    let expired = CommitOutcome {
        result: Err(WorkerError::Message("TRANSACTION_EXPIRED".into())),
        commit_confirmed: false,
        transaction_open: false,
        transaction_continuable: false,
        expired: true,
        uncertain_or_invalidated: false,
    };
    let e = registry.publish_commit("h", Ok(expired)).unwrap_err();
    assert!(matches!(e, CoreError::TransactionExpired));
    assert!(matches!(registry.check_commit("h"), Err(CoreError::TransactionExpired)));
    assert!(matches!(registry.check_commit("x"), Err(CoreError::UnknownHandle)));
    assert!(registry.check_query("h").is_err());
    registry.publish_schema("h", schema(9), 1000).unwrap();
    assert!(registry.check_commit("h").is_ok());
    assert_eq!(registry.check_query("h").unwrap(), 9);
}

#[test]
fn expiry_is_published() {
    let mut registry = begun();
    registry.publish_expiry("h", false);
    assert!(registry.transaction_open("h").unwrap());
    registry.publish_expiry("h", true);
    assert!(!registry.transaction_open("h").unwrap());
    assert!(handle(&registry).expired && handle(&registry).schema_observed);
}

#[test]
fn queries_need_an_observed_schema() {
    let mut registry = opened();
    assert!(matches!(registry.check_query("x"), Err(CoreError::UnknownHandle)));
    assert!(matches!(registry.check_query("h"), Err(CoreError::SchemaRequired)));
    assert_eq!(
        registry.publish_query("h", 4, 4, false).unwrap_err().message(),
        "outer transaction aborted"
    );
    assert_eq!(
        registry.publish_query("h", 4, 5, true).unwrap_err().message(),
        "transaction schema state missing after query"
    );
}

#[test]
fn failed_or_denied_mutations_retain_observation() {
    let mut registry = begun();
    let denied = WorkerError::Sqlite(failure(Some(23), "not authorized"));
    assert!(!probe_is_wanted(&WorkerError::Message("TRANSACTION_EXPIRED".into()), true));
    let e = registry.fail_query("h", denied, true, 4, Some(4));
    assert!(matches!(e, CoreError::PolicyDenied { .. }));
    assert!(handle(&registry).schema_observed);
    assert_eq!(registry.check_query("h").unwrap(), 4);
    let e = registry.fail_query(
        "h",
        WorkerError::ResultTooLarge { retained_bytes: 9, limit: 8 },
        true,
        4,
        Some(6),
    );
    assert!(e.message().contains("too large"));
    assert_eq!(registry.check_query("h").unwrap(), 6);
    let e = registry.fail_query(
        "h",
        WorkerError::Message("savepoint restoration failed; handle invalidated".into()),
        false,
        6,
        None,
    );
    assert!(matches!(e, CoreError::Worker(_)));
    assert!(registry.get("h").is_none());
}

#[test]
fn schema_overflow_does_not_unlock() {
    let mut registry = opened();
    let size = schema_text(&schema(4)).len();
    let e = registry.publish_schema("h", schema(4), size - 1).unwrap_err();
    assert!(matches!(e, CoreError::SchemaTooLarge));
    assert!(!handle(&registry).schema_observed);
    assert!(matches!(
        registry.publish_schema("x", schema(4), size),
        Err(CoreError::UnknownHandle)
    ));
    assert!(registry.publish_schema("h", schema(4), size).is_ok());
    let e = registry.fail_schema("h", WorkerError::Closed, false);
    assert_eq!(e.message(), "worker closed");
}

#[test]
fn schemas_are_measured_as_json() {
    assert_eq!(
        schema_text(&schema(-4)),
        "{\"schema_version\":-4,\"user_version\":0,\"identity\":\"/a\",\"objects\":[],\"tables\":[]}"
    );
    let full = SchemaInfo {
        objects: vec![SchemaObject {
            object_type: "table".into(),
            name: "\u{e9}\"".into(),
            table_name: None,
            sql: Some("CREATE\nTABLE".into()),
        }],
        tables: vec![schema_table(
            "t".into(),
            1,
            0,
            vec![SchemaColumn {
                name: "a".into(),
                declared_type: None,
                not_null: true,
                default_value: Some("1".into()),
                primary_key_position: 1,
                hidden: 0,
            }],
            vec![schema_index(IndexInfo {
                name: "i".into(),
                unique: 1,
                origin: "c".into(),
                columns: vec![Some("a".into()), Some("b".into())],
            })],
            vec![SchemaForeignKey {
                id: 0,
                sequence: 1,
                table: "u".into(),
                from: "a".into(),
                to: "b".into(),
                on_update: "NO ACTION".into(),
                on_delete: "CASCADE".into(),
                match_clause: "NONE".into(),
            }],
        )],
        ..schema(i64::MAX)
    };
    let text = schema_text(&full);
    let value: serde_json::Value = serde_json::from_str(&text).unwrap();
    assert_eq!(value.to_string().len(), text.len());
    assert_eq!(value["schema_version"], i64::MAX);
    assert_eq!(value["objects"][0]["name"], "\u{e9}\"");
    assert!(value["objects"][0]["table_name"].is_null());
    assert_eq!(value["objects"][0]["sql"], "CREATE\nTABLE");
    let table = &value["tables"][0];
    assert_eq!(table["without_rowid"], true);
    assert_eq!(table["strict"], false);
    assert_eq!(table["columns"][0]["not_null"], true);
    assert_eq!(table["columns"][0]["default_value"], "1");
    assert_eq!(table["indexes"][0]["columns"][1], "b");
    assert_eq!(table["foreign_keys"][0]["on_delete"], "CASCADE");
    assert_eq!(table["foreign_keys"][0]["match_clause"], "NONE");
}

#[test]
fn a_schema_read_inside_a_transaction_is_kept() {
    let mut registry = observed();
    registry.publish_begin_as("h", 4, "deferred", "tx".into()).unwrap();
    let overlay = |r: &HandleRegistry| {
        let t = r.entries[0].transaction.as_ref().unwrap();
        t.overlay.as_ref().map(|s| s.schema_version)
    };
    assert_eq!(overlay(&registry), None);
    registry.publish_schema("h", schema(5), 1000).unwrap();
    assert_eq!(overlay(&registry), Some(5));
    registry.publish_query("h", 5, 6, true).unwrap();
    assert_eq!(overlay(&registry), Some(5));
    assert_eq!(handle(&registry).schema_version, 4);
}

#[test]
fn shutdown_empties_the_registry() {
    let mut registry = begun();
    assert_eq!(registry.drain(), vec!["h".to_owned()]);
    assert!(registry.list().is_empty());
}

#[test]
fn errors_of_the_server_have_texts() {
    for (error, text) in [
        (CoreError::UnknownHandle, "handle not found"),
        (CoreError::TransactionOpen, "transaction already open"),
        (CoreError::SchemaStale, "schema observation is stale"),
        (CoreError::worker_message("m"), "m"),
        (CoreError::Io("gone".into()), "I/O: gone"),
    ] {
        assert_eq!(error.message(), text);
    }
    assert_eq!(bool_str(true), "true");
}

fn cells(n: usize) -> Vec<Cell> {
    (0..n).map(|i| Cell::Integer(i.to_string())).collect()
}

#[test]
fn rows_are_collected_up_to_the_limit() {
    let names = |n: usize| (0..n).map(|i| format!("c{i}")).collect::<Vec<_>>();
    assert!(RowCollector::start(names(3), 2, 10).is_err());
    let mut rows = RowCollector::start(names(2), 2, 2).unwrap();
    for _ in 0..3 {
        rows.push(cells(2));
    }
    let result = rows.finish(5, 5, 9);
    assert_eq!(result.rows_returned, 2);
    assert_eq!(result.rows.len(), 2);
    assert!(result.truncated && result.execution_complete);
    assert_eq!(result.changes, 0);
    let rows = RowCollector::start(names(0), 2, 2).unwrap();
    let result = rows.finish(5, 6, 9);
    assert_eq!(result.changes, 9);
    assert!(!result.truncated);
}

#[test]
fn payloads_are_measured_in_bytes() {
    let mut rows = RowCollector::start(vec!["a".into()], 1, 1).unwrap();
    rows.push(vec![Cell::Text("\u{e9}\"".into())]);
    let result = rows.finish(0, 0, 0);
    let expected = "{\"columns\":[\"a\"],\"rows\":[[{\"type\":\"text\",\"value\":\"\u{e9}\\\"\"}]]}";
    assert_eq!(payload_len(&result), expected.len());
}

#[test]
fn requests_are_checked_before_they_run() {
    let config = Config::default();
    let values =
        check_statement("SELECT ?", &vec![Cell::Null], &vec![RealReading::Malformed], &config)
            .unwrap();
    assert_eq!(values.len(), 1);
    let small = Config { sql_byte_limit: 4, ..config };
    assert!(check_statement("SELECT", &Vec::new(), &Vec::new(), &small).is_err());
    assert!(check_statement("SE\0", &Vec::new(), &Vec::new(), &config).is_err());
    assert!(check_statement(
        "SELECT ?",
        &vec![Cell::Integer("x".into())],
        &vec![RealReading::Malformed],
        &config
    )
    .is_err());
    assert!(validate_batch_sql("SELECT 1;", 9).is_ok());
    assert!(validate_batch_sql("SELECT 1;", 8).is_err());
    assert_eq!(batch_text(b"abc".to_vec(), 3).unwrap(), "abc");
    assert!(batch_text(b"abcd".to_vec(), 3).is_err());
    assert!(batch_text(vec![0xff], 3).is_err());
    assert!(batch_text(b"a\0".to_vec(), 3).is_err());
}

/// Runs statements on a real connection; gives the result or the error.
fn run_batch(
    conn: &Connection,
    statements: &[&str],
    single: bool,
    limit: usize,
    byte_limit: usize,
    expected: i64,
) -> Result<(Vec<QueryResult>, i64), WorkerError> {
    let sql = |e: rusqlite::Error| failure(None, &e.to_string());
    let mut run = BatchRun::start(single, limit, byte_limit, expected);
    let mut signal = MutationSignal::new();
    let mut validated = 0;
    let mut next = 0;
    let mut reply = BatchReply::Autocommit(conn.is_autocommit());
    loop {
        reply = match run.step(reply, &mut signal) {
            BatchAction::ReadVersion => BatchReply::Version(
                conn.query_row("PRAGMA schema_version", [], |r| r.get(0)).map_err(sql),
            ),
            BatchAction::Validate => {
                validated += 1;
                BatchReply::Found(Ok(statements.get(validated - 1).map(|s| s.to_string())))
            }
            BatchAction::Seek => {
                next += 1;
                BatchReply::Found(Ok(statements.get(next - 1).map(|s| s.to_string())))
            }
            BatchAction::Savepoint => {
                BatchReply::Done(conn.execute_batch("SAVEPOINT s").map_err(sql))
            }
            BatchAction::Restore => {
                BatchReply::Done(conn.execute_batch("ROLLBACK TO s; RELEASE s").map_err(sql))
            }
            BatchAction::Release => BatchReply::Done(conn.execute_batch("RELEASE s").map_err(sql)),
            BatchAction::Execute { sql: text, .. } => {
                let mut stmt = match conn.prepare(&text) {
                    Ok(stmt) => stmt,
                    Err(e) => {
                        reply = BatchReply::Failed {
                            failure: sql(e),
                            autocommit: conn.is_autocommit(),
                        };
                        continue;
                    }
                };
                let columns: Vec<String> =
                    stmt.column_names().iter().map(|c| c.to_string()).collect();
                let width = columns.len();
                let mut rows = RowCollector::start(columns, 10, 10).unwrap();
                let mut found = stmt.raw_query();
                loop {
                    match found.next() {
                        Ok(None) => {
                            let result = rows.finish(0, 0, 0);
                            let bytes = payload_len(&result);
                            break BatchReply::Returned { result, bytes };
                        }
                        Ok(Some(row)) => {
                            let mut cells = Vec::new();
                            for i in 0..width {
                                cells.push(match row.get::<_, i64>(i) {
                                    Ok(v) => Cell::Integer(v.to_string()),
                                    Err(_) => Cell::Text(row.get(i).unwrap()),
                                });
                            }
                            rows.push(cells);
                        }
                        Err(e) => {
                            break BatchReply::Failed {
                                failure: sql(e),
                                autocommit: conn.is_autocommit(),
                            }
                        }
                    }
                }
            }
            BatchAction::Fail(e) => return Err(e),
            BatchAction::Finish { results, schema_after, .. } => return Ok((results, schema_after)),
        };
    }
}

fn version(conn: &Connection) -> i64 {
    conn.query_row("PRAGMA schema_version", [], |r| r.get(0)).unwrap()
}

#[test]
fn batches_run_in_order() {
    let conn = Connection::open_in_memory().unwrap();
    conn.execute_batch("BEGIN").unwrap();
    let statements =
        ["CREATE TABLE t(x)", "INSERT INTO t VALUES (1), (2)", "SELECT x FROM t ORDER BY x"];
    let (results, after) = run_batch(&conn, &statements, false, 3, 1000, 0).unwrap();
    assert_eq!(results.len(), 3);
    assert_eq!(after, version(&conn));
    assert_eq!(results[2].rows.len(), 2);
    assert_eq!(results[2].rows[1], vec![Cell::Integer("2".into())]);
}

#[test]
fn statement_savepoint_atomicity() {
    let conn = Connection::open_in_memory().unwrap();
    conn.execute_batch("CREATE TABLE t(x UNIQUE); BEGIN").unwrap();
    let v = version(&conn);
    let statements = ["INSERT INTO t VALUES (1)", "INSERT INTO t VALUES (2), (1)"];
    let e = run_batch(&conn, &statements, false, 9, 1000, v).unwrap_err();
    assert!(e.message().contains("UNIQUE"));
    let n: i64 = conn.query_row("SELECT count(*) FROM t", [], |r| r.get(0)).unwrap();
    assert_eq!(n, 1);
    assert!(!conn.is_autocommit());
}

#[test]
fn returning_byte_overflow_atomic() {
    let conn = Connection::open_in_memory().unwrap();
    conn.execute_batch("CREATE TABLE t(x); BEGIN DEFERRED").unwrap();
    let v = version(&conn);
    let insert = "INSERT INTO t VALUES ('persist?') RETURNING x";
    let err = run_batch(&conn, &[insert], true, 1, 1, v).unwrap_err();
    assert!(matches!(err, WorkerError::ResultTooLarge { limit: 1, .. }));
    let err = classify_worker_error(err, true);
    assert!(
        matches!(err, CoreError::Worker(_)) && err.message().contains("result"),
        "expected result overflow, got {err:?}"
    );
    conn.execute_batch("COMMIT").unwrap();
    assert_eq!(
        conn.query_row("SELECT count(*) FROM t", [], |r| r.get::<_, i64>(0)).unwrap(),
        0
    );
}

#[test]
fn legacy_query_rejects_second_statement_without_executing_first() {
    let conn = Connection::open_in_memory().unwrap();
    conn.execute_batch("CREATE TABLE t(x); BEGIN").unwrap();
    let v = version(&conn);
    let e = run_batch(&conn, &["INSERT INTO t VALUES (1)", "SELECT 1"], true, 9, 99, v)
        .unwrap_err();
    assert_eq!(e.message(), "multiple SQL statements are not allowed");
    let n: i64 = conn.query_row("SELECT count(*) FROM t", [], |r| r.get(0)).unwrap();
    assert_eq!(n, 0);
    assert_eq!(run_batch(&conn, &[], true, 9, 99, v).unwrap_err().message(), "SQL is empty");
    assert_eq!(run_batch(&conn, &[], false, 9, 99, v).unwrap_err().message(), "SQL is empty");
}

#[test]
fn batch_statement_limit_rejects_before_execution_of_extra_statement() {
    let conn = Connection::open_in_memory().unwrap();
    conn.execute_batch("CREATE TABLE t(x); BEGIN").unwrap();
    let v = version(&conn);
    let insert = "INSERT INTO t VALUES (1)";
    let e = run_batch(&conn, &[insert, insert], false, 1, 99, v).unwrap_err();
    assert_eq!(e.message(), "batch statement limit exceeded (limit 1)");
    let n: i64 = conn.query_row("SELECT count(*) FROM t", [], |r| r.get(0)).unwrap();
    assert_eq!(n, 1);
}

#[test]
fn batches_need_a_transaction_and_a_fresh_schema() {
    let conn = Connection::open_in_memory().unwrap();
    let e = run_batch(&conn, &["SELECT 1"], true, 1, 99, 0).unwrap_err();
    assert_eq!(e.message(), "transaction required");
    conn.execute_batch("BEGIN").unwrap();
    let e = run_batch(&conn, &["SELECT 1"], true, 1, 99, 77).unwrap_err();
    assert_eq!(e.message(), "SCHEMA_STALE");
    let e = run_batch(&conn, &["REINDEX"], true, 1, 99, 0).unwrap_err();
    assert_eq!(
        e.message(),
        format!("statement is denied by SQL policy: {}", PolicyError::Maintenance.as_str())
    );
    assert_eq!(run_batch(&conn, &["SELECT 1"], true, 1, 99, 0).unwrap().0.len(), 1);
}

#[test]
fn schema_pragmas_quote_names() {
    assert_eq!(schema_query(SchemaPragma::TableColumns, "a'b"), "PRAGMA table_xinfo('a''b')");
    assert_eq!(schema_query(SchemaPragma::ForeignKeys, "t"), "PRAGMA foreign_key_list('t')");
    assert_eq!(schema_query(SchemaPragma::TableIndexes, "t"), "PRAGMA index_list('t')");
    assert_eq!(schema_query(SchemaPragma::IndexColumns, "i"), "PRAGMA index_xinfo('i')");
}

#[test]
fn schema_rows_are_reported() {
    let column = schema_column(ColumnInfo {
        name: "a".into(),
        declared_type: None,
        not_null: 2,
        default_value: Some("1".into()),
        primary_key_position: 1,
        hidden: 0,
    });
    assert!(column.not_null && column.primary_key_position == 1);
    let index = schema_index(IndexInfo {
        name: "i".into(),
        unique: 0,
        origin: "c".into(),
        columns: vec![Some("a".into()), None],
    });
    assert!(!index.unique);
    assert_eq!(index.columns, vec!["a"]);
    let table = schema_table("t".into(), 1, 0, vec![column], vec![index], Vec::new());
    assert!(table.without_rowid && !table.strict);
    assert!(matches!(user_version(1, Some(7), false), Ok(7)));
    assert!(user_version(1, None, false).is_err());
    assert!(user_version(2, Some(7), false).is_err());
    assert!(user_version(1, Some(7), true).is_err());
}

#[test]
fn schema_read_preserves_caller_transaction() {
    assert_eq!(schema_cleanup(false, true), SchemaCleanup::Nothing);
    assert_eq!(schema_cleanup(true, true), SchemaCleanup::Commit);
    assert_eq!(schema_cleanup(true, false), SchemaCleanup::Rollback);
    assert!(matches!(settle_schema(false, Ok(1), false, false), Ok(1)));
    assert!(matches!(settle_schema(true, Ok(1), true, true), Ok(1)));
    assert!(settle_schema::<i64>(true, Err(WorkerError::Closed), true, false)
        .unwrap_err()
        .mentions("handle invalidated"));
    assert!(settle_schema(true, Ok(1), false, true).is_err());
    let mut run = SchemaRun::start();
    assert!(matches!(run.step(SchemaReply::Autocommit(false)), SchemaAction::TakeSnapshot));
    assert!(matches!(run.step(SchemaReply::Done(Ok(()))), SchemaAction::ReadVersion));
    match run.step(SchemaReply::Version(Err(failure(Some(5), "busy")))) {
        SchemaAction::Answer(Err(WorkerError::Sqlite(e))) => assert_eq!(e.code, Some(5)),
        other => panic!("{other:?}"),
    }
}

#[test]
fn schemas_are_read_in_one_transaction() {
    let mut run = SchemaRun::start();
    assert!(matches!(run.step(SchemaReply::Autocommit(true)), SchemaAction::Begin));
    assert!(matches!(run.step(SchemaReply::Done(Ok(()))), SchemaAction::TakeSnapshot));
    assert!(matches!(run.step(SchemaReply::Done(Ok(()))), SchemaAction::ReadVersion));
    assert!(matches!(run.step(SchemaReply::Version(Ok(3))), SchemaAction::ReadUserVersion));
    assert!(matches!(
        run.step(SchemaReply::UserVersion(Ok((1, Some(9), false)))),
        SchemaAction::ReadObjects
    ));
    let objects = vec![SchemaObject {
        object_type: "table".into(),
        name: "t".into(),
        table_name: Some("t".into()),
        sql: None,
    }];
    assert!(matches!(
        run.step(SchemaReply::Objects { identity: "/a".into(), objects: Ok(objects) }),
        SchemaAction::ListTables
    ));
    let ask = |action: SchemaAction| match action {
        SchemaAction::Ask(s) => s,
        other => panic!("{other:?}"),
    };
    let tables = vec![TableRow { name: "t".into(), without_rowid: 0, strict: 1 }];
    assert_eq!(ask(run.step(SchemaReply::Tables(Ok(tables)))), "PRAGMA table_xinfo('t')");
    let columns = vec![SchemaColumn {
        name: "a".into(),
        declared_type: None,
        not_null: false,
        default_value: None,
        primary_key_position: 0,
        hidden: 0,
    }];
    assert_eq!(ask(run.step(SchemaReply::Columns(Ok(columns)))), "PRAGMA index_list('t')");
    let indexes = vec![IndexRow { name: "i".into(), unique: 1, origin: "c".into() }];
    assert_eq!(ask(run.step(SchemaReply::Indexes(Ok(indexes)))), "PRAGMA index_xinfo('i')");
    assert_eq!(
        ask(run.step(SchemaReply::IndexColumns(Ok(vec![Some("a".into())])))),
        "PRAGMA foreign_key_list('t')"
    );
    let keys: Vec<SchemaForeignKey> = Vec::new();
    assert!(matches!(
        run.step(SchemaReply::ForeignKeys(Ok(keys))),
        SchemaAction::CleanUp(SchemaCleanup::Commit)
    ));
    match run.step(SchemaReply::CleanedUp { succeeded: true, autocommit: true }) {
        SchemaAction::Answer(Ok(info)) => {
            assert_eq!((info.schema_version, info.user_version), (3, 9));
            assert_eq!(info.objects.len(), 1);
            assert_eq!(info.tables.len(), 1);
            assert!(info.tables[0].strict);
            assert_eq!(info.tables[0].indexes[0].columns, vec!["a"]);
        }
        other => panic!("{other:?}"),
    }
}

#[test]
fn open_existing_validation() {
    let mut registry = HandleRegistry::new();
    assert!(registry.check_open("/a", A, 2).is_ok());
    let ro = Handle::with_id("ro".into(), "/a".into(), true, "wal".into());
    assert!(!registry.is_in_use("ro"));
    registry.register(ro, A, 2);
    assert!(registry.is_in_use("ro"));
    registry.publish_schema("ro", schema(1), 1000).unwrap();
    assert_eq!(registry.check_begin("ro", false).unwrap(), 1);
    registry.publish_begin("ro", 1, "deferred").unwrap();
    let mut signal = MutationSignal::new();
    assert_eq!(
        decide_kind(ActionKind::CreateTable, Some("main"), true, &mut signal),
        Authorization::Deny
    );
    let denied = classify_worker_error(
        WorkerError::Sqlite(failure(Some(23), "not authorized")),
        true,
    );
    assert!(matches!(denied, CoreError::PolicyDenied { .. }));
    registry.publish_rollback("ro", Ok(())).unwrap();
    assert!(matches!(registry.check_open("/a", A, 2), Err(CoreError::AlreadyOpen)));
    assert!(matches!(registry.check_open("/link", A, 2), Err(CoreError::AlreadyOpen)));
    registry.close("ro").unwrap();
    assert!(!registry.is_in_use("ro"));
    assert!(registry.check_open("/a", A, 2).is_ok());

    assert!(check_header(0, Ok(Vec::new())).is_err());
    assert!(check_header(100, Ok(b"SQLite format 3\0".to_vec())).is_ok());
    assert!(matches!(
        check_header(100, Ok(b"not a database..".to_vec())),
        Err(CoreError::InvalidDatabase)
    ));
    assert!(check_header(3, Err("short".into())).is_err());
    assert!(check_access(true, Some(1)).is_ok());
    assert!(check_access(false, Some(0)).is_ok());
    assert!(check_access(false, Some(1)).is_err());
}

#[test]
fn created_files_keep_their_identity() {
    assert!(check_creation_identity("/a", A, Ok(A), Ok(A)).is_ok());
    for (descriptor, found) in [
        (Ok(B), Ok(A)),
        (Ok(A), Ok(B)),
        (Err("x".to_owned()), Ok(A)),
        (Ok(A), Err("gone".to_owned())),
    ] {
        let e = check_creation_identity("/a", A, descriptor, found).unwrap_err();
        assert!(e.message().contains("/a"));
    }
}

#[test]
fn workers_get_their_limits() {
    let config = Config::default();
    assert!(worker_limits(&config).is_ok());
    let idle = Config {
        readonly_idle_seconds: 5,
        writable_idle_seconds: 6,
        ..config
    };
    assert_eq!(idle_seconds(&idle, true), 5);
    assert_eq!(idle_seconds(&idle, false), 6);
    let e = probe_error(&LimitInstallError::Conversion { field: "x", requested: 7 });
    assert!(!e.message().is_empty());
    assert!(join_error("panicked").message().contains("panicked"));
}

#[test]
fn merge_call_after_shutdown_has_no_side_effects() {
    let mut registry = AdmissionRegistry::default();
    let reservation = admit_merge(&mut registry, false).unwrap();
    assert_eq!(registry.active_len(), 1);
    registry.finish(reservation.id);
    assert!(admit_merge(&mut registry, true).is_err());
    registry.begin_shutdown();
    assert!(matches!(admit_merge(&mut registry, false), Err(CoreError::ServerShutdown)));
    assert_eq!(registry.active_len(), 0);
}

#[test]
fn shutdown_report_scope_and_idempotence() {
    let good = ShutdownStatus { connection_closed: true, thread_joined: true };
    assert!(close_result(Ok(good)).is_ok());
    assert!(close_result(Err(WorkerShutdownError::CloseUncertain("x".into()))).is_err());
    let report = shutdown_report(vec![
        ShutdownJoin::Ended { handle: "a".into(), result: Ok(good) },
        ShutdownJoin::Ended { handle: "b".into(), result: Ok(good) },
    ]);
    assert!(report.is_success());
    let report = shutdown_report(vec![
        ShutdownJoin::Ended { handle: "a".into(), result: Ok(good) },
        ShutdownJoin::Lost("panicked".into()),
    ]);
    assert!(!report.is_success());
}

#[test]
fn rolling_back_again_changes_nothing() {
    let mut registry = begun();
    let first = registry.publish_rollback("h", Ok(())).unwrap();
    let second = registry.publish_rollback("h", Ok(())).unwrap();
    assert!(first.transaction_id.is_none() && second.transaction_id.is_none());
    assert_eq!(first.schema_observed, second.schema_observed);
    assert_eq!(first.schema_version, second.schema_version);
    assert_eq!(first.observation_generation, second.observation_generation);
}

/// Who runs the statements of a connection.
#[derive(Clone, Default)]
struct Scope {
    trusted: Arc<AtomicBool>,
    getter: Arc<AtomicBool>,
}

impl Scope {
    fn trusted<R>(&self, f: impl FnOnce() -> R) -> R {
        self.trusted.store(true, Ordering::SeqCst);
        let result = f();
        self.trusted.store(false, Ordering::SeqCst);
        result
    }
}

/// A connection in a transaction whose pragmas the policy decides on.
fn guarded(scope: &Scope) -> Connection {
    let conn = Connection::open_in_memory().unwrap();
    conn.execute_batch("CREATE TABLE t(a); PRAGMA foreign_keys=ON; BEGIN").unwrap();
    let scope = scope.clone();
    conn.authorizer(Some(move |context: AuthContext<'_>| {
        let kind = match context.action {
            AuthAction::Pragma { .. } => ActionKind::Pragma,
            _ => ActionKind::Select,
        };
        let trust = TrustScope { active: scope.trusted.load(Ordering::SeqCst) };
        let getter = scope.getter.load(Ordering::SeqCst);
        let mut signal = MutationSignal::new();
        match authorize(trust, getter, kind, context.database_name, false, &mut signal) {
            Authorization::Allow => rusqlite::hooks::Authorization::Allow,
            Authorization::Deny => rusqlite::hooks::Authorization::Deny,
        }
    }))
    .unwrap();
    conn
}

/// Runs a text that has to hold one statement.
fn run_single(conn: &Connection, scope: &Scope, sql: &str) -> Result<(), CoreError> {
    let told = |e: rusqlite::Error| failure(e.sqlite_extended_error_code(), &e.to_string());
    let expected: i64 =
        scope.trusted(|| conn.query_row("PRAGMA schema_version", [], |r| r.get(0))).unwrap();
    let mut run = BatchRun::start(true, 1, 1000, expected);
    let mut signal = MutationSignal::new();
    let mut validation = rusqlite::Batch::new(conn, sql);
    let mut cursor = rusqlite::Batch::new(conn, sql);
    let mut reply = BatchReply::Autocommit(conn.is_autocommit());
    loop {
        reply = match run.step(reply, &mut signal) {
            BatchAction::ReadVersion => BatchReply::Version(scope.trusted(|| {
                conn.query_row("PRAGMA schema_version", [], |r| r.get(0)).map_err(told)
            })),
            BatchAction::Validate => BatchReply::Found(scope.trusted(|| {
                validation.next().map(|s| s.map(|_| sql.to_owned())).map_err(told)
            })),
            BatchAction::Seek => BatchReply::Found(scope.trusted(|| {
                cursor.next().map(|s| s.map(|_| sql.to_owned())).map_err(told)
            })),
            BatchAction::Savepoint => {
                BatchReply::Done(scope.trusted(|| conn.execute_batch("SAVEPOINT s").map_err(told)))
            }
            BatchAction::Restore => BatchReply::Done(scope.trusted(|| {
                conn.execute_batch("ROLLBACK TO s; RELEASE s").map_err(told)
            })),
            BatchAction::Release => {
                BatchReply::Done(scope.trusted(|| conn.execute_batch("RELEASE s").map_err(told)))
            }
            BatchAction::Execute { sql: text, approved_getter } => {
                scope.getter.store(approved_getter, Ordering::SeqCst);
                let ran = conn.prepare(&text).and_then(|mut statement| {
                    let mut rows = statement.raw_query();
                    while rows.next()?.is_some() {}
                    Ok(())
                });
                scope.getter.store(false, Ordering::SeqCst);
                match ran {
                    Ok(()) => BatchReply::Returned {
                        result: RowCollector::start(Vec::new(), 1, 1).unwrap().finish(0, 0, 0),
                        bytes: 1,
                    },
                    Err(e) => {
                        BatchReply::Failed { failure: told(e), autocommit: conn.is_autocommit() }
                    }
                }
            }
            BatchAction::Fail(e) => return Err(classify_worker_error(e, !conn.is_autocommit())),
            BatchAction::Finish { .. } => return Ok(()),
        };
    }
}

#[test]
fn approved_pragma_setters_and_noncanonical_sources_remain_denied() {
    let scope = Scope::default();
    let conn = guarded(&scope);
    for sql in [
        "PRAGMA foreign_keys=ON",
        "PRAGMA recursive_triggers(1)",
        "PRAGMA main.foreign_keys",
        "PRAGMA \"foreign_keys\"",
        "PRAGMA /* split */ foreign_keys",
        "EXPLAIN PRAGMA foreign_keys",
        "PRAGMA user_version",
        "PRAGMA journal_mode",
        "SELECT * FROM pragma_foreign_keys",
    ] {
        let error = run_single(&conn, &scope, sql).expect_err(sql);
        assert!(
            matches!(error, CoreError::PolicyDenied { .. }),
            "expected typed policy denial for {sql}, got {error:?}"
        );
        run_single(&conn, &scope, "PRAGMA foreign_keys").unwrap();
    }
    for sql in [
        "PRAGMA foreign_keys()",
        "PRAG/**/MA foreign_keys",
        "PRAGMA foreign_keys garbage",
        "PRAGMA journal_mode garbage",
        "PRAGMA writable_schema garbage",
        "CREATE VIEW malformed AS SELECT * FROM pragma_table_info('t') WHERE (",
        "CREATE TRIGGER malformed AFTER INSERT ON t BEGIN SELECT * FROM pragma_table_info('t'); END garbage",
        "ANALYZE garbage extra",
        "REINDEX garbage extra",
    ] {
        let malformed =
            run_single(&conn, &scope, sql).expect_err("malformed pragma must fail");
        assert!(
            !matches!(malformed, CoreError::PolicyDenied { .. }),
            "malformed SQL must retain its SQLite class for {sql}: {malformed:?}"
        );
        run_single(&conn, &scope, "SELECT 1")
            .expect("transaction must recover after malformed SQL");
    }
}

#[test]
fn valid_compound_trigger_and_second_statement_boundary_are_preserved() {
    let scope = Scope::default();
    let conn = guarded(&scope);
    run_single(
        &conn,
        &scope,
        "CREATE TRIGGER compound AFTER INSERT ON t BEGIN UPDATE t SET a = a; SELECT 1; END;",
    )
    .unwrap();
    for sql in [
        "SELECT 1; PRAGMA foreign_keys",
        "PRAGMA foreign_keys; SELECT 1",
        "PRAGMA recursive_triggers; SELECT 1",
    ] {
        let error = run_single(&conn, &scope, sql)
            .expect_err("second top-level statement must be rejected");
        assert!(
            !matches!(error, CoreError::PolicyDenied { .. }),
            "multiple statements must retain the boundary class: {error:?}"
        );
        run_single(&conn, &scope, "SELECT 1")
            .expect("transaction must recover after multiple statements");
    }
}

#[test]
fn schema_qualified_temp_objects_denied() {
    let scope = Scope::default();
    let conn = guarded(&scope);
    let mut signal = MutationSignal::new();
    for kind in [ActionKind::CreateTable, ActionKind::CreateView] {
        assert_eq!(decide_kind(kind, Some("temp"), false, &mut signal), Authorization::Deny);
    }
    let temp_index = run_single(&conn, &scope, "CREATE INDEX temp.i ON t(a)")
        .expect_err("TEMP index on a non-TEMP table must be rejected");
    assert!(
        !matches!(temp_index, CoreError::PolicyDenied { .. }),
        "SQLite parser rejection must retain its non-policy class: {temp_index:?}"
    );
    run_single(&conn, &scope, "CREATE TABLE plain_t2(a)").expect("unqualified create");
    run_single(&conn, &scope, "CREATE TABLE main.t2(a)").expect("main-qualified create");
    run_single(&conn, &scope, "CREATE INDEX main.i ON t(a)").expect("main-qualified index");
}
