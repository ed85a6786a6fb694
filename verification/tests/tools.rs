//! Tools and their answers.
use sqlite_mcp_core::merge::error::MergeError;
use sqlite_mcp_core::merge::results::{
    ExtractionResult, FileByteCounts, Files, ForeignKeyCheck, ImportResult, ImportValidation,
    IntegrityCheck, SchemaSummary,
};
use sqlite_mcp_core::server::transaction::parse_begin_mode;
use sqlite_mcp_core::tools::{
    advertised_tool_names, error, merge_next_extract, merge_next_import, next, TransactionModeArg,
};
use sqlite_mcp_core::worker::WorkerError;
use sqlite_mcp_core::{CoreError, Envelope, Handle};

fn handle(transaction: Option<&str>) -> Handle {
    let mut h = Handle::with_id("h".into(), "/p".into(), false, "wal".into());
    h.transaction_id = transaction.map(|t| t.to_owned());
    h
}

fn message(m: &str) -> CoreError {
    CoreError::Worker(WorkerError::Message(m.to_owned()))
}

#[test]
fn envelope_serializes_version() {
    let e = Envelope {
        envelope_version: 1,
        handle_state: None,
        next_moves: vec!["open_database".to_owned()],
        outcome: true,
    };
    assert_eq!(e.envelope_version, 1);
}

#[test]
fn eleven_tools_are_advertised() {
    let names = advertised_tool_names();
    assert_eq!(names.len(), 11);
    assert_eq!(names[0], "create_database");
    assert_eq!(names[10], "import_sqlite_text");
}

#[test]
fn moves_follow_the_workflow() {
    assert_eq!(next("create_database"), vec!["open_database"]);
    assert_eq!(next("open_database"), vec!["get_schema", "list_handles", "close_database"]);
    assert_eq!(next("get_schema"), vec!["begin_transaction", "get_schema"]);
    assert_eq!(next("begin_transaction"), vec!["query", "commit", "rollback"]);
    assert_eq!(next("query"), vec!["query", "commit", "rollback"]);
    for tool in ["commit", "rollback"] {
        assert_eq!(next(tool), vec!["begin_transaction", "get_schema", "close_database"]);
    }
    assert_eq!(next("close_database"), vec!["open_database"]);
    assert_eq!(next("list_handles"), vec!["open_database", "list_handles"]);
}

#[test]
fn every_error_has_a_class() {
    let open = CoreError::Busy {
        primary_code: 5,
        extended_code: 5,
        transaction_open: true,
        transaction_continuable: true,
    };
    let snapshot = CoreError::BusySnapshot {
        primary_code: 5,
        extended_code: 517,
        transaction_open: true,
        transaction_continuable: true,
    };
    let locked = CoreError::Locked {
        primary_code: 6,
        extended_code: 6,
        transaction_open: false,
        transaction_continuable: false,
    };
    let cancelled = CoreError::Cancelled { transaction_open: false, transaction_continuable: false };
    let late =
        CoreError::DeadlineExceeded { transaction_open: false, transaction_continuable: false };
    let denied =
        CoreError::PolicyDenied { transaction_open: true, transaction_continuable: true };
    for (err, class) in [
        (CoreError::UnknownHandle, "HANDLE_UNKNOWN"),
        (CoreError::TransactionOpen, "TX_ALREADY_OPEN"),
        (CoreError::SchemaRequired, "SCHEMA_REQUIRED"),
        (CoreError::SchemaStale, "SCHEMA_STALE"),
        (CoreError::TransactionExpired, "TX_EXPIRED"),
        (CoreError::AlreadyOpen, "DATABASE_ALREADY_OPEN"),
        (CoreError::SchemaTooLarge, "SCHEMA_TOO_LARGE"),
        (cancelled, "CANCELLED"),
        (late, "DEADLINE_EXCEEDED"),
        (open, "BUSY"),
        (locked, "BUSY"),
        (snapshot, "BUSY_SNAPSHOT"),
        (CoreError::InvalidTransactionMode, "INVALID_TRANSACTION_MODE"),
        (CoreError::HandleLimitReached, "HANDLE_LIMIT"),
        (CoreError::InvalidDatabase, "INVALID_DATABASE"),
        (CoreError::ServerShutdown, "SERVER_SHUTDOWN"),
        (CoreError::Merge(MergeError::new("MERGE_FORMAT_INVALID", "bad")), "MERGE_FORMAT_INVALID"),
        (message("no transaction open"), "NO_TX_OPEN"),
        (message("transaction required"), "NO_TX_OPEN"),
        (message("database is BUSY"), "BUSY"),
        (message("something else"), "INTERNAL"),
        (denied, "INTERNAL"),
        (CoreError::ReadonlyImmediate, "INTERNAL"),
        (CoreError::Io("x".into()), "INTERNAL"),
    ] {
        assert_eq!(error("query", &err, None).class, class, "{err:?}");
    }
}

#[test]
fn errors_tell_the_state_of_the_transaction() {
    let open = handle(Some("t"));
    let r = error("query", &message("syntax"), Some(&open));
    assert!(r.transaction_open && r.transaction_continuable && r.shows_handle);
    assert_eq!(r.message, "syntax");
    let r = error("query", &message("x; handle invalidated"), Some(&open));
    assert!(r.transaction_open && !r.transaction_continuable);
    let r = error("query", &message("outer transaction aborted: x"), Some(&open));
    assert!(!r.transaction_continuable);
    let gone = CoreError::Cancelled { transaction_open: false, transaction_continuable: false };
    let r = error("query", &gone, Some(&open));
    assert!(!r.transaction_open && !r.transaction_continuable);
    let r = error("query", &message("syntax"), None);
    assert!(!r.transaction_open && !r.transaction_continuable && !r.shows_handle);
    let r = error("query", &CoreError::ServerShutdown, Some(&open));
    assert!(!r.transaction_open && !r.shows_handle && r.next_moves.is_empty());
    assert_eq!(r.message, "server is shutting down");
}

#[test]
fn errors_suggest_what_can_follow() {
    let open = handle(Some("t"));
    assert_eq!(
        error("close_database", &CoreError::TransactionOpen, Some(&open)).next_moves,
        vec!["commit", "rollback"]
    );
    assert!(error("create_database", &CoreError::AlreadyOpen, None).next_moves.is_empty());
    assert!(error("close_database", &CoreError::UnknownHandle, None).next_moves.is_empty());
    assert_eq!(
        error("begin_transaction", &CoreError::TransactionOpen, Some(&open)).next_moves,
        vec!["query", "commit", "rollback"]
    );
}

#[test]
fn modes_that_can_be_asked_for() {
    assert_eq!(TransactionModeArg::default().as_str(), "deferred");
    assert_eq!(TransactionModeArg::Immediate.as_str(), "immediate");
    assert!(!parse_begin_mode("deferred").unwrap());
    assert!(parse_begin_mode("immediate").unwrap());
    for mode in ["exclusive", "DEFERRED", "Immediate", ""] {
        let e = parse_begin_mode(mode).unwrap_err();
        assert_eq!(e.message(), "invalid transaction mode; expected deferred or immediate");
    }
}

#[test]
fn merge_moves_name_the_files() {
    let extraction = ExtractionResult {
        workspace_path: "/w".into(),
        files: Files {
            base_sql: Some("/w/base \"x\".sql".into()),
            ours_sql: Some("/w/ours\t.sql".into()),
            theirs_sql: None,
            resolved_sql: Some("/w/resolved\u{7}.sql".into()),
        },
        manifest_path: "/w/manifest".into(),
        source_observations: Vec::new(),
        file_byte_counts: FileByteCounts {
            base_sql: 0,
            ours_sql: 0,
            theirs_sql: 0,
            resolved_sql: 0,
            manifest: 0,
        },
        format_version: 1,
        workspace_state: "retained".into(),
    };
    let moves = merge_next_extract(&extraction);
    assert_eq!(
        moves[0],
        "Compare the three source snapshots with diff: \"/w/base \\\"x\\\".sql\" \"/w/ours\\t.sql\" \"\""
    );
    assert_eq!(
        moves[1],
        "Edit only the resolver copy with file tools: \"/w/resolved\\u0007.sql\""
    );
    assert!(moves[2].contains("import_sqlite_text(sql_path=\"/w/resolved\\u0007.sql\", output_path"));
    let import = ImportResult {
        output_path: "/out/\\db".into(),
        output_state: "created".into(),
        statement_count: 0,
        byte_count: 0,
        validation: ImportValidation {
            journal_mode: "delete".into(),
            schema_summary: SchemaSummary { object_count: 0, table_count: 0 },
            foreign_key_check: ForeignKeyCheck { ok: true, violations: 0 },
            integrity_check: IntegrityCheck { ok: true, message: "ok".into() },
        },
    };
    assert_eq!(
        merge_next_import(&import),
        vec!["Verify the committed SQLite output and check it in or consume it as needed: \"/out/\\\\db\""]
    );
}
