//! The authorizer and the structural guards.
use rusqlite::fallible_iterator::FallibleIterator;
use sqlite_mcp_core::policy::{
    authorize, check_maintenance, check_stored_body, decide_kind, is_approved_getter, trusted,
    ActionKind, Authorization, CursorStep, MutationSignal, PolicyError, PrepareEvent, PrepareScan,
    PrepareStep, TailCursor, TrustScope,
};
use sqlite_mcp_core::worker::SqliteFailure;

fn decide(
    kind: ActionKind<'_>,
    database: Option<&str>,
    readonly: bool,
    signal: &mut MutationSignal,
) -> Authorization {
    authorize(TrustScope { active: false }, false, kind, database, readonly, signal)
}

#[test]
fn decision_table_is_fail_closed() {
    let mut signal = MutationSignal::new();
    for (kind, database) in [
        (ActionKind::Select, None),
        (ActionKind::Read, Some("main")),
        (ActionKind::Read, None),
        (ActionKind::Function { name: "abs" }, None),
        (ActionKind::Recursive, None),
    ] {
        assert_eq!(
            decide(kind, database, false, &mut signal),
            Authorization::Allow,
            "expected allow: {kind:?} db={database:?}"
        );
    }
    for name in ["pragma_table_info", "PRAGMA_x", "load_extension"] {
        assert_eq!(
            decide(ActionKind::Function { name }, None, false, &mut signal),
            Authorization::Deny,
            "function {name:?} must be denied"
        );
    }
    assert_eq!(decide(ActionKind::Analyze, None, false, &mut signal), Authorization::Deny);
    assert_eq!(decide(ActionKind::Reindex, None, false, &mut signal), Authorization::Allow);
    for kind in [
        ActionKind::Unknown,
        ActionKind::Pragma,
        ActionKind::Attach,
        ActionKind::Detach,
        ActionKind::Transaction,
        ActionKind::Savepoint,
        ActionKind::CreateTempIndex,
        ActionKind::CreateTempTable,
        ActionKind::CreateTempTrigger,
        ActionKind::CreateTempView,
        ActionKind::DropTempIndex,
        ActionKind::DropTempTable,
        ActionKind::DropTempTrigger,
        ActionKind::DropTempView,
        ActionKind::CreateVtable,
        ActionKind::DropVtable,
    ] {
        assert_eq!(
            decide(kind, None, false, &mut signal),
            Authorization::Deny,
            "expected deny: {kind:?}"
        );
    }
    for database in [None, Some("main"), Some("temp")] {
        assert_eq!(
            decide_kind(ActionKind::Unmapped, database, false, &mut signal),
            Authorization::Deny,
            "Unmapped must be denied (db={database:?})"
        );
    }
}

#[test]
fn temp_schema_qualified_actions_denied() {
    let mut signal = MutationSignal::new();
    for kind in [
        ActionKind::CreateIndex,
        ActionKind::CreateTable,
        ActionKind::CreateTrigger,
        ActionKind::CreateView,
        ActionKind::DropIndex,
        ActionKind::DropTable,
        ActionKind::DropTrigger,
        ActionKind::DropView,
        ActionKind::Insert,
        ActionKind::Update,
        ActionKind::Delete,
        ActionKind::Read,
    ] {
        for database in [None, Some("main")] {
            assert_eq!(
                decide(kind, database, false, &mut signal),
                Authorization::Allow,
                "expected allow: {kind:?} db={database:?}"
            );
        }
        assert_eq!(
            decide(kind, Some("temp"), false, &mut signal),
            Authorization::Deny,
            "temp-qualified action must be denied: {kind:?}"
        );
    }
    for database in ["main", "temp"] {
        let expected = if database == "main" {
            Authorization::Allow
        } else {
            Authorization::Deny
        };
        assert_eq!(
            decide(ActionKind::AlterTable { database }, None, false, &mut signal),
            expected,
            "ALTER TABLE {database}.t"
        );
    }
}

#[test]
fn maintenance_guard_denies_top_level_only() {
    for sql in [
        "ANALYZE",
        "analyze",
        "Analyze main.t",
        "REINDEX",
        "reindex main.t",
        "  REINDEX",
        "-- leading comment\nREINDEX",
        "/* c */ ANALYZE",
        // Comments adjacent to the keyword must not merge into the
        // first token (SQLite treats them as trivia).
        "REINDEX/**/x",
        "REINDEX/*comment*/x",
        "REINDEX/**/",
        "REINDEX-- trailing\nx",
        "ANALYZE/**/",
        "ANALYZE/*c*/main.t",
        "ANALYZE--c\n",
        // EXPLAIN is a diagnostic prefix over the underlying statement:
        // the underlying maintenance keyword governs.
        "EXPLAIN REINDEX",
        "EXPLAIN/**/REINDEX",
        "EXPLAIN QUERY PLAN REINDEX",
        "EXPLAIN ANALYZE",
        "EXPLAIN QUERY PLAN ANALYZE",
        "EXPLAIN/**/QUERY/**/PLAN/**/REINDEX",
    ] {
        assert!(
            check_maintenance(sql).is_err(),
            "maintenance statement accepted: {sql:?}"
        );
    }
    for sql in [
        "SELECT 1",
        "SELECT 'REINDEX is a string'",
        "SELECT 'ANALYZE'",
        "CREATE INDEX i ON t(a)",
        "CREATE TABLE reindex(a)",
        "UPDATE t SET a = 1",
        "INSERT INTO t VALUES ('analyze')",
        "SELECT 1 -- reindex",
        "DELETE FROM t WHERE a = 'REINDEX'",
        "EXPLAIN SELECT 1",
        "EXPLAIN QUERY PLAN SELECT 1",
        "EXPLAIN QUERY PLAN CREATE INDEX i ON t(a)",
    ] {
        assert!(
            check_maintenance(sql).is_ok(),
            "ordinary statement rejected: {sql:?}"
        );
    }
}

#[test]
fn stored_body_guard_targets_calls_not_names() {
    let mut signal = MutationSignal::new();
    for sql in [
        // Bare pragma_-containing identifiers without a call are
        // legitimate names and aliases.
        "CREATE VIEW alias_v AS SELECT 1 AS pragma_alias",
        "CREATE VIEW c AS SELECT pragma_x FROM t",
        "CREATE VIEW q2 AS SELECT * FROM \"some_view\"",
        // Quoted identifiers in NON-call position are names.
        "CREATE VIEW \"a-b-pragma_x\" AS SELECT 1",
        "CREATE VIEW \"weird-name\" AS SELECT 1",
        "CREATE VIEW `back-pragma_x` AS SELECT 1",
        "CREATE VIEW [brack-pragma_x] AS SELECT 1",
        "CREATE VIEW v AS SELECT 'pragma_x'",
        "CREATE VIEW v AS SELECT \"pragma_x\"",
        "CREATE TRIGGER \"t-pragma_x\" AFTER INSERT ON t BEGIN SELECT 1; END",
        "CREATE VIEW IF NOT EXISTS \"a-b-pragma_x\" AS SELECT 1",
        "CREATE VIEW main.pragma_view AS SELECT 1",
        "CREATE TRIGGER main.pragma_trigger AFTER INSERT ON t BEGIN SELECT 1; END",
        "CREATE VIEW main.\"x-pragma_view2\" AS SELECT 1",
        // Comment text is inert.
        "CREATE VIEW v_comment AS SELECT 1 /* pragma_table_info */",
        "CREATE VIEW v_line AS SELECT 1 -- pragma_table_info\n",
        // Bracket-quoted column lists are single components.
        "CREATE VIEW v([x(]) AS SELECT 1",
    ] {
        assert!(
            check_stored_body(sql, &mut signal).is_ok(),
            "legitimate stored-body statement rejected: {sql:?}"
        );
    }
    for sql in [
        // Unquoted TVF calls (the original contract).
        "CREATE VIEW pv AS SELECT * FROM pragma_table_info('t')",
        "CREATE/**/VIEW bv AS SELECT * FROM pragma_table_info('t')",
        "CREATE VIEW/**/bv AS SELECT * FROM pragma_table_info('t')",
        "CREATE VIEW v(x) AS SELECT * FROM pragma_table_info('t')",
        "CREATE TRIGGER g AFTER INSERT ON t BEGIN SELECT * FROM pragma_table_info('t'); END",
        "CREATE TEMP VIEW tv AS SELECT * FROM pragma_table_info('t')",
        // Quoted identifiers ARE callable in SQLite: every quote
        // style in call position must be denied.
        "CREATE VIEW q AS SELECT * FROM \"pragma_table_info\"('t')",
        "CREATE VIEW qb AS SELECT * FROM `pragma_table_info`('t')",
        "CREATE VIEW qk AS SELECT * FROM [pragma_table_info]('t')",
        // Whitespace or a comment between name and paren is still a call.
        "CREATE VIEW qs AS SELECT * FROM pragma_table_info ('t')",
        "CREATE VIEW qc AS SELECT * FROM pragma_table_info/*x*/('t')",
        "CREATE VIEW qd AS SELECT * FROM \"pragma_\"\"x\"('t')",
        // A comment does not neutralize a real call elsewhere.
        "CREATE VIEW v2 AS SELECT 1 /* pragma_x */ , (SELECT * FROM pragma_table_info('t'))",
        "CREATE VIEW v3 AS SELECT 1 -- pragma_x\n, (SELECT * FROM pragma_table_info('t'))",
        "CREATE VIEW v([x(]) AS SELECT * FROM pragma_table_info('t')",
    ] {
        assert!(
            check_stored_body(sql, &mut signal).is_err(),
            "stored body with pragma table-valued call accepted: {sql:?}"
        );
    }
}

#[test]
fn readonly_denies_but_marks() {
    let mut signal = MutationSignal::new();
    assert_eq!(decide(ActionKind::Insert, None, true, &mut signal), Authorization::Deny);
    assert!(signal.take_after_request(), "denied readonly DML must mark");
    assert!(!signal.take_ddl_after_request());
    assert_eq!(decide(ActionKind::CreateTable, None, true, &mut signal), Authorization::Deny);
    assert!(signal.take_ddl_after_request(), "denied readonly DDL must mark ddl");
    assert!(signal.take_after_request());
    assert_eq!(decide(ActionKind::Insert, Some("temp"), false, &mut signal), Authorization::Deny);
    assert!(signal.take_after_request(), "denied temp DML must mark");
    assert_eq!(
        decide(ActionKind::CreateTable, Some("temp"), false, &mut signal),
        Authorization::Deny
    );
    assert!(signal.take_ddl_after_request(), "denied temp DDL must mark ddl");
    let mut signal = MutationSignal::new();
    decide(ActionKind::Select, None, false, &mut signal);
    assert!(!signal.take_after_request());
    decide(ActionKind::Function { name: "abs" }, None, false, &mut signal);
    assert!(!signal.take_after_request());
}

#[test]
fn authorizer_unknown_action_is_denied() {
    let mut signal = MutationSignal::new();
    assert_eq!(decide(ActionKind::Unknown, None, false, &mut signal), Authorization::Deny);
}

fn validate_sql(sql: &str) -> Result<(), PolicyError> {
    let parser = rusqlite::Connection::open_in_memory().unwrap();
    let mut scan = PrepareScan::start(sql)?;
    let mut batch = rusqlite::Batch::new(&parser, sql);
    loop {
        let event = match batch.next() {
            Err(e) => PrepareEvent::Failed(SqliteFailure { code: None, text: e.to_string() }),
            Ok(Some(_)) => PrepareEvent::Prepared { statement: true, consumed: 1 },
            Ok(None) => PrepareEvent::Prepared { statement: false, consumed: 0 },
        };
        if let PrepareStep::Done(verdict) = scan.step(event) {
            return verdict;
        }
    }
}

#[test]
fn single_statement_parser_matrix() {
    assert!(validate_sql("SELECT ';';").is_ok());
    assert!(validate_sql("-- only comment").is_err());
    assert!(validate_sql("SELECT 1; SELECT 2").is_err());
    assert!(validate_sql("SELECT '").is_err());
}

#[test]
fn scan_reports_each_refusal() {
    assert_eq!(validate_sql("-- only comment"), Err(PolicyError::Empty));
    assert_eq!(validate_sql("SELECT 1; SELECT 2"), Err(PolicyError::Multiple));
    assert_eq!(validate_sql("SELECT '"), Err(PolicyError::Denied));
    assert_eq!(validate_sql(" \n\t"), Err(PolicyError::Empty));
    assert_eq!(validate_sql("SELECT 1\0"), Err(PolicyError::Denied));
    assert_eq!(PolicyError::Empty.as_str(), "SQL is empty");
    assert_eq!(PolicyError::Multiple.as_str(), "multiple SQL statements are not allowed");
    assert_eq!(PolicyError::Denied.as_str(), "statement is denied by SQL policy");
    assert_eq!(
        PolicyError::Maintenance.as_str(),
        "maintenance operations (ANALYZE, REINDEX) are denied"
    );
}

#[test]
fn approved_getters_are_read_only_and_canonical() {
    for sql in [
        "PRAGMA foreign_keys",
        "pragma recursive_triggers;",
        " /* leading */ PRAGMA\nforeign_keys /* trailing */ ; -- done\n",
    ] {
        assert!(is_approved_getter(sql), "{sql:?}");
    }
    for sql in [
        "PRAGMA foreign_keys=ON",
        "PRAGMA recursive_triggers(1)",
        "PRAGMA main.foreign_keys",
        "PRAGMA \"foreign_keys\"",
        "PRAGMA /* split */ foreign_keys",
        "EXPLAIN PRAGMA foreign_keys",
        "PRAGMA user_version",
        "PRAGMA journal_mode",
        "SELECT * FROM pragma_foreign_keys",
        "PRAGMA foreign_keys()",
        "PRAG/**/MA foreign_keys",
        "PRAGMA foreign_keys garbage",
        "PRAGMA foreign_keys; SELECT 1",
        "PRAGMAforeign_keys",
        "",
    ] {
        assert!(!is_approved_getter(sql), "{sql:?}");
    }
}

#[test]
fn approved_getters_pass_the_authorizer_alone() {
    let mut signal = MutationSignal::new();
    let scope = TrustScope { active: false };
    assert_eq!(
        authorize(scope, true, ActionKind::Pragma, None, true, &mut signal),
        Authorization::Allow
    );
    assert_eq!(
        authorize(scope, true, ActionKind::Attach, None, false, &mut signal),
        Authorization::Deny
    );
    assert_eq!(
        authorize(scope, false, ActionKind::Pragma, None, false, &mut signal),
        Authorization::Deny
    );
}

#[test]
fn trust_is_scoped() {
    let mut scope = TrustScope { active: false };
    let mut signal = MutationSignal::new();
    let inside = trusted(&mut scope, |active| active);
    assert!(inside);
    assert!(!scope.active);
    assert_eq!(
        authorize(
            TrustScope { active: true },
            false,
            ActionKind::Savepoint,
            None,
            true,
            &mut signal
        ),
        Authorization::Allow
    );
    assert!(!signal.take_after_request());
}

#[test]
fn marks_reset_with_a_request() {
    let mut signal = MutationSignal::new();
    signal.mark_attempt();
    assert!(!signal.take_ddl_after_request());
    assert!(signal.take_after_request());
    assert!(!signal.take_after_request());
    signal.mark_ddl_attempt();
    signal.reset_for_request();
    assert!(!signal.take_after_request());
    assert!(!signal.take_ddl_after_request());
}

#[test]
fn characters_beyond_ascii_belong_to_names() {
    assert!(check_maintenance("\u{ab}reindex\u{bb}").is_ok());
    assert!(check_maintenance("reindex\u{20ac}").is_ok());
    assert!(check_maintenance("(reindex)").is_err());
    assert!(check_maintenance("\u{ab}select\u{bb} reindex").is_ok());
    assert!(check_maintenance("").is_ok());
}

#[test]
fn statements_are_walked_one_by_one() {
    assert_eq!(TailCursor::new("a\0b"), Err(PolicyError::Denied));
    let mut cursor = TailCursor::new("SELECT 1; -- x\nSELECT 2 ").unwrap();
    assert_eq!(cursor.next(), CursorStep::PrepareAt(0));
    let statement = |consumed: usize| PrepareEvent::Prepared { statement: true, consumed };
    assert_eq!(cursor.step(statement(9)), CursorStep::Found(0, 9));
    assert_eq!(cursor.next(), CursorStep::PrepareAt(9));
    assert_eq!(cursor.step(statement(14)), CursorStep::Found(9, 23));
    let blank = |consumed: usize| PrepareEvent::Prepared { statement: false, consumed };
    assert_eq!(cursor.step(blank(1)), CursorStep::End);
    assert_eq!(cursor.next(), CursorStep::End);
    let mut cursor = TailCursor::new("; ;SELEC").unwrap();
    assert_eq!(cursor.step(blank(1)), CursorStep::PrepareAt(1));
    let refused = SqliteFailure { code: Some(1), text: "near \"SELEC\": syntax error".into() };
    assert_eq!(
        cursor.step(PrepareEvent::Failed(refused.clone())),
        CursorStep::Refused(refused)
    );
    assert_eq!(cursor.step(blank(0)), CursorStep::End);
    assert_eq!(TailCursor::new("").unwrap().next(), CursorStep::End);
}

#[test]
fn explained_maintenance_is_refused_in_any_case() {
    for sql in ["ANALYZE", "/* c */ reindex t"] {
        for explain in ["EXPLAIN", "Explain"] {
            assert!(check_maintenance(sql).is_err());
            assert!(check_maintenance(&format!("{explain}\t\n{sql}")).is_err());
            assert!(check_maintenance(&format!("{explain} query  PLAN {sql}")).is_err());
        }
    }
    assert!(check_maintenance("EXPLAIN SELECT reindex FROM analyze").is_ok());
}

#[test]
fn marks_last_until_they_are_taken() {
    let mut signal = MutationSignal::new();
    signal.mark_ddl_attempt();
    assert!(signal.take_after_request());
    assert!(!signal.take_after_request());
    signal.mark_attempt();
    assert!(signal.take_ddl_after_request());
    assert!(!signal.take_ddl_after_request());
    assert!(signal.take_after_request());
    signal.mark_ddl_attempt();
    signal.reset_for_request();
    assert!(!signal.take_after_request() && !signal.take_ddl_after_request());
}

#[test]
fn prefixes_keep_the_maintenance_verdict() {
    for (sql, maintenance) in
        [("reindex", true), ("Analyze main.t", true), ("SELECT 1", false), ("", false)]
    {
        for written in [
            sql.to_owned(),
            format!("EXPLAIN {sql}"),
            format!("EXPLAIN QUERY PLAN {sql}"),
            format!("/* c */ -- d\n{sql}"),
            sql.to_uppercase(),
        ] {
            assert_eq!(check_maintenance(&written).is_err(), maintenance, "{written}");
        }
    }
}

#[test]
fn headings_need_whole_words() {
    let mut signal = MutationSignal::new();
    for sql in [
        "CREATE VIEW ifx AS SELECT * FROM pragma_table_info('t')",
        "CREATE VIEW IF NOT EXISTS v AS SELECT * FROM pragma_table_info('t')",
    ] {
        assert_eq!(check_stored_body(sql, &mut signal), Err(PolicyError::Denied), "{sql}");
    }
}
