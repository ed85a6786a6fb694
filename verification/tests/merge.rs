//! Merge text: what is written, what is refused, and what is read back.
use rusqlite::types::ValueRef;
use rusqlite::Connection;
use sqlite_mcp_core::merge::baseline::{parse_baseline, validate_header};
use sqlite_mcp_core::merge::error::MergeDetails;
use sqlite_mcp_core::merge::extract::{
    label_text, unstarted_error, ExtractAction, ExtractReply, ExtractRun, ExtractStage,
};
use sqlite_mcp_core::merge::import::{
    admit_statement, plan_import, preflight_error, ImportAction, ImportReply, ImportRun,
    ImportStage,
};
use sqlite_mcp_core::merge::manifest::manifest_text;
use sqlite_mcp_core::merge::results::{
    FileByteCounts, Files, ImportResult, SidecarObservation, SourceObservation,
};
use sqlite_mcp_core::merge::schema::{
    canonical_schema_rows, table_metadata, ColumnRow, RowStream, SchemaClass, SchemaRow,
    SchemaStatement, TableListRow,
};
use sqlite_mcp_core::merge::snapshot::{extract_one, row_query, TableSource};
use sqlite_mcp_core::merge::source::{
    check_artifact_size, check_output_literal, check_output_path, check_source_file,
    check_source_literal, check_text_literal, is_unchanged, observe, read_text,
    source_observation, workspace_step, ExclusiveOutputOwner, FileState, OutputState,
    ParentState, WorkspaceReply, WorkspaceStep,
};
use sqlite_mcp_core::merge::statements::{split_statements, statement_kind, StatementKind};
use sqlite_mcp_core::merge::values::{quoted_identifier, typed_value, value_literal, SourceValue};
use sqlite_mcp_core::merge::{FORMAT_HEADER, MANIFEST_BYTE_LIMIT};
use sqlite_mcp_core::policy::guard::PolicyError;
use sqlite_mcp_core::MergeError;

fn real_value(x: f64) -> SourceValue {
    SourceValue::Real { bits: x.to_bits(), display: x.to_string() }
}

fn text_value(s: &str) -> SourceValue {
    SourceValue::Text(s.as_bytes().to_vec())
}

#[test]
fn literals_are_canonical_and_lossless_for_supported_values() {
    assert_eq!(value_literal(&SourceValue::Integer(4)), Ok("4".to_owned()));
    assert_eq!(value_literal(&real_value(-0.0)), Ok("-0.0".to_owned()));
    assert_eq!(
        value_literal(&SourceValue::Text(b"a'b".to_vec())),
        Ok("'a''b'".to_owned())
    );
    assert_eq!(
        value_literal(&SourceValue::Blob(vec![0, 255])),
        Ok("X'00FF'".to_owned())
    );
}

#[test]
fn split_statements_honors_literals_comments_and_bracket_identifiers() {
    let text = "-- sqlite-mcp merge-format: 1\nCREATE TABLE [a;b](x TEXT); INSERT INTO [a;b] VALUES ('a;b');\n";
    let ranges = split_statements(text, FORMAT_HEADER.len()).unwrap();
    assert_eq!(ranges.len(), 2);
}

#[test]
fn output_owner_does_not_remove_replaced_identity() {
    let owner = ExclusiveOutputOwner::capture(Some([1, 2]), Some([1, 2])).unwrap();
    let changed = "output identity changed or output disappeared";
    assert_eq!(owner.remove_if_owned(Ok(Some(Some([1, 3])))), Err(changed.to_owned()));
    assert_eq!(owner.remove_if_owned(Ok(None)), Err(changed.to_owned()));
    assert_eq!(owner.remove_if_owned(Err("denied".into())), Err("denied".to_owned()));
    assert!(owner.remove_if_owned(Ok(Some(Some([1, 2])))).is_ok());
    assert_eq!(owner.still_owned(Ok(Some(None))), Ok(false));
    assert_eq!(owner.still_owned(Err("denied".into())), Err("denied".to_owned()));
    assert_eq!(
        ExclusiveOutputOwner::capture(Some([1, 2]), Some([1, 3])).unwrap_err(),
        "output identity changed during exclusive creation"
    );
}

#[test]
fn manifest_limit_is_fixed() {
    assert_eq!(MANIFEST_BYTE_LIMIT, 1024 * 1024);
}

#[test]
fn every_kind_of_value_has_its_literal() {
    assert_eq!(value_literal(&SourceValue::Null), Ok("NULL".to_owned()));
    assert_eq!(
        value_literal(&SourceValue::Integer(i64::MIN)),
        Ok("-9223372036854775808".to_owned())
    );
    assert_eq!(value_literal(&real_value(3.0)), Ok("3.0".to_owned()));
    assert_eq!(value_literal(&real_value(0.1)), Ok("0.1".to_owned()));
    assert_eq!(
        value_literal(&real_value(1e300)).unwrap(),
        format!("1{}.0", "0".repeat(300))
    );
    assert_eq!(
        value_literal(&real_value(f64::NAN)),
        Err("non-finite REAL is not representable".to_owned())
    );
    assert_eq!(
        value_literal(&real_value(f64::NEG_INFINITY)),
        Err("non-finite REAL is not representable".to_owned())
    );
    assert_eq!(
        value_literal(&SourceValue::Text(vec![0xff])),
        Err("TEXT is not valid UTF-8".to_owned())
    );
    assert_eq!(
        value_literal(&text_value("a\0b")),
        Err("TEXT contains NUL".to_owned())
    );
}

#[test]
fn values_are_annotated_with_their_kind() {
    let pair = |k: &str, v: &str| (k.to_owned(), v.to_owned());
    assert_eq!(typed_value(&SourceValue::Null).unwrap(), vec![pair("kind", "null")]);
    assert_eq!(
        typed_value(&SourceValue::Integer(-7)).unwrap(),
        vec![pair("kind", "integer"), pair("value", "-7")]
    );
    assert_eq!(
        typed_value(&real_value(1.5)).unwrap(),
        vec![pair("kind", "real_bits"), pair("value", "3ff8000000000000")]
    );
    assert_eq!(
        typed_value(&text_value("a?")).unwrap(),
        vec![pair("kind", "text"), pair("value", "YT8")]
    );
    assert_eq!(
        typed_value(&SourceValue::Blob(vec![0xfb, 0xff])).unwrap(),
        vec![pair("kind", "blob"), pair("value", "-_8")]
    );
    assert_eq!(
        typed_value(&SourceValue::Text(vec![0xff])),
        Err("TEXT is not valid UTF-8".to_owned())
    );
}

#[test]
fn identifiers_are_quoted() {
    assert_eq!(quoted_identifier("a\"b").unwrap(), "\"a\"\"b\"");
    let e = quoted_identifier("a\0").unwrap_err();
    assert_eq!(e.class, "MERGE_UNREPRESENTABLE_CONTENT");
}

#[test]
fn statements_are_split_outside_quotes_and_comments() {
    let sql = |text: &str| -> Result<Vec<String>, String> {
        split_statements(text, 0)
            .map(|v| v.into_iter().map(|(a, b)| text[a..b].to_owned()).collect())
            .map_err(|e| {
                assert_eq!(e.class, "MERGE_FORMAT_INVALID");
                e.message
            })
    };
    assert_eq!(sql("a;b;\n").unwrap(), vec!["a;", "b;"]);
    assert_eq!(sql("-- x;\na;").unwrap(), vec!["-- x;\na;"]);
    assert_eq!(sql("/* ; */a;").unwrap(), vec!["/* ; */a;"]);
    assert_eq!(sql("'it''s;';").unwrap(), vec!["'it''s;';"]);
    assert_eq!(sql("\"a;\"\"b\";`c;`;").unwrap(), vec!["\"a;\"\"b\";", "`c;`;"]);
    assert_eq!(sql("[a]];b];").unwrap(), vec!["[a]];b];"]);
    assert_eq!(sql("  \n").unwrap().len(), 0);
    assert_eq!(sql("-- open").unwrap_err(), "executable SQL must be terminated by a semicolon");
    assert_eq!(sql("a").unwrap_err(), "executable SQL must be terminated by a semicolon");
    for open in ["'a;", "/* a;", "[a;", "\"a;", "`a;"] {
        assert_eq!(sql(open).unwrap_err(), "unterminated SQL comment or quoted literal");
    }
}

#[test]
fn statement_kinds_are_told_apart() {
    for (sql, kind) in [
        ("create table t(x);", StatementKind::Create),
        (" ;-- c\n /* d */ INSERT INTO t VALUES(1);", StatementKind::Insert),
        ("begin;", StatementKind::Other),
        ("BEGIN ;", StatementKind::Transaction),
        ("savepoint a;", StatementKind::Transaction),
        ("PRAGMA x;", StatementKind::Policy),
        ("vacuum ;", StatementKind::Policy),
        ("SELECT 1;", StatementKind::Other),
        ("", StatementKind::Other),
    ] {
        assert_eq!(statement_kind(sql), kind, "{sql}");
    }
}

#[test]
fn headers_are_exact() {
    assert_eq!(validate_header(FORMAT_HEADER).unwrap(), 30);
    for text in [
        "",
        "-- sqlite-mcp merge-format: 2\n",
        "\u{feff}-- sqlite-mcp merge-format: 1\n",
        "-- sqlite-mcp merge-format: 1\nCREATE TABLE a(x);\r\n",
    ] {
        let e = validate_header(text).unwrap_err();
        assert_eq!(e.class, "MERGE_FORMAT_INVALID");
        assert_eq!(
            e.message,
            "merge text must begin with the exact LF-terminated format header"
        );
    }
    assert!(validate_header("-- sqlite-mcp merge-format: 1\n\ra\r").is_ok());
}

fn record(kind: &str, name: &str, sql: &str) -> String {
    let statements = vec![SchemaStatement {
        class: match kind {
            "table" => SchemaClass::Table,
            _ => SchemaClass::View,
        },
        name: name.to_owned(),
        sql: sql.to_owned(),
    }];
    let mut out = String::new();
    let _ = extract_one("base", &statements, &vec![empty_source(name)], &mut out, 10);
    out.lines().nth(2).unwrap().to_owned()
}

fn empty_source(name: &str) -> TableSource {
    TableSource {
        list: RowStream {
            rows: vec![TableListRow {
                name: name.to_owned(),
                kind: "table".into(),
                without_rowid: 0,
            }],
            failure: None,
        },
        columns: RowStream {
            rows: vec![ColumnRow {
                name: "x".into(),
                declared_type: "".into(),
                pk: 0,
                hidden: 0,
            }],
            failure: None,
        },
        rows: RowStream { rows: Vec::new(), failure: None },
    }
}

#[test]
fn baseline_lines_hold_digest_and_bytes() {
    let digest = <sha2::Sha256 as sha2::Digest>::digest(b"CREATE TABLE t(x);");
    let hex: String = digest.iter().map(|b| format!("{b:02x}")).collect();
    assert_eq!(
        record("table", "t", "CREATE TABLE t(x);"),
        format!(
            "-- sqlite-mcp schema-hash: v1 kind=table name_b64=dA sql_sha256={hex} \
             sql_bytes=Q1JFQVRFIFRBQkxFIHQoeCk7"
        )
    );
}

fn with_baseline(lines: &[&str]) -> String {
    let mut text = FORMAT_HEADER.to_owned();
    for line in lines {
        text.push_str(line);
        text.push('\n');
    }
    text
}

#[test]
fn malformed_baselines_are_refused() {
    let good = record("table", "t", "CREATE TABLE t(x);");
    let fault = |lines: &[&str]| {
        let text = with_baseline(lines);
        let e = parse_baseline(&text, FORMAT_HEADER.len()).unwrap_err();
        (e.class, e.message)
    };
    let head = "-- sqlite-mcp schema-baseline: v1 count=1";
    let tail = "-- sqlite-mcp schema-baseline-end: v1";
    assert_eq!(
        fault(&["-- sqlite-mcp schema-baseline: v2 count=1"]),
        ("MERGE_FORMAT_INVALID", "invalid schema baseline header".to_owned())
    );
    assert_eq!(
        fault(&["-- sqlite-mcp schema-baseline: v1 count=x"]),
        ("MERGE_LIMIT_EXCEEDED", "invalid or excessive schema baseline count".to_owned())
    );
    assert_eq!(
        fault(&["-- sqlite-mcp schema-baseline: v1 count=1000001"]),
        ("MERGE_LIMIT_EXCEEDED", "schema baseline count exceeds limit".to_owned())
    );
    assert_eq!(
        fault(&[head, &good, "-- more"]),
        ("MERGE_FORMAT_INVALID", "schema baseline is not closed".to_owned())
    );
    assert_eq!(fault(&[head, tail]).0, "MERGE_FORMAT_INVALID");
    let tampered = good.replace("name_b64=dA", "name_b64=?");
    assert_eq!(fault(&[head, &tampered, tail]).0, "MERGE_FORMAT_INVALID");
    let other = good.replace("sql_bytes=", "sql_bytes=A");
    assert_eq!(fault(&[head, &other, tail]).0, "MERGE_FORMAT_INVALID");
    let text = with_baseline(&[head, &good, tail, "CREATE TABLE t(x);"]);
    let (found, at) = parse_baseline(&text, FORMAT_HEADER.len()).unwrap();
    assert_eq!(found.get("t").unwrap().as_slice(), b"CREATE TABLE t(x);");
    assert!(found.get("u").is_none());
    assert_eq!(&text[at..], "CREATE TABLE t(x);\n");
    let (none, at) = parse_baseline(FORMAT_HEADER, FORMAT_HEADER.len()).unwrap();
    assert!(none.is_empty());
    assert_eq!(at, FORMAT_HEADER.len());
}

#[test]
fn plans_need_a_baseline_and_fit_the_limit() {
    let fault = |text: &str, limit: usize| {
        let e = plan_import(text, limit).unwrap_err();
        (e.class, e.message)
    };
    let plain = format!("{FORMAT_HEADER}CREATE TABLE t(x);\n");
    assert_eq!(
        fault(&plain, 5),
        (
            "MERGE_FORMAT_INVALID",
            "nonempty merge text requires exactly one closed schema baseline".to_owned()
        )
    );
    assert_eq!(
        fault(&plain, 0),
        ("MERGE_LIMIT_EXCEEDED", "merge statement limit exceeded".to_owned())
    );
    assert_eq!(plan_import(FORMAT_HEADER, 0).unwrap().statements.len(), 0);
}

#[test]
fn only_creations_and_insertions_are_replayed() {
    let text = with_baseline(&[
        "-- sqlite-mcp schema-baseline: v1 count=1",
        &record("table", "t", "CREATE TABLE t (x);"),
        "-- sqlite-mcp schema-baseline-end: v1",
    ]);
    let (found, _) = parse_baseline(&text, FORMAT_HEADER.len()).unwrap();
    let fault = |sql: &str| {
        let e = admit_statement(&found, sql, 3).unwrap_err();
        (e.class, e.message)
    };
    assert!(admit_statement(&found, "\nCREATE TABLE t (x);", 3).is_ok());
    assert!(admit_statement(&found, "INSERT INTO t VALUES(1);", 3).is_ok());
    assert!(admit_statement(&found, "CREATE TABLE u (x);", 3).is_ok());
    assert_eq!(
        fault("CREATE TABLE \"t\" (y);"),
        (
            "MERGE_FORMAT_INVALID",
            "schema statement \"t\" differs from its baseline".to_owned()
        )
    );
    assert_eq!(
        fault("COMMIT ;"),
        (
            "MERGE_POLICY_DENIED",
            "transaction control is not allowed in statement 3".to_owned()
        )
    );
    assert_eq!(
        fault("ATTACH 'a' AS b;"),
        ("MERGE_POLICY_DENIED", "statement 3 is denied by merge policy".to_owned())
    );
    assert_eq!(
        fault("DELETE FROM t;"),
        ("MERGE_FORMAT_INVALID", "statement 3 is outside the merge grammar".to_owned())
    );
    let (class, message) = fault("CREATE VIEW v AS SELECT * FROM pragma_table_info('t');");
    assert_eq!(class, "MERGE_POLICY_DENIED");
    assert_eq!(message, format!("statement 3: {}", PolicyError::Denied.as_str()));
}

#[test]
fn schema_statements_are_in_canonical_order() {
    let row = |kind: &str, name: &str, sql: &str| SchemaRow {
        kind: kind.into(),
        name: name.into(),
        sql: sql.into(),
    };
    let rows = vec![
        row("trigger", "a", "T"),
        row("view", "a", "V;;"),
        row("index", "b", "I"),
        row("other", "z", "Z"),
        row("table", "b", "B2"),
        row("table", "b", "B1"),
        row("table", "Z", "Z"),
    ];
    let found: Vec<(SchemaClass, String, String)> = canonical_schema_rows(rows)
        .into_iter()
        .map(|s| (s.class, s.name, s.sql))
        .collect();
    let expect = |class, name: &str, sql: &str| (class, name.to_owned(), sql.to_owned());
    assert_eq!(
        found,
        vec![
            expect(SchemaClass::Table, "Z", "Z;"),
            expect(SchemaClass::Table, "b", "B1;"),
            expect(SchemaClass::Table, "b", "B2;"),
            expect(SchemaClass::Index, "b", "I;"),
            expect(SchemaClass::View, "a", "V;"),
            expect(SchemaClass::Trigger, "a", "T;"),
        ]
    );
}

#[test]
fn tables_are_described_or_refused() {
    let list = |kind: &str, without: i64| RowStream {
        rows: vec![TableListRow { name: "t".into(), kind: kind.into(), without_rowid: without }],
        failure: None,
    };
    let column = |name: &str, ty: &str, pk: i64, hidden: i64| ColumnRow {
        name: name.into(),
        declared_type: ty.into(),
        pk,
        hidden,
    };
    let columns = RowStream {
        rows: vec![
            column("b", "TEXT", 2, 0),
            column("h", "TEXT", 0, 2),
            column("a", " integer ", 1, 0),
        ],
        failure: None,
    };
    let meta = table_metadata("t", &list("table", 1), &columns).unwrap();
    assert!(meta.without_rowid && meta.integer_primary_key);
    assert_eq!(meta.columns, vec!["b", "a"]);
    assert_eq!(meta.primary_key, vec!["a", "b"]);
    assert_eq!(
        row_query("t", &meta).unwrap(),
        "SELECT \"b\",\"a\" FROM \"t\" ORDER BY \"a\",\"b\""
    );
    let fault = |r: Result<_, MergeError>| match r {
        Ok(()) => panic!("accepted"),
        Err(e) => (e.class, e.message),
    };
    assert_eq!(
        fault(table_metadata("u", &list("table", 0), &columns).map(|_| ())),
        ("MERGE_INPUT_INVALID", "table \"u\" is missing from table_list".to_owned())
    );
    assert_eq!(
        fault(table_metadata("t", &list("virtual", 0), &columns).map(|_| ())),
        (
            "MERGE_UNREPRESENTABLE_CONTENT",
            "virtual table \"t\" is unsupported".to_owned()
        )
    );
    let broken = RowStream { rows: Vec::new(), failure: Some("no".to_owned()) };
    assert_eq!(
        fault(table_metadata("t", &broken, &columns).map(|_| ())),
        ("MERGE_INPUT_INVALID", "no".to_owned())
    );
    let keyless = RowStream { rows: vec![column("b", "TEXT", 0, 0)], failure: None };
    let meta = table_metadata("t", &list("table", 1), &keyless).unwrap();
    assert_eq!(
        fault(row_query("t", &meta).map(|_| ())),
        (
            "MERGE_UNREPRESENTABLE_CONTENT",
            "WITHOUT ROWID table \"t\" has no deterministic primary key".to_owned()
        )
    );
}

/// What extraction reads of an open database.
fn read(conn: &Connection) -> (Vec<SchemaStatement>, Vec<TableSource>) {
    let mut stmt = conn
        .prepare(
            "SELECT type, name, sql FROM sqlite_schema WHERE sql IS NOT NULL AND name NOT LIKE 'sqlite_%'",
        )
        .unwrap();
    let rows = stmt
        .query_map([], |r| {
            Ok(SchemaRow { kind: r.get(0)?, name: r.get(1)?, sql: r.get(2)? })
        })
        .unwrap()
        .map(|r| r.unwrap())
        .collect();
    let statements = canonical_schema_rows(rows);
    let mut sources = Vec::new();
    for s in &statements {
        if s.class != SchemaClass::Table {
            continue;
        }
        let mut list = conn.prepare("PRAGMA table_list").unwrap();
        let list = RowStream {
            rows: list
                .query_map([], |r| {
                    Ok(TableListRow { name: r.get(1)?, kind: r.get(2)?, without_rowid: r.get(4)? })
                })
                .unwrap()
                .map(|r| r.unwrap())
                .collect(),
            failure: None,
        };
        let pragma = format!("PRAGMA table_xinfo({})", quoted_identifier(&s.name).unwrap());
        let mut columns = conn.prepare(&pragma).unwrap();
        let columns = RowStream {
            rows: columns
                .query_map([], |r| {
                    Ok(ColumnRow {
                        name: r.get(1)?,
                        declared_type: r.get(2)?,
                        pk: r.get(5)?,
                        hidden: r.get(6)?,
                    })
                })
                .unwrap()
                .map(|r| r.unwrap())
                .collect(),
            failure: None,
        };
        let meta = table_metadata(&s.name, &list, &columns).unwrap();
        let query = row_query(&s.name, &meta).unwrap();
        let mut stmt = conn.prepare(&query).unwrap();
        let width = stmt.column_count();
        let mut found = stmt.query([]).unwrap();
        let mut rows = Vec::new();
        while let Some(row) = found.next().unwrap() {
            let mut values = Vec::new();
            for i in 0..width {
                values.push(match row.get_ref(i).unwrap() {
                    ValueRef::Null => SourceValue::Null,
                    ValueRef::Integer(v) => SourceValue::Integer(v),
                    ValueRef::Real(v) => real_value(v),
                    ValueRef::Text(b) => SourceValue::Text(b.to_vec()),
                    ValueRef::Blob(b) => SourceValue::Blob(b.to_vec()),
                });
            }
            rows.push(values);
        }
        sources.push(TableSource { list, columns, rows: RowStream { rows, failure: None } });
    }
    (statements, sources)
}

fn extracted(conn: &Connection, limit: usize) -> Result<(String, u64), MergeError> {
    let (statements, sources) = read(conn);
    let mut out = String::new();
    extract_one("ours", &statements, &sources, &mut out, limit).map(|n| (out, n))
}

/// Replays a text into a new database, with the file steps played.
fn imported(text: &str) -> Result<(Connection, ImportResult), MergeError> {
    let conn = Connection::open_in_memory().unwrap();
    let plan = plan_import(text, 1000)?;
    let mut run =
        ImportRun::start(text.to_owned(), plan, "/out.db".to_owned(), text.len() as u64, 1 << 30);
    let mut reply = ImportReply::Done;
    loop {
        match run.step(reply, false) {
            ImportAction::Fail(e) => return Err(run.conclude(e, None)),
            ImportAction::Finish(result) => {
                assert_eq!(result.output_state, "Committed");
                assert!(result.validation.integrity_check.ok);
                return Ok((conn, result));
            }
            ImportAction::Execute(sql) => {
                reply = match conn.execute_batch(&sql) {
                    Ok(()) => ImportReply::Done,
                    Err(e) => ImportReply::Failed(e.to_string()),
                }
            }
            ImportAction::Perform(stage) => {
                reply = match stage {
                    ImportStage::Begin => {
                        conn.execute_batch("BEGIN").unwrap();
                        ImportReply::Done
                    }
                    ImportStage::Commit => {
                        conn.execute_batch("COMMIT").unwrap();
                        ImportReply::Done
                    }
                    ImportStage::ForeignKeyCheck => ImportReply::Count(0),
                    ImportStage::IntegrityCheck => ImportReply::Text(
                        conn.query_row("PRAGMA integrity_check", [], |r| r.get(0)).unwrap(),
                    ),
                    ImportStage::Serialize => ImportReply::Size(4096),
                    ImportStage::Owned => ImportReply::Owned(true),
                    ImportStage::JournalMode => ImportReply::Text("memory".into()),
                    ImportStage::ObjectCount => ImportReply::Count(
                        conn.query_row(
                            "SELECT count(*) FROM sqlite_schema WHERE name NOT LIKE 'sqlite_%'",
                            [],
                            |r| r.get::<_, i64>(0),
                        )
                        .unwrap() as u64,
                    ),
                    ImportStage::TableCount => ImportReply::Count(1),
                    _ => ImportReply::Done,
                }
            }
        }
    }
}

fn replayed(text: &str) -> Result<Connection, MergeError> {
    imported(text).map(|(conn, _)| conn)
}

fn body(sql: &str) -> Connection {
    let conn = Connection::open_in_memory().unwrap();
    conn.execute_batch(sql).unwrap();
    conn
}

/// Extracts three databases, with the file steps played.
fn workspace(databases: &[Connection; 3], text_limit: usize) -> Result<ExtractRun, MergeError> {
    let (mut run, mut action) = ExtractRun::start(three_paths(), text_limit, 1000, false);
    loop {
        let stage = match action {
            ExtractAction::Perform(stage) => stage,
            ExtractAction::Finish => return Ok(run),
            ExtractAction::Fail(e) => return Err(e),
        };
        let reply = match stage {
            ExtractStage::ObserveBefore(i) => {
                ExtractReply::Observed(observation(label_text(i), "before", b"abc"))
            }
            ExtractStage::ObserveAfter(i) => {
                ExtractReply::Observed(observation(label_text(i), "after", b"abc"))
            }
            ExtractStage::Read(i) => {
                let (statements, sources) = read(&databases[i]);
                ExtractReply::Snapshot { statements, sources }
            }
            ExtractStage::Write(i) => ExtractReply::Written {
                path: Some(format!("/w/{}.sql", label_text(i))),
                bytes: run.texts[i].len() as u64,
            },
            ExtractStage::Resolve => ExtractReply::Written {
                path: Some("/w/resolved.sql".into()),
                bytes: run.texts[1].len() as u64,
            },
            ExtractStage::Manifest(_) => ExtractReply::Size(run.manifest().len()),
            ExtractStage::Release(_) | ExtractStage::WriteManifest => ExtractReply::Done,
        };
        action = run.step(reply, false);
    }
}

#[test]
fn extract_and_import_round_trip_smoke() {
    let items = || {
        body(
            "PRAGMA journal_mode=DELETE; CREATE TABLE items(id INTEGER PRIMARY KEY, body TEXT); INSERT INTO items(body) VALUES ('hello');",
        )
    };
    let run = workspace(&[items(), items(), items()], 1000).unwrap();
    assert!(run.files.resolved_sql.is_some());
    let resolved = &run.texts[1];
    let (copy, result) = imported(resolved).unwrap();
    assert_eq!(result.output_state, "Committed");
    assert_eq!(
        copy.query_row("SELECT body FROM items", [], |r| r.get::<_, String>(0)).unwrap(),
        "hello"
    );
    assert_eq!(result.statement_count, 1 + 1);
    assert_eq!(result.byte_count, resolved.len() as u64);
    assert_eq!(result.validation.foreign_key_check.violations, 0);
    assert_eq!(result.validation.integrity_check.message, "ok");
}

#[test]
fn manifests_say_their_own_size() {
    let empty = || Connection::open_in_memory().unwrap();
    let run = workspace(&[empty(), empty(), empty()], 1000).unwrap();
    let manifest = run.manifest();
    assert_eq!(run.counts.manifest, manifest.len() as u64);
    let value: serde_json::Value = serde_json::from_str(&manifest).unwrap();
    assert_eq!(value["file_byte_counts"]["manifest"], manifest.len());
    assert_eq!(value["file_byte_counts"]["base_sql"], FORMAT_HEADER.len());
    assert_eq!(value["source_observations"][3]["label"], "ours");
    assert_eq!(value["source_observations"][3]["phase"], "after");
    // The sizes of manifests on both sides of a further digit.
    for length in (9_900 - manifest.len())..(10_100 - manifest.len()) {
        let sources = vec!["/".repeat(length)];
        let mut counts = run.counts;
        counts.manifest = 0;
        for _ in 0..3 {
            let text = manifest_text(&sources, &run.observations, &run.files, &counts);
            counts.manifest = text.len() as u64;
        }
        let text = manifest_text(&sources, &run.observations, &run.files, &counts);
        assert_eq!(counts.manifest, text.len() as u64);
    }
}

#[test]
fn every_kind_of_value_survives_a_round_trip() {
    let conn = Connection::open_in_memory().unwrap();
    conn.execute_batch(
        "CREATE TABLE \"odd;name\" (x TEXT, \"y\"\"z\" BLOB, r REAL);
         CREATE TABLE pk(id INTEGER PRIMARY KEY, v);
         CREATE TABLE wr(a TEXT, b INTEGER, PRIMARY KEY(b, a)) WITHOUT ROWID;
         CREATE INDEX i ON pk(v);
         CREATE VIEW w AS SELECT v FROM pk;
         INSERT INTO \"odd;name\" VALUES ('it''s; -- [x] /*', X'00ff', 0.1), (NULL, NULL, -0.0);
         INSERT INTO \"odd;name\"(rowid, x) VALUES (77, 'line\nbreak');
         INSERT INTO pk VALUES (5, 'five'), (3, 3);
         INSERT INTO wr VALUES ('z', 1), ('a', 2), ('a', 1);",
    )
    .unwrap();
    let (text, count) = extracted(&conn, 1000).unwrap();
    assert_eq!(count, 5 + 8 + 2);
    let plan = plan_import(&text, 1000).unwrap();
    assert_eq!(plan.statements.len(), 5 + 8);
    let copy = replayed(&text).unwrap();
    let (again, _) = extracted(&copy, 1000).unwrap();
    assert_eq!(again, text);
    let x: String = copy
        .query_row("SELECT x FROM \"odd;name\" WHERE rowid = 77", [], |r| r.get(0))
        .unwrap();
    assert_eq!(x, "line\nbreak");
}

#[test]
fn empty_snapshot_round_trip_smoke() {
    let conn = body(
        "PRAGMA journal_mode=DELETE; CREATE TABLE transient(value INTEGER); DROP TABLE transient;",
    );
    let (text, count) = extracted(&conn, 0).unwrap();
    assert_eq!(text, FORMAT_HEADER);
    assert_eq!(count, 0);
    let (copy, result) = imported(&text).unwrap();
    assert_eq!(result.validation.schema_summary.object_count, 0);
    assert_eq!(extracted(&copy, 0).unwrap().0, FORMAT_HEADER);
}

#[test]
fn rows_are_written_with_their_annotation() {
    let conn = Connection::open_in_memory().unwrap();
    conn.execute_batch("CREATE TABLE t(x); INSERT INTO t VALUES ('a');").unwrap();
    let (text, _) = extracted(&conn, 1000).unwrap();
    let lines: Vec<&str> = text.lines().collect();
    assert_eq!(lines.len(), 7);
    assert_eq!(lines[1], "-- sqlite-mcp schema-baseline: v1 count=1");
    assert_eq!(lines[3], "-- sqlite-mcp schema-baseline-end: v1");
    assert_eq!(lines[4], "CREATE TABLE t(x);");
    // [{"kind":"integer","value":"1"},{"kind":"text","value":"YQ"}]
    assert_eq!(
        lines[5],
        "-- sqlite-mcp typed-value: v1 table_b64=dA row=0 values_b64=W3sia2luZCI6ImludGVnZXIiLCJ2YWx1ZSI6IjEifSx7ImtpbmQiOiJ0ZXh0IiwidmFsdWUiOiJZUSJ9XQ"
    );
    assert_eq!(lines[6], "INSERT INTO \"t\" (rowid,\"x\") VALUES (1,'a');");
}

#[test]
fn different_rows_are_written_differently() {
    let text = |a: &str, b: &str| {
        let conn = body("CREATE TABLE t(x, y);");
        conn.execute("INSERT INTO t VALUES (?, ?)", [a, b]).unwrap();
        let (text, _) = extracted(&conn, 1000).unwrap();
        text.lines().last().unwrap().to_owned()
    };
    let rows = [("a','b", "c"), ("a", "b','c"), ("a''", "b"), ("a'", "'b"), ("", "','"), ("','", "")];
    for (i, v) in rows.iter().enumerate() {
        for w in &rows[i + 1..] {
            assert_ne!(text(v.0, v.1), text(w.0, w.1));
        }
    }
    assert_eq!(text("a','b", "c"), "INSERT INTO \"t\" (rowid,\"x\",\"y\") VALUES (1,'a'',''b','c');");
}

#[test]
fn a_value_cannot_leave_its_statement() {
    let conn = Connection::open_in_memory().unwrap();
    conn.execute_batch("CREATE TABLE t(x);").unwrap();
    for hostile in ["'); DROP TABLE t; --", "*/;", "]\";", "\n;\n", "--"] {
        conn.execute("INSERT INTO t VALUES (?)", [hostile]).unwrap();
    }
    let (text, _) = extracted(&conn, 1000).unwrap();
    assert_eq!(plan_import(&text, 1000).unwrap().statements.len(), 6);
    let copy = replayed(&text).unwrap();
    assert_eq!(extracted(&copy, 1000).unwrap().0, text);
}

#[test]
fn some_extractions_are_refused_again() {
    let conn = Connection::open_in_memory().unwrap();
    conn.execute_batch("CREATE TABLE t(x); INSERT INTO t VALUES ('a\r\nb');").unwrap();
    let (text, _) = extracted(&conn, 1000).unwrap();
    assert_eq!(plan_import(&text, 1000).unwrap_err().class, "MERGE_FORMAT_INVALID");
    conn.execute_batch(
        "DELETE FROM t; CREATE TRIGGER g AFTER INSERT ON t BEGIN DELETE FROM t; END;",
    )
    .unwrap();
    let (text, _) = extracted(&conn, 1000).unwrap();
    assert_eq!(plan_import(&text, 1000).unwrap().statements.len(), 3);
}

#[test]
fn extraction_is_bounded_and_says_where_it_fails() {
    let conn = Connection::open_in_memory().unwrap();
    conn.execute_batch("CREATE TABLE t(x); INSERT INTO t VALUES (1), (9e999);").unwrap();
    let e = extracted(&conn, 1).unwrap_err();
    assert_eq!((e.class, e.message.as_str()), ("MERGE_LIMIT_EXCEEDED", "merge statement limit exceeded"));
    let e = extracted(&conn, 10).unwrap_err();
    assert_eq!(
        (e.class, e.message.as_str()),
        (
            "MERGE_UNREPRESENTABLE_CONTENT",
            "ours.t row 1: non-finite REAL is not representable"
        )
    );
    conn.execute_batch("DELETE FROM t; CREATE VIEW v AS SELECT 1;").unwrap();
    assert_eq!(extracted(&conn, 2).unwrap_err().class, "MERGE_LIMIT_EXCEEDED");
    assert_eq!(extracted(&conn, 3).unwrap().1, 3);
}

fn file(path: &str, contents: &[u8]) -> SidecarObservation {
    observe(
        "main",
        Some(path.to_owned()),
        FileState::Regular {
            device_inode: Some([1, 2]),
            size_bytes: contents.len() as u64,
            mtime_ns: Some(3),
            contents: contents.to_vec(),
        },
        1000,
    )
    .unwrap()
}

fn three_paths() -> Vec<String> {
    ["/base", "/ours", "/theirs"].map(|p| p.to_owned()).to_vec()
}

fn missing(kind: &str) -> SidecarObservation {
    observe(kind, Some("/x".into()), FileState::Missing, 1000).unwrap()
}

fn observation(label: &str, phase: &str, contents: &[u8]) -> SourceObservation {
    source_observation(
        label,
        phase,
        Ok(file("/base", contents)),
        Ok(missing("rollback_journal")),
        Ok(missing("wal")),
        Ok(missing("shm")),
    )
    .unwrap()
}

#[test]
fn sources_are_observed() {
    let found = file("/base", b"abc");
    assert!(found.present);
    assert_eq!(found.size_bytes, Some(3));
    assert_eq!(
        found.sha256_hex.as_deref(),
        Some("ba7816bf8f01cfea414140de5dae2223b00361a396177a9cb410ff61f20015ad")
    );
    let none = missing("wal");
    assert!(!none.present && none.sha256_hex.is_none() && none.kind == "wal");
    assert_eq!(
        observe("wal", Some("/x".into()), FileState::NotRegular, 9).unwrap_err(),
        "wal sidecar is not a regular file"
    );
    assert_eq!(observe("wal", None, FileState::Missing, 9).unwrap_err(), "path is not valid UTF-8");
    let big = FileState::Regular {
        device_inode: None,
        size_bytes: 4,
        mtime_ns: None,
        contents: vec![0; 4],
    };
    assert_eq!(
        observe("main", Some("/x".into()), big, 3).unwrap_err(),
        "source observation exceeds 3 bytes"
    );
    assert!(is_unchanged(&observation("base", "before", b"abc"), &observation("base", "after", b"abc")));
    assert!(!is_unchanged(&observation("base", "before", b"abc"), &observation("base", "after", b"abd")));
}

#[test]
fn extraction_rejects_present_sidecars() {
    let e = source_observation(
        "ours",
        "before",
        Ok(file("/ours", b"a")),
        Ok(missing("rollback_journal")),
        Ok(file("/ours-wal", b"w")),
        Ok(missing("shm")),
    )
    .unwrap_err();
    assert_eq!(e.class, "MERGE_INPUT_INVALID");
    assert_eq!(e.message, "ours has unsupported SQLite sidecar files");
    assert!(matches!(e.details, MergeDetails::Label(ref l) if l == "ours"));
    let e = source_observation(
        "ours",
        "before",
        Err("denied".into()),
        Err("other".into()),
        Ok(missing("wal")),
        Ok(missing("shm")),
    )
    .unwrap_err();
    assert_eq!(e.message, "denied");
}

#[test]
fn literal_paths_are_absolute() {
    assert!(check_source_literal("/a").is_ok());
    assert_eq!(check_source_literal("a").unwrap_err().class, "MERGE_INPUT_INVALID");
    assert_eq!(check_text_literal("/a\0").unwrap_err().class, "MERGE_FORMAT_INVALID");
    assert_eq!(check_output_literal("").unwrap_err().class, "MERGE_OUTPUT_EXISTS");
}

#[test]
fn texts_are_read_within_bounds() {
    let fault = |bytes: &[u8], limit: usize| {
        let e = read_text(bytes.to_vec(), limit).unwrap_err();
        (e.class, e.message)
    };
    assert_eq!(read_text(b"abc".to_vec(), 3).unwrap(), ("abc".to_owned(), 3));
    assert_eq!(
        fault(b"abcd", 3),
        ("MERGE_LIMIT_EXCEEDED", "SQL source exceeds configured text limit".to_owned())
    );
    assert_eq!(fault(b"a\0", 3), ("MERGE_FORMAT_INVALID", "SQL source contains NUL".to_owned()));
    assert_eq!(
        fault(&[0xff], 3),
        ("MERGE_FORMAT_INVALID", "SQL source is not UTF-8".to_owned())
    );
    assert_eq!(check_artifact_size(3, 3), Ok(3));
    assert_eq!(
        check_artifact_size(4, 3),
        Err("artifact exceeds configured limit of 3 bytes".to_owned())
    );
    assert!(check_source_file(true, b"SQLite format 3\0").is_ok());
    assert!(check_source_file(false, b"SQLite format 3\0").is_err());
    assert!(check_source_file(true, b"").is_err());
}

#[test]
fn outputs_are_new_files_in_a_directory() {
    let state = |parent: ParentState| OutputState {
        parent,
        has_file_name: true,
        is_source: false,
        exists: false,
        is_utf8: true,
        sidecar_exists: false,
    };
    let message = |s: OutputState| check_output_path(s).unwrap_err().message;
    assert!(check_output_path(state(ParentState::Resolved)).is_ok());
    assert_eq!(message(state(ParentState::Missing)), "output parent is missing");
    assert_eq!(message(state(ParentState::NotDirectory)), "output parent does not exist");
    assert_eq!(message(state(ParentState::Unresolved("x".into()))), "x");
    let base = || state(ParentState::Resolved);
    assert_eq!(message(OutputState { exists: true, ..base() }), "output already exists");
    assert_eq!(
        message(OutputState { is_source: true, exists: true, ..base() }),
        "SQL source and output alias the same file"
    );
    assert_eq!(
        message(OutputState { has_file_name: false, ..base() }),
        "output filename is missing"
    );
    assert!(check_output_path(OutputState { is_utf8: false, ..base() }).is_err());
    assert!(check_output_path(OutputState { sidecar_exists: true, ..base() }).is_err());
}

#[test]
fn workspaces_are_private_and_new() {
    assert!(matches!(workspace_step(0, WorkspaceReply::Created(0o40700)), WorkspaceStep::Use));
    assert!(matches!(
        workspace_step(0, WorkspaceReply::Created(0o40755)),
        WorkspaceStep::Discard(_)
    ));
    assert!(matches!(workspace_step(3, WorkspaceReply::Taken), WorkspaceStep::Retry));
    assert!(matches!(workspace_step(15, WorkspaceReply::Taken), WorkspaceStep::Fail(_)));
    match workspace_step(0, WorkspaceReply::Failed("full".into())) {
        WorkspaceStep::Fail(e) => assert_eq!(e.message, "full"),
        other => panic!("{other:?}"),
    }
}

#[test]
fn an_extraction_visits_every_source() {
    let (mut run, action) = ExtractRun::start(three_paths(), 1000, 10, false);
    assert!(matches!(action, ExtractAction::Perform(ExtractStage::ObserveBefore(0))));
    let mut visited = Vec::new();
    let mut action = action;
    loop {
        let stage = match action {
            ExtractAction::Perform(stage) => stage,
            ExtractAction::Finish => break,
            ExtractAction::Fail(e) => panic!("{e:?}"),
        };
        visited.push(stage);
        let reply = match stage {
            ExtractStage::ObserveBefore(i) => {
                ExtractReply::Observed(observation(label_text(i), "before", b"abc"))
            }
            ExtractStage::ObserveAfter(i) => {
                ExtractReply::Observed(observation(label_text(i), "after", b"abc"))
            }
            ExtractStage::Read(_) => {
                ExtractReply::Snapshot { statements: Vec::new(), sources: Vec::new() }
            }
            ExtractStage::Write(i) => ExtractReply::Written {
                path: Some(format!("/w/{i}")),
                bytes: run.texts[i].len() as u64,
            },
            ExtractStage::Resolve => {
                ExtractReply::Written { path: Some("/w/r".into()), bytes: 31 }
            }
            ExtractStage::Manifest(_) => ExtractReply::Size(run.manifest().len()),
            ExtractStage::Release(_) | ExtractStage::WriteManifest => ExtractReply::Done,
        };
        action = run.step(reply, false);
    }
    assert_eq!(visited.len(), 12 + 3 + 1 + 3 + 1);
    assert_eq!(run.texts, vec![FORMAT_HEADER, FORMAT_HEADER, FORMAT_HEADER]);
    let size = run.manifest().len() as u64;
    let result = run.finish("/w".into(), "/w/m".into());
    assert_eq!(result.format_version, 1);
    assert_eq!(result.workspace_state, "Retained");
    assert_eq!(result.file_byte_counts.theirs_sql, FORMAT_HEADER.len() as u64);
    assert_eq!(result.file_byte_counts.resolved_sql, 31);
    assert_eq!(result.file_byte_counts.manifest, size);
    assert_eq!(result.files.resolved_sql.as_deref(), Some("/w/r"));
    assert_eq!(result.source_observations.len(), 6);
}

#[test]
fn a_changed_source_stops_the_extraction() {
    let (mut run, _) = ExtractRun::start(three_paths(), 10, 10, false);
    run.step(ExtractReply::Observed(observation("base", "before", b"abc")), true);
    run.step(ExtractReply::Snapshot { statements: Vec::new(), sources: Vec::new() }, false);
    match run.step(ExtractReply::Done, false) {
        ExtractAction::Fail(e) => {
            assert_eq!(e.class, "MERGE_LIMIT_EXCEEDED");
            assert_eq!(e.message, "base.sql exceeds configured text limit");
        }
        other => panic!("{other:?}"),
    }
    let (mut run, _) = ExtractRun::start(three_paths(), 100, 10, false);
    run.step(ExtractReply::Observed(observation("base", "before", b"abc")), false);
    run.step(ExtractReply::Snapshot { statements: Vec::new(), sources: Vec::new() }, false);
    run.step(ExtractReply::Done, false);
    let error = match run.step(ExtractReply::Observed(observation("base", "after", b"abd")), false) {
        ExtractAction::Fail(e) => e,
        other => panic!("{other:?}"),
    };
    assert_eq!(error.message, "source base changed during extraction");
    let e = run.conclude(error, Some("/w".into()), Some("/w/m".into()), Some("busy".into()));
    match e.details {
        MergeDetails::Extraction(d) => {
            assert_eq!(d.workspace_state, "Uncertain");
            assert_eq!(d.cleanup_errors, vec!["busy"]);
            assert_eq!(d.source_observations.len(), 1);
        }
        other => panic!("{other:?}"),
    }
}

#[test]
fn pre_cancelled_merge_has_no_effect() {
    let (run, action) = ExtractRun::start(three_paths(), 1000, 10, true);
    match action {
        ExtractAction::Fail(e) => assert_eq!(
            (e.class, e.message.as_str()),
            ("MERGE_LIMIT_EXCEEDED", "merge operation cancelled")
        ),
        other => panic!("{other:?}"),
    }
    assert!(run.observations.is_empty() && run.files.base_sql.is_none());
    let e = unstarted_error(MergeError::new("MERGE_INPUT_INVALID", "x"));
    match e.details {
        MergeDetails::Extraction(d) => {
            assert_eq!(d.workspace_state, "NotCreated");
            assert!(d.workspace_path.is_none() && d.format_version.is_none());
        }
        other => panic!("{other:?}"),
    }
    let text = with_baseline(&[
        "-- sqlite-mcp schema-baseline: v1 count=1",
        &record("table", "t", "CREATE TABLE t(x);"),
        "-- sqlite-mcp schema-baseline-end: v1",
        "CREATE TABLE t(x);",
    ]);
    let plan = plan_import(&text, 10).unwrap();
    let mut run = ImportRun::start(text, plan, "/out".into(), 7, 100);
    for _ in 0..3 {
        assert!(matches!(run.step(ImportReply::Done, true), ImportAction::Perform(_)));
    }
    match run.step(ImportReply::Done, true) {
        ImportAction::Fail(e) => assert_eq!(e.message, "merge operation cancelled"),
        other => panic!("{other:?}"),
    }
}

#[test]
fn failed_imports_say_what_became_of_the_output() {
    let start = || {
        let plan = plan_import(FORMAT_HEADER, 10).unwrap();
        ImportRun::start(FORMAT_HEADER.into(), plan, "/out".into(), 30, 100)
    };
    let mut run = start();
    let error = match run.step(ImportReply::Failed("no memory".into()), false) {
        ImportAction::Fail(e) => e,
        other => panic!("{other:?}"),
    };
    assert_eq!(error.class, "MERGE_VALIDATION_FAILED");
    match run.conclude(error, None).details {
        MergeDetails::Import(d) => assert_eq!(d.output_state, "NotCreated"),
        other => panic!("{other:?}"),
    }
    let mut run = start();
    for _ in 0..6 {
        run.step(ImportReply::Done, false);
    }
    assert_eq!(run.stage, ImportStage::ForeignKeyCheck);
    let error = match run.step(ImportReply::Count(2), false) {
        ImportAction::Fail(e) => e,
        other => panic!("{other:?}"),
    };
    assert_eq!(error.message, "foreign_key_check reported violations");
    match run.conclude(error, None).details {
        MergeDetails::Import(d) => assert_eq!(d.output_state, "Removed"),
        other => panic!("{other:?}"),
    }
    run.step(ImportReply::Count(0), false);
    match run.step(ImportReply::Text("row 3 missing".into()), false) {
        ImportAction::Fail(e) => assert_eq!(e.message, "row 3 missing"),
        other => panic!("{other:?}"),
    }
    run.step(ImportReply::Text("ok".into()), false);
    match run.step(ImportReply::Size(101), false) {
        ImportAction::Fail(e) => assert_eq!(
            (e.class, e.message.as_str()),
            ("MERGE_LIMIT_EXCEEDED", "serialized SQLite image exceeds configured limit")
        ),
        other => panic!("{other:?}"),
    }
    run.step(ImportReply::Size(100), false);
    match run.step(ImportReply::Exists("taken".into()), false) {
        ImportAction::Fail(e) => assert_eq!(e.class, "MERGE_OUTPUT_EXISTS"),
        other => panic!("{other:?}"),
    }
    run.step(ImportReply::Done, false);
    assert!(!run.owner);
    run.step(ImportReply::Done, false);
    assert!(run.owner);
    let error = match run.step(ImportReply::Failed("full".into()), false) {
        ImportAction::Fail(e) => e,
        other => panic!("{other:?}"),
    };
    let e = run.conclude(error, Some("gone".into()));
    assert_eq!(e.class, "MERGE_CLEANUP_UNCERTAIN");
    match e.details {
        MergeDetails::Import(d) => {
            assert_eq!(d.output_state, "Uncertain");
            assert_eq!(d.root_class, Some("MERGE_INPUT_INVALID"));
        }
        other => panic!("{other:?}"),
    }
    for _ in 0..3 {
        run.step(ImportReply::Done, false);
    }
    match run.step(ImportReply::Owned(false), false) {
        ImportAction::Fail(e) => {
            assert_eq!(e.message, "output identity changed before validation")
        }
        other => panic!("{other:?}"),
    }
    let e = preflight_error(MergeError::new("MERGE_FORMAT_INVALID", "x"), None, 4);
    match e.details {
        MergeDetails::Import(d) => {
            assert_eq!(d.output_state, "NotCreated");
            assert_eq!(d.byte_count, 4);
        }
        other => panic!("{other:?}"),
    }
}

#[test]
fn imports_are_prepared_or_refused() {
    let prepare = |text: &str, limit: usize, cancelled: bool| {
        ImportRun::prepare(text.to_owned(), "/out".into(), 7, limit, 100, cancelled)
    };
    let run = prepare(FORMAT_HEADER, 10, false).unwrap();
    assert_eq!(run.stage, ImportStage::Open);
    assert_eq!((run.output.as_str(), run.byte_count, run.image_limit), ("/out", 7, 100));
    assert!(!run.owner && run.plan.statements.is_empty());
    for (text, cancelled, class, message) in [
        (
            "SELECT 1;",
            false,
            "MERGE_FORMAT_INVALID",
            "merge text must begin with the exact LF-terminated format header",
        ),
        (FORMAT_HEADER, true, "MERGE_LIMIT_EXCEEDED", "merge operation cancelled"),
    ] {
        let e = prepare(text, 10, cancelled).unwrap_err();
        assert_eq!((e.class, e.message.as_str()), (class, message));
        match e.details {
            MergeDetails::Import(d) => {
                assert_eq!(d.output_state, "NotCreated");
                assert_eq!(d.output_path.as_deref(), Some("/out"));
                assert_eq!((d.statement_count, d.byte_count), (0, 7));
            }
            other => panic!("{other:?}"),
        }
    }
}

#[test]
fn imports_take_their_steps_in_order() {
    let text = with_baseline(&[
        "-- sqlite-mcp schema-baseline: v1 count=1",
        &record("table", "t", "CREATE TABLE t(x);"),
        "-- sqlite-mcp schema-baseline-end: v1",
        "CREATE TABLE t(x);",
        "INSERT INTO t VALUES (1);",
    ]);
    let mut run = ImportRun::prepare(text, "/out".into(), 7, 10, 100, false).unwrap();
    let mut steps = 1;
    let result = loop {
        let reply = match run.stage {
            ImportStage::ForeignKeyCheck => ImportReply::Count(0),
            ImportStage::IntegrityCheck => ImportReply::Text("ok".into()),
            ImportStage::Serialize => {
                assert_eq!(run.done, 2);
                assert!(!run.owner);
                ImportReply::Size(100)
            }
            ImportStage::Owned => ImportReply::Owned(true),
            ImportStage::JournalMode => ImportReply::Text("delete".into()),
            ImportStage::ObjectCount => ImportReply::Count(4),
            ImportStage::TableCount => ImportReply::Count(3),
            _ => ImportReply::Done,
        };
        match run.step(reply, false) {
            ImportAction::Finish(result) => break result,
            ImportAction::Fail(e) => panic!("{e:?}"),
            _ => steps += 1,
        }
    };
    assert_eq!(steps, 19 + 2);
    assert!(run.owner);
    assert_eq!(result.statement_count, 2);
    assert_eq!(result.output_state, "Committed");
    assert_eq!(result.validation.journal_mode, "delete");
    assert_eq!(result.validation.schema_summary.object_count, 4);
    assert_eq!(result.validation.schema_summary.table_count, 3);
}

#[test]
fn manifests_are_one_line_of_ordered_json() {
    let seen = SidecarObservation {
        kind: "main".into(),
        path: "/a \"b\"\n".into(),
        present: true,
        device_inode: Some([1, u64::MAX]),
        size_bytes: Some(4096),
        mtime_ns: Some(1_700_000_000_000_000_000),
        sha256_hex: Some("ab".into()),
    };
    let observation = SourceObservation {
        label: "base".into(),
        phase: "before".into(),
        main: seen,
        rollback_journal: missing("rollback_journal"),
        wal: missing("wal"),
        shm: missing("shm"),
    };
    let files = Files {
        base_sql: Some("/w/base.sql".into()),
        ours_sql: None,
        theirs_sql: None,
        resolved_sql: None,
    };
    let counts =
        FileByteCounts { base_sql: 1, ours_sql: 2, theirs_sql: 3, resolved_sql: 4, manifest: 5 };
    let sources = vec!["/1".to_owned(), "/2".to_owned(), "/3".to_owned()];
    let text = manifest_text(&sources, &vec![observation], &files, &counts);
    let value: serde_json::Value = serde_json::from_str(&text).unwrap();
    assert_eq!(format!("{value}\n"), text);
    assert_eq!(value.as_object().unwrap().len(), 7);
    assert_eq!(value["format_version"], 1);
    assert_eq!(value["labels"][2], "theirs");
    assert_eq!(value["canonical_source_paths"][1], "/2");
    assert_eq!(value["files"]["base_sql"], "/w/base.sql");
    assert!(value["files"]["ours_sql"].is_null());
    assert_eq!(value["file_byte_counts"]["manifest"], 5);
    let main = &value["source_observations"][0]["main"];
    assert_eq!(main["path"], "/a \"b\"\n");
    assert_eq!(main["device_inode"][1], u64::MAX);
    assert_eq!(main["mtime_ns"], 1_700_000_000_000_000_000u64);
    assert_eq!(value["source_observations"][0]["wal"]["present"], false);
    assert_eq!(value["workspace_state"], "Retained");
}
