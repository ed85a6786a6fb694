//! Typed values.
use sqlite_mcp_core::server::query::{
    batch_text, check_statement, payload_len, validate_batch_sql, RowCollector,
};
use sqlite_mcp_core::sql::{
    cell, parse_integer, validate_with_limit, ColumnValue, RealReading, SqlValue,
};
use sqlite_mcp_core::tools::TypedValue;
use sqlite_mcp_core::{Cell, Config, QueryResult};

fn reading(text: &str) -> RealReading {
    match text.parse::<f64>() {
        Ok(x) => RealReading::Bits(x.to_bits()),
        Err(_) => RealReading::Malformed,
    }
}

fn value(c: &Cell) -> Result<SqlValue, String> {
    let reading_of = match c {
        Cell::Real(s) => reading(s),
        _ => RealReading::Malformed,
    };
    c.to_value(reading_of)
}

fn real_value(x: f64) -> ColumnValue {
    ColumnValue::Real { bits: x.to_bits(), display: x.to_string() }
}

#[test]
fn typed_values_reject_nonfinite() {
    assert!(value(&Cell::Real("NaN".into())).is_err());
}

#[test]
fn every_refused_parameter_says_why() {
    assert_eq!(value(&Cell::Real("NaN".into())).unwrap_err(), "real must be finite");
    assert_eq!(value(&Cell::Real("-inf".into())).unwrap_err(), "real must be finite");
    assert_eq!(value(&Cell::Real("1e999".into())).unwrap_err(), "real must be finite");
    assert_eq!(value(&Cell::Real("one".into())).unwrap_err(), "invalid real");
    assert_eq!(value(&Cell::Integer("1.5".into())).unwrap_err(), "invalid integer");
    assert_eq!(value(&Cell::Blob("?".into())).unwrap_err(), "invalid base64");
    assert_eq!(
        value(&Cell::TextBytes("AA==".into())).unwrap_err(),
        "text_bytes parameters are unsupported"
    );
    match value(&Cell::Real("-0.5".into())).unwrap() {
        SqlValue::Real(bits) => assert_eq!(f64::from_bits(bits), -0.5),
        other => panic!("{other:?}"),
    }
}

#[test]
fn integers_parse_like_decimal_numbers() {
    for (text, expected) in [
        ("0", Some(0)),
        ("-0", Some(0)),
        ("+17", Some(17)),
        ("0042", Some(42)),
        ("9223372036854775807", Some(i64::MAX)),
        ("9223372036854775808", None),
        ("-9223372036854775808", Some(i64::MIN)),
        ("-9223372036854775809", None),
        ("99999999999999999999999", None),
        ("", None),
        ("+", None),
        ("-", None),
        ("+-1", None),
        (" 1", None),
        ("1 ", None),
        ("\u{661}", None),
    ] {
        assert_eq!(parse_integer(text), expected, "{text:?}");
        assert_eq!(text.parse::<i64>().ok(), expected, "{text:?}");
    }
}

#[test]
fn values_come_back_as_they_went_in() {
    for n in [0, -1, 7, i64::MAX, i64::MIN] {
        let c = cell(ColumnValue::Integer(n));
        assert_eq!(c, Cell::Integer(n.to_string()));
        assert!(matches!(value(&c), Ok(SqlValue::Integer(m)) if m == n));
    }
    let c = cell(ColumnValue::Blob(vec![0, 255, 16]));
    assert_eq!(c, Cell::Blob("AP8Q".into()));
    assert!(matches!(value(&c), Ok(SqlValue::Blob(b)) if b == vec![0, 255, 16]));
    let c = cell(ColumnValue::Blob(vec![1]));
    assert_eq!(c, Cell::Blob("AQ==".into()));
    let c = cell(ColumnValue::Text("gr\u{fc}n".as_bytes().to_vec()));
    assert_eq!(c, Cell::Text("gr\u{fc}n".into()));
    assert!(matches!(value(&c), Ok(SqlValue::Text(s)) if s == "gr\u{fc}n"));
    assert_eq!(cell(ColumnValue::Null), Cell::Null);
    assert!(matches!(value(&Cell::Null), Ok(SqlValue::Null)));
}

#[test]
fn odd_values_are_shown_without_loss() {
    assert_eq!(cell(ColumnValue::Text(vec![0xff, 0xfe])), Cell::TextBytes("//4=".into()));
    assert_eq!(cell(real_value(1.5)), Cell::Real("1.5".into()));
    assert_eq!(cell(real_value(f64::INFINITY)), Cell::Real("Infinity".into()));
    assert_eq!(cell(real_value(f64::NEG_INFINITY)), Cell::Real("-Infinity".into()));
    assert_eq!(cell(real_value(-0.0)), Cell::Real("-0".into()));
}

#[test]
fn parameters_are_checked_in_order() {
    let params = vec![Cell::Integer("1".into()), Cell::Integer("x".into()), Cell::Blob("?".into())];
    let reals = vec![RealReading::Malformed; 3];
    assert_eq!(
        validate_with_limit("SELECT 1", &params, &reals, 3).unwrap_err(),
        "invalid integer"
    );
    assert_eq!(
        validate_with_limit("SELECT 1", &params, &reals, 2).unwrap_err(),
        "too many parameters"
    );
    assert_eq!(
        validate_with_limit("SELECT\0", &params, &reals, 2).unwrap_err(),
        "SQL contains NUL byte"
    );
    let fine = vec![Cell::Integer("1".into()), Cell::Null];
    let out = validate_with_limit("SELECT 1", &fine, &vec![RealReading::Malformed; 2], 2).unwrap();
    assert!(matches!(out[0], SqlValue::Integer(1)));
    assert!(matches!(out[1], SqlValue::Null));
}

#[test]
fn statements_are_checked_before_they_run() {
    let mut config = Config::default();
    config.sql_byte_limit = 8;
    config.parameter_limit = 1;
    let none = Vec::new();
    let no_reals = Vec::new();
    assert!(check_statement("SELECT 1", &none, &no_reals, &config).is_ok());
    assert_eq!(
        check_statement("SELECT 12", &none, &no_reals, &config).unwrap_err().message(),
        "SQL exceeds configured byte limit"
    );
    assert_eq!(
        check_statement("\u{fc}\u{fc}\u{fc}\u{fc}\u{fc}", &none, &no_reals, &config)
            .unwrap_err()
            .message(),
        "SQL exceeds configured byte limit"
    );
    let two = vec![Cell::Null, Cell::Null];
    let reals = vec![RealReading::Malformed; 2];
    assert_eq!(
        check_statement("SELECT 1", &two, &reals, &config).unwrap_err().message(),
        "too many parameters"
    );
    let bad = vec![Cell::Real("nan".into())];
    assert_eq!(
        check_statement("SELECT 1", &bad, &vec![reading("nan")], &config).unwrap_err().message(),
        "real must be finite"
    );
}

#[test]
fn batches_are_checked_before_they_run() {
    assert!(validate_batch_sql("SELECT 1", 8).is_ok());
    assert_eq!(
        validate_batch_sql("SELECT 1;", 8).unwrap_err().message(),
        "batch SQL exceeds configured byte limit"
    );
    assert_eq!(validate_batch_sql("\0", 8).unwrap_err().message(), "batch SQL contains NUL");
    assert_eq!(batch_text(b"SELECT 1".to_vec(), 8).unwrap(), "SELECT 1");
    assert_eq!(
        batch_text(b"SELECT 1;".to_vec(), 8).unwrap_err().message(),
        "batch SQL exceeds configured byte limit"
    );
    assert_eq!(
        batch_text(vec![0xff], 8).unwrap_err().message(),
        "batch SQL file is not valid UTF-8"
    );
    assert_eq!(batch_text(vec![0], 8).unwrap_err().message(), "batch SQL contains NUL");
}

#[test]
fn rows_are_drained_and_capped() {
    let mut collector = RowCollector::start(vec!["a".into()], 1, 2).unwrap();
    for n in 0..5 {
        collector.push(vec![Cell::Integer(n.to_string())]);
    }
    let result = collector.finish(3, 4, 9);
    assert_eq!(result.rows_returned, 2);
    assert_eq!(result.rows[1], vec![Cell::Integer("1".into())]);
    assert!(result.truncated && result.execution_complete);
    assert_eq!(result.changes, 9);
    let exact = RowCollector::start(Vec::new(), 1, 2).unwrap().finish(4, 4, 9);
    assert!(!exact.truncated);
    assert_eq!(exact.changes, 0);
    let e = RowCollector::start(vec!["a".into(), "b".into()], 1, 2).unwrap_err();
    assert_eq!(e.text, "Invalid parameter name: column limit exceeded");
}

#[test]
fn the_size_of_a_result_is_that_of_its_json() {
    let result = QueryResult {
        columns: vec!["a\"b".into(), "\u{fc}\n\u{1}".into()],
        rows: vec![
            vec![Cell::Null, Cell::Integer("7".into())],
            vec![Cell::Text("x\\y".into()), Cell::Blob("AA==".into())],
            vec![Cell::Real("1.5".into()), Cell::TextBytes("/w==".into())],
        ],
        rows_returned: 3,
        truncated: false,
        execution_complete: true,
        changes: 0,
    };
    let text = concat_lines(&[
        r#"{"columns":["a\"b","ü\n\u0001"],"rows":["#,
        r#"[{"type":"null"},{"type":"integer","value":"7"}],"#,
        r#"[{"type":"text","value":"x\\y"},{"type":"blob","value":"AA=="}],"#,
        r#"[{"type":"real","value":"1.5"},{"type":"textbytes","value":"/w=="}]]}"#,
    ]);
    assert_eq!(payload_len(&result), text.len());
}

fn concat_lines(lines: &[&str]) -> String {
    lines.concat()
}

#[test]
fn typed_arguments_become_cells() {
    assert_eq!(TypedValue::Null.into_cell(), Cell::Null);
    assert_eq!(TypedValue::Integer("1".into()).into_cell(), Cell::Integer("1".into()));
    assert_eq!(TypedValue::Real("1".into()).into_cell(), Cell::Real("1".into()));
    assert_eq!(TypedValue::Text("1".into()).into_cell(), Cell::Text("1".into()));
    assert_eq!(TypedValue::Blob("1".into()).into_cell(), Cell::Blob("1".into()));
}

#[test]
fn finite_reals_read_back() {
    for x in [0.1, -0.0, 1e300, 5e-324, f64::MAX] {
        let shown = cell(real_value(x));
        assert!(matches!(value(&shown), Ok(SqlValue::Real(bits)) if bits == x.to_bits()), "{x}");
    }
    for x in [f64::INFINITY, f64::NEG_INFINITY, f64::NAN] {
        assert!(value(&cell(real_value(x))).is_err());
    }
}
