//! Settings and their bounds.
use sqlite_mcp_core::server::lifecycle::{idle_seconds, worker_limits};
use sqlite_mcp_core::{Config, ConfigError, CoreError};
use std::collections::BTreeSet;

const FIELDS: [(&str, u64); 15] = [
    ("max_handles", 1024),
    ("queue_capacity", 4096),
    ("query_timeout_ms", 300_000),
    ("writable_idle_seconds", 86_400),
    ("readonly_idle_seconds", 604_800),
    ("result_row_limit", 100_000),
    ("result_byte_limit", 67_108_864),
    ("schema_byte_limit", 67_108_864),
    ("cell_byte_limit", 67_108_864),
    ("busy_wait_ms", 60_000),
    ("sql_byte_limit", 1_048_576),
    ("column_limit", 2048),
    ("parameter_limit", 32_766),
    ("expression_depth", 1000),
    ("compound_terms", 500),
];

fn config_with(field: &str, setting: u64) -> Config {
    let mut c = Config::default();
    let size = setting as usize;
    match field {
        "max_handles" => c.max_handles = size,
        "queue_capacity" => c.queue_capacity = size,
        "query_timeout_ms" => c.query_timeout_ms = setting,
        "writable_idle_seconds" => c.writable_idle_seconds = setting,
        "readonly_idle_seconds" => c.readonly_idle_seconds = setting,
        "result_row_limit" => c.result_row_limit = size,
        "result_byte_limit" => c.result_byte_limit = size,
        "schema_byte_limit" => c.schema_byte_limit = size,
        "cell_byte_limit" => c.cell_byte_limit = size,
        "busy_wait_ms" => c.busy_wait_ms = setting,
        "sql_byte_limit" => c.sql_byte_limit = size,
        "column_limit" => c.column_limit = size,
        "parameter_limit" => c.parameter_limit = size,
        "expression_depth" => c.expression_depth = size,
        "compound_terms" => c.compound_terms = size,
        _ => unreachable!(),
    }
    c
}

#[test]
fn config_defaults_and_unknown_keys() {
    assert_eq!(Config::default().max_handles, 32);
}

#[test]
fn config_validation_and_unknown_keys() {
    let mk = |f: fn(&mut Config)| {
        let mut c = Config::default();
        f(&mut c);
        c
    };
    assert!(mk(|c| c.max_handles = 0).validate().is_err());
    assert!(mk(|c| c.queue_capacity = 0).validate().is_err());
    assert!(mk(|c| c.query_timeout_ms = 0).validate().is_err());
    assert!(mk(|c| c.max_handles = 1025).validate().is_err());
    assert!(mk(|c| c.queue_capacity = 4097).validate().is_err());
}

#[test]
fn config_all_field_boundaries() {
    for &(field, maximum) in &FIELDS {
        for value in [0, 1, maximum - 1, maximum, maximum + 1, u64::MAX] {
            let valid = config_with(field, value).validate().is_ok();
            assert_eq!(valid, (1..=maximum).contains(&value), "{field}={value}");
        }
    }
}

#[test]
fn config_policy_covers_serialized_fields() {
    let shown = format!("{:?}", Config::default());
    let inside = shown.strip_prefix("Config { ").and_then(|s| s.strip_suffix(" }")).unwrap();
    let actual: BTreeSet<_> =
        inside.split(", ").map(|member| member.split(": ").next().unwrap()).collect();
    let policy: BTreeSet<_> = FIELDS.iter().map(|(field, _)| *field).collect();
    assert_eq!(actual, policy, "every serialized Config field needs a boundary policy");
}

#[test]
fn violations_name_the_setting_and_its_bounds() {
    for &(field, maximum) in &FIELDS {
        let refused = config_with(field, maximum + 1).validate().unwrap_err();
        assert_eq!(
            refused.message(),
            format!("invalid config: {field} must be 1..={maximum} (got {})", maximum + 1)
        );
    }
}

#[test]
fn default_values_are_the_documented_ones() {
    let c = Config::default();
    assert!(c.validate().is_ok());
    assert_eq!(c.queue_capacity, 16);
    assert_eq!(c.query_timeout_ms, 30_000);
    assert_eq!(c.writable_idle_seconds, 60);
    assert_eq!(c.readonly_idle_seconds, 600);
    assert_eq!(c.result_row_limit, 500);
    assert_eq!(c.result_byte_limit, 1_048_576);
    assert_eq!(c.schema_byte_limit, 2_097_152);
    assert_eq!(c.busy_wait_ms, 2000);
    assert_eq!(c.sql_byte_limit, 102_400);
    assert_eq!(c.cell_byte_limit, 1_048_576);
    assert_eq!(c.column_limit, 256);
    assert_eq!(c.parameter_limit, 1000);
    assert_eq!(c.expression_depth, 100);
    assert_eq!(c.compound_terms, 50);
    assert_eq!(idle_seconds(&c, false), 60);
    assert_eq!(idle_seconds(&c, true), 600);
}

#[test]
fn the_first_violation_is_reported() {
    let mut c = Config::default();
    c.compound_terms = 501;
    c.queue_capacity = 0;
    match c.validate() {
        Err(ConfigError::Invalid(m)) => assert_eq!(m, "queue_capacity must be 1..=4096 (got 0)"),
        other => panic!("{other:?}"),
    }
    assert_eq!(ConfigError::Io("gone".into()).message(), "config I/O: gone");
    assert_eq!(ConfigError::Parse("bad".into()).message(), "invalid config: bad");
}

#[test]
fn invalid_settings_give_no_limits() {
    let limits = worker_limits(&Config::default()).unwrap();
    assert_eq!(limits.parameter_limit, 1000);
    assert_eq!(limits.sql_byte_limit, 102_400);
    let e = worker_limits(&config_with("column_limit", 4096)).unwrap_err();
    assert!(matches!(&e, CoreError::Path(_)));
    assert_eq!(
        e.message(),
        "path error: invalid config: column_limit must be 1..=2048 (got 4096)"
    );
}
