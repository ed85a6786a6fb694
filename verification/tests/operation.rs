//! Operations, shutdown reports and admission.
use sqlite_mcp_core::admission::{AdmissionRegistry, AdmissionState, ReservationKind};
use sqlite_mcp_core::server::lifecycle::{
    admit_merge, close_result, join_error, probe_error, shutdown_report, ShutdownJoin,
};
use sqlite_mcp_core::outside::EngineLimit;
use sqlite_mcp_core::worker::limits::{
    check_installed, engine_request, install_limits, WorkerLimits,
};
use sqlite_mcp_core::worker::{SqliteFailure, WorkerError};
use sqlite_mcp_core::{
    CleanupFailure, CleanupStage, CoreError, InterruptionCause, LimitInstallError,
    OperationOutcome, ShutdownReport, ShutdownStatus, TransactionMode, WorkerShutdownError,
};

const CLEAN: ShutdownStatus = ShutdownStatus { connection_closed: true, thread_joined: true };

#[test]
fn shared_seams_compile() {
    assert_eq!(TransactionMode::parse("deferred"), Some(TransactionMode::Deferred));
    assert_eq!(TransactionMode::parse("immediate"), Some(TransactionMode::Immediate));
    assert_eq!(TransactionMode::parse("exclusive"), Some(TransactionMode::Exclusive));
    assert_eq!(TransactionMode::parse("DEFERRED"), None);
    assert_eq!(TransactionMode::Deferred.render(), "deferred");
    assert_eq!(TransactionMode::default(), TransactionMode::Deferred);

    let outcome: OperationOutcome<()> = OperationOutcome::new(Ok(()), false, true);
    assert!(!outcome.transaction_open);
    assert!(!outcome.transaction_continuable);
    let outcome = outcome
        .with_invalidated(true)
        .with_mutation_attempted(true)
        .with_expired(true);
    assert!(outcome.invalidated && !outcome.transaction_continuable && outcome.expired);
    assert!(outcome.mutation_attempted);
    let failed: OperationOutcome<()> = OperationOutcome::new(Err(WorkerError::Closed), true, true)
        .with_cleanup_error(CleanupFailure {
            stage: CleanupStage::ExpiryRollback,
            known_transaction_open: true,
            known_invalidated: false,
            detail: "injected".to_owned(),
        });
    assert!(failed.cleanup_error.is_some());

    let mut report = ShutdownReport::new();
    report.record("h-b", Ok(CLEAN));
    report.record(
        "h-a",
        Err(WorkerShutdownError::RollbackUncertain("uncertain".to_owned())),
    );
    assert!(!report.is_success());
    assert_eq!(
        report.entries.iter().map(|(id, _)| id.clone()).collect::<Vec<_>>(),
        vec!["h-a".to_owned(), "h-b".to_owned()]
    );

    let error = LimitInstallError::Unsupported {
        field: "expression_depth",
        requested: 2000,
        effective: Some(1000),
    };
    assert!(error.message().contains("expression_depth"));
    assert_eq!(InterruptionCause::Shutdown.as_str(), "server shutdown");
}

#[test]
fn modes_render_as_they_parse() {
    for mode in [
        TransactionMode::Deferred,
        TransactionMode::Immediate,
        TransactionMode::Exclusive,
    ] {
        assert_eq!(TransactionMode::parse(mode.render()), Some(mode));
    }
    assert_eq!(TransactionMode::parse(""), None);
    assert_eq!(TransactionMode::parse("deferred "), None);
}

#[test]
fn autocommit_outcomes_claim_nothing() {
    let outcome = OperationOutcome::autocommit(Ok(3));
    assert!(!outcome.transaction_open && !outcome.transaction_continuable);
    assert!(matches!(outcome.result, Ok(3)));
    let open = OperationOutcome::new(Ok(4), true, true);
    assert!(open.transaction_open && open.transaction_continuable);
    let stuck: OperationOutcome<()> =
        OperationOutcome::new(Err(WorkerError::Closed), true, false);
    assert!(stuck.transaction_open && !stuck.transaction_continuable);
    assert!(!stuck.expired && !stuck.invalidated && !stuck.mutation_attempted);
    assert!(stuck.cleanup_error.is_none());
    let expired = open.with_expired(true);
    assert!(expired.transaction_open && !expired.transaction_continuable);
}

#[test]
fn texts_of_causes_and_stages() {
    assert_eq!(InterruptionCause::Client.as_str(), "client cancellation");
    assert_eq!(InterruptionCause::Deadline.as_str(), "request deadline");
    assert_eq!(CleanupStage::ExpiryRollback.as_str(), "expiry rollback");
    assert_eq!(CleanupStage::SavepointRestore.as_str(), "savepoint restoration");
    assert_eq!(CleanupStage::ManagedSchemaCleanup.as_str(), "managed schema cleanup");
    assert_eq!(CleanupStage::ConnectionRollback.as_str(), "connection rollback");
    assert_eq!(CleanupStage::ConnectionClose.as_str(), "connection close");
    assert_eq!(
        WorkerShutdownError::CloseUncertain("x".into()).message(),
        "connection close unconfirmed: x"
    );
    assert_eq!(
        WorkerShutdownError::JoinUncertain("x".into()).message(),
        "worker join unconfirmed: x"
    );
    assert_eq!(
        WorkerShutdownError::RollbackUncertain("x".into()).message(),
        "rollback verification failed: x"
    );
}

#[test]
fn reports_keep_the_first_record_of_a_handle() {
    let mut report = ShutdownReport::new();
    for id in ["m", "z", "a", "m", "\u{e9}", "zz"] {
        report.record(id, Ok(CLEAN));
    }
    report.record("a", Err(WorkerShutdownError::JoinUncertain("late".into())));
    let ids: Vec<&str> = report.entries.iter().map(|(id, _)| id.as_str()).collect();
    assert_eq!(ids, vec!["a", "m", "z", "zz", "\u{e9}"]);
    assert!(report.is_success());
    report.registry_cleanup_errors.push("lost".into());
    assert!(!report.is_success());
}

#[test]
fn a_shutdown_report_covers_every_worker() {
    let report = shutdown_report(vec![
        ShutdownJoin::Ended { handle: "h2".into(), result: Ok(CLEAN) },
        ShutdownJoin::Ended { handle: "h1".into(), result: Ok(CLEAN) },
    ]);
    assert!(report.is_success());
    assert_eq!(report.entries[0].0, "h1");
    let report = shutdown_report(vec![
        ShutdownJoin::Ended { handle: "h2".into(), result: Ok(CLEAN) },
        ShutdownJoin::Lost("panicked".into()),
    ]);
    assert!(!report.is_success());
    assert_eq!(report.registry_cleanup_errors, vec!["shutdown join failed: panicked".to_owned()]);
    let half = ShutdownStatus { connection_closed: true, thread_joined: false };
    assert!(!half.is_success());
    let report = shutdown_report(vec![ShutdownJoin::Ended { handle: "h".into(), result: Ok(half) }]);
    assert!(!report.is_success());
    assert!(matches!(&report.entries[0], (id, Ok(status)) if id == "h" && *status == half));
    let report = shutdown_report(vec![
        ShutdownJoin::Ended { handle: "h".into(), result: Ok(CLEAN) },
        ShutdownJoin::Ended { handle: "h".into(), result: Ok(half) },
    ]);
    assert!(report.is_success());
    assert_eq!(report.entries.len(), 1);
    assert!(matches!(&report.entries[0].1, Ok(status) if *status == CLEAN));
}

#[test]
fn close_reports_what_is_unconfirmed() {
    assert!(close_result(Ok(CLEAN)).is_ok());
    let half = ShutdownStatus { connection_closed: true, thread_joined: false };
    assert_eq!(
        close_result(Ok(half)).unwrap_err().message(),
        "close cleanup incomplete (connection_closed=true, thread_joined=false)"
    );
    assert_eq!(
        close_result(Err(WorkerShutdownError::JoinUncertain("slow".into()))).unwrap_err().message(),
        "worker join unconfirmed: slow"
    );
    assert_eq!(join_error("boom").message(), "merge worker join failed: boom");
}

#[test]
fn shutdown_rejects_new_admission_and_finishes_after_drain() {
    let mut registry = AdmissionRegistry::default();
    let first = registry.reserve(ReservationKind::TransientMerge).unwrap();
    assert!(registry.reserve(ReservationKind::Ordinary).is_ok());
    let entries = registry.begin_shutdown();
    assert_eq!(entries.len(), 2);
    assert!(entries.iter().any(|entry| entry.id == first.id && entry.cancelled));
    assert!(registry.reserve(ReservationKind::Ordinary).is_err());
    let ids: Vec<_> = entries.iter().map(|entry| entry.id).collect();
    for id in ids {
        registry.finish(id);
    }
    assert_eq!(registry.state(), AdmissionState::ShutdownComplete);
}

#[test]
fn an_idle_server_shuts_down_at_once() {
    let mut registry = AdmissionRegistry::default();
    assert!(registry.begin_shutdown().is_empty());
    assert_eq!(registry.state(), AdmissionState::ShuttingDown);
    registry.complete_shutdown();
    assert_eq!(registry.state(), AdmissionState::ShutdownComplete);
    let mut busy = AdmissionRegistry::default();
    let kept = busy.reserve(ReservationKind::Ordinary).unwrap();
    busy.complete_shutdown();
    assert_eq!(busy.state(), AdmissionState::Running);
    assert_eq!(busy.active_len(), 1);
    busy.finish(kept.id);
    assert_eq!(busy.active_len(), 0);
    assert_eq!(busy.state(), AdmissionState::Running);
}

#[test]
fn merges_are_admitted_once() {
    let mut registry = AdmissionRegistry::default();
    let reservation = admit_merge(&mut registry, false).unwrap();
    assert_eq!(reservation.kind, ReservationKind::TransientMerge);
    assert!(matches!(
        admit_merge(&mut registry, true),
        Err(CoreError::Cancelled { transaction_open: false, transaction_continuable: false })
    ));
    assert_eq!(registry.active_len(), 1);
    registry.begin_shutdown();
    assert!(matches!(admit_merge(&mut registry, false), Err(CoreError::ServerShutdown)));
}

fn limits(expression_depth: usize, cell_byte_limit: usize) -> WorkerLimits {
    WorkerLimits {
        cell_byte_limit,
        sql_byte_limit: 1,
        column_limit: 1,
        expression_depth,
        compound_terms: 500,
        parameter_limit: 32_766,
    }
}

#[test]
fn engine_limit_readback_and_checked_conversion() {
    let connection = rusqlite::Connection::open_in_memory().unwrap();
    let installed = install_limits(&connection, &limits(1000, 67_108_864)).unwrap();
    let requested = [
        (rusqlite::limits::Limit::SQLITE_LIMIT_LENGTH, 67_108_864_i32),
        (rusqlite::limits::Limit::SQLITE_LIMIT_EXPR_DEPTH, 1000),
        (rusqlite::limits::Limit::SQLITE_LIMIT_COMPOUND_SELECT, 500),
        (rusqlite::limits::Limit::SQLITE_LIMIT_VARIABLE_NUMBER, 32_766),
    ];
    for (limit, value) in requested {
        let effective = connection.limit(limit).unwrap();
        assert_eq!(effective, value, "engine limit {limit:?} was not installed/read back");
    }
    assert_eq!(installed.cell_byte_limit, 67_108_864);
    assert_eq!(installed.expression_depth, 1000);
    assert_eq!(installed.compound_terms, 500);
    assert_eq!(installed.parameter_limit, 32_766);
}

#[test]
fn engine_ceilings_are_reported() {
    let connection = rusqlite::Connection::open_in_memory().unwrap();
    let e = install_limits(&connection, &limits(1_000_000, 1000)).unwrap_err();
    assert!(matches!(
        e,
        LimitInstallError::Unsupported {
            field: "expression_depth",
            requested: 1_000_000,
            effective: Some(1000)
        }
    ));
    assert_eq!(
        e.message(),
        "limit expression_depth: engine refused 1000000; effective value is 1000"
    );
    let e = install_limits(&connection, &limits(10, usize::MAX)).unwrap_err();
    assert!(matches!(&e, LimitInstallError::Conversion { field: "cell_byte_limit", .. }));
    assert_eq!(
        probe_error(&e).message(),
        format!(
            "path error: engine limit probe failed: limit cell_byte_limit: configured value {} does not fit the engine limit type",
            usize::MAX
        )
    );
}

#[test]
fn every_setting_goes_to_its_own_limit() {
    let settings = WorkerLimits {
        cell_byte_limit: 1,
        sql_byte_limit: 2,
        column_limit: 3,
        expression_depth: 4,
        compound_terms: 5,
        parameter_limit: 6,
    };
    assert_eq!(engine_request(&settings, 0), ("cell_byte_limit", EngineLimit::Length, 1));
    assert_eq!(
        engine_request(&settings, 1),
        ("expression_depth", EngineLimit::ExpressionDepth, 4)
    );
    assert_eq!(engine_request(&settings, 2), ("compound_terms", EngineLimit::CompoundSelect, 5));
    assert_eq!(engine_request(&settings, 3), ("parameter_limit", EngineLimit::VariableNumber, 6));
}

#[test]
fn limits_are_judged_by_what_is_in_force() {
    assert!(matches!(check_installed("f", 5, Ok(()), Ok(5)), Ok(5)));
    let failure = SqliteFailure { code: None, text: "no".into() };
    let e = check_installed("f", 5, Err(failure.clone()), Ok(5)).unwrap_err();
    assert_eq!(e.message(), "limit f: read-back failed: no");
    assert!(matches!(
        check_installed("f", 5, Ok(()), Err(failure)),
        Err(LimitInstallError::Sqlite { .. })
    ));
    let e = LimitInstallError::Unsupported { field: "f", requested: 7, effective: None };
    assert_eq!(e.message(), "limit f: engine refused 7");
}
