//! What workers decide.
use sqlite_mcp_core::server::error::classify_worker_error;
use sqlite_mcp_core::test_support::CommitFault;
use sqlite_mcp_core::worker::arms::{
    commit_outcome, commit_work, expire_answer, faulted_commit, shutdown_result, stop_status,
    version_is_wanted, CommitEntry, CommitWork, ControlEntry, RunEnd, RunEntry, RunFacts,
    StopReply, WorkerLoop,
};
use sqlite_mcp_core::worker::busy::{guard_event_key, BusyGuard};
use sqlite_mcp_core::worker::{SqliteFailure, WorkerError};
use sqlite_mcp_core::{CoreError, InterruptionCause, ShutdownStatus, WorkerShutdownError};

fn failure(code: Option<i32>, text: &str) -> SqliteFailure {
    SqliteFailure { code, text: text.to_owned() }
}

fn sqlite(code: i32) -> WorkerError {
    WorkerError::Sqlite(failure(Some(code), &format!("sqlite code {code}")))
}

#[test]
fn typed_busy_and_locked_codes_classify_as_busy() {
    for code in [6, 262] {
        let classified = classify_worker_error(sqlite(code), true);
        assert!(
            matches!(classified, CoreError::Busy { primary_code: 6, .. }),
            "SQLite code {code} classified as {classified:?}"
        );
    }
}

#[test]
fn typed_busy_snapshot_remains_distinct() {
    let classified = classify_worker_error(sqlite(rusqlite::ffi::SQLITE_BUSY_SNAPSHOT), true);
    assert!(matches!(classified, CoreError::BusySnapshot { .. }));
}

#[test]
fn interruption_precedence_matrix() {
    assert!(matches!(
        CoreError::Cancelled { transaction_open: true, transaction_continuable: true },
        CoreError::Cancelled { .. }
    ));
}

#[test]
fn worker_errors_are_classified() {
    let classified = classify_worker_error(sqlite(5), false);
    assert_eq!(
        classified.message(),
        "database busy (primary=5, extended=5, transaction_open=false, continuable=false)"
    );
    assert_eq!(
        classify_worker_error(sqlite(517), true).message(),
        "database busy due to stale snapshot (primary=5, extended=517)"
    );
    assert!(matches!(
        classify_worker_error(sqlite(23), true),
        CoreError::PolicyDenied { transaction_open: true, transaction_continuable: true }
    ));
    let guard = WorkerError::Message("statement is denied by SQL policy: x".into());
    let denied = classify_worker_error(guard, true);
    assert!(matches!(denied, CoreError::PolicyDenied { .. }));
    assert!(denied.message().contains("denied by SQL policy"));
    assert!(matches!(
        classify_worker_error(WorkerError::Message("TRANSACTION_EXPIRED".into()), true),
        CoreError::TransactionExpired
    ));
    assert!(matches!(
        classify_worker_error(
            WorkerError::Interrupted {
                by_client: true,
                transaction_open: false,
                transaction_continuable: false
            },
            true
        ),
        CoreError::Cancelled { transaction_open: false, .. }
    ));
    assert!(matches!(
        classify_worker_error(
            WorkerError::Interrupted {
                by_client: false,
                transaction_open: true,
                transaction_continuable: true
            },
            false
        ),
        CoreError::DeadlineExceeded { transaction_open: true, .. }
    ));
    let told = WorkerError::Sqlite(failure(None, "interrupted"));
    assert!(matches!(
        classify_worker_error(told, true),
        CoreError::Cancelled { transaction_open: true, transaction_continuable: true }
    ));
    assert!(matches!(classify_worker_error(sqlite(1), true), CoreError::Worker(_)));
    assert_eq!(classify_worker_error(WorkerError::Closed, true).message(), "worker closed");
}

#[test]
fn texts_of_worker_errors() {
    assert_eq!(
        WorkerError::ResultTooLarge { retained_bytes: 12, limit: 3 }.message(),
        "result too large: retained 12 bytes exceeds limit 3"
    );
    assert_eq!(sqlite(1).message(), "sqlite: sqlite code 1");
}

const CALM: RunFacts = RunFacts {
    shutdown: false,
    now_ms: 1,
    autocommit: false,
    cancelled: false,
    deadline_passed: false,
};

#[test]
fn requests_are_refused_in_order_of_precedence() {
    let mut worker = WorkerLoop::start(1, 60);
    assert_eq!(worker.idle_deadline, 60_001);
    assert!(matches!(worker.run_entry(CALM), RunEntry::Execute));
    let all = RunFacts {
        shutdown: true,
        now_ms: 60_001,
        autocommit: false,
        cancelled: true,
        deadline_passed: true,
    };
    match worker.run_entry(all) {
        RunEntry::Refuse(e) => assert_eq!(e.message(), "SERVER_SHUTDOWN"),
        other => panic!("{other:?}"),
    }
    assert!(matches!(worker.run_entry(RunFacts { shutdown: false, ..all }), RunEntry::ExpireIdle));
    let active = RunFacts { shutdown: false, now_ms: 60_000, ..all };
    assert!(matches!(
        worker.run_entry(active),
        RunEntry::Interrupt(WorkerError::Interrupted {
            by_client: true,
            transaction_open: true,
            transaction_continuable: true
        })
    ));
    assert!(matches!(
        worker.run_entry(RunFacts { cancelled: false, autocommit: true, ..active }),
        RunEntry::Interrupt(WorkerError::Interrupted { by_client: false, transaction_open: false, .. })
    ));
    assert!(matches!(
        worker.run_entry(RunFacts { now_ms: 60_001, autocommit: true, ..CALM }),
        RunEntry::Execute
    ));
    assert_eq!(worker.expire_run().message(), "TRANSACTION_EXPIRED");
    match worker.run_entry(RunFacts { shutdown: false, ..all }) {
        RunEntry::Refuse(e) => assert_eq!(e.message(), "TRANSACTION_EXPIRED"),
        other => panic!("{other:?}"),
    }
}

#[test]
fn activity_prolongs_the_idle_time() {
    let mut worker = WorkerLoop::start(0, 1);
    worker.note_activity(500);
    assert_eq!(worker.idle_deadline, 1500);
    worker.note_activity(u64::MAX - 1);
    assert_eq!(worker.idle_deadline, u64::MAX);
    assert_eq!(WorkerLoop::start(5, u64::MAX).idle_deadline, u64::MAX);
}

#[test]
fn interrupted_requests_are_cleaned_up() {
    let failed: Result<i64, WorkerError> = Err(sqlite(9));
    let end = RunEnd { cancelled: true, shutdown: true, deadline_passed: true };
    assert_eq!(WorkerLoop::run_cleanup(&failed, end), Some(InterruptionCause::Client));
    let end = RunEnd { cancelled: false, ..end };
    assert_eq!(WorkerLoop::run_cleanup(&failed, end), Some(InterruptionCause::Shutdown));
    let end = RunEnd { shutdown: false, ..end };
    assert_eq!(WorkerLoop::run_cleanup(&failed, end), Some(InterruptionCause::Deadline));
    assert_eq!(WorkerLoop::run_cleanup(&Ok(1), end), None);
    let told: Result<i64, WorkerError> = Err(WorkerError::Closed);
    assert_eq!(WorkerLoop::run_cleanup(&told, end), None);
    let end = RunEnd { cancelled: true, shutdown: false, deadline_passed: false };
    assert_eq!(WorkerLoop::run_cleanup(&Ok(1), end), Some(InterruptionCause::Client));
}

#[test]
fn interrupted_requests_are_answered_truthfully() {
    let fail = || -> Result<i64, WorkerError> { Err(sqlite(9)) };
    let benign = || Err(failure(Some(1), "cannot rollback - no transaction is active"));
    let r = WorkerLoop::settle_run(InterruptionCause::Client, fail(), benign(), true);
    assert!(matches!(
        r,
        Err(WorkerError::Interrupted { by_client: true, transaction_open: false, .. })
    ));
    let r = WorkerLoop::settle_run(InterruptionCause::Client, Ok(7), Ok(()), true);
    assert!(matches!(r, Ok(7)));
    let r = WorkerLoop::settle_run(InterruptionCause::Client, Ok(7), Ok(()), false);
    assert_eq!(r.unwrap_err().message(), "handle invalidated; lost uncommitted work");
    let r = WorkerLoop::settle_run(
        InterruptionCause::Deadline,
        fail(),
        Err(failure(None, "disk I/O error")),
        true,
    );
    assert_eq!(
        r.unwrap_err().message(),
        "handle invalidated; lost uncommitted work: disk I/O error"
    );
    let r = WorkerLoop::settle_run(InterruptionCause::Deadline, fail(), Ok(()), true);
    assert!(matches!(r, Err(WorkerError::Interrupted { by_client: false, .. })));
    let r = WorkerLoop::settle_run(InterruptionCause::Shutdown, fail(), Ok(()), true);
    assert_eq!(r.unwrap_err().message(), "SERVER_SHUTDOWN");
    let r = WorkerLoop::settle_run(InterruptionCause::Shutdown, fail(), benign(), false);
    assert_eq!(
        r.unwrap_err().message(),
        "SERVER_SHUTDOWN; handle invalidated; lost uncommitted work: cannot rollback - no transaction is active"
    );
}

#[test]
fn controls_notice_an_idle_transaction() {
    let mut worker = WorkerLoop::start(0, 1);
    assert!(matches!(worker.control_entry(999, false), ControlEntry::Execute));
    assert!(matches!(worker.control_entry(1000, true), ControlEntry::Execute));
    assert!(matches!(worker.control_entry(1000, false), ControlEntry::ExpireIdle));
    assert_eq!(
        worker.expire_control(false, true).message(),
        "handle invalidated; expiry rollback uncertain"
    );
    assert!(!worker.expired);
    assert_eq!(worker.expire_control(true, true).message(), "TRANSACTION_EXPIRED");
    assert!(matches!(worker.control_entry(0, true), ControlEntry::Refuse(_)));
}

#[test]
fn commits_notice_an_idle_transaction() {
    let mut worker = WorkerLoop::start(0, 1);
    assert!(matches!(worker.commit_entry(0, false), CommitEntry::Commit));
    assert!(matches!(worker.commit_entry(1000, false), CommitEntry::ExpireIdle));
    match worker.commit_entry(0, true) {
        CommitEntry::Answer(o) => {
            assert_eq!(o.result.unwrap_err().message(), "no transaction open");
            assert!(!o.commit_confirmed && !o.expired && !o.uncertain_or_invalidated);
        }
        other => panic!("{other:?}"),
    }
    let o = worker.expire_commit(true, false);
    assert!(o.uncertain_or_invalidated && o.transaction_open && !o.transaction_continuable);
    let o = worker.expire_commit(true, true);
    assert!(o.expired && !o.commit_confirmed);
    match worker.commit_entry(0, false) {
        CommitEntry::Answer(o) => assert!(o.expired),
        other => panic!("{other:?}"),
    }
}

#[test]
fn commit_outcomes_are_exact() {
    assert!(version_is_wanted(None, &Ok(()), true));
    assert!(!version_is_wanted(None, &Ok(()), false));
    assert!(!version_is_wanted(Some(CommitFault::Uncertain), &Ok(()), true));
    let o = commit_outcome(None, Ok(()), true, Ok(17));
    assert!(matches!(o.result, Ok(17)) && o.commit_confirmed && !o.transaction_open);
    let o = commit_outcome(None, Ok(()), true, Err(failure(None, "x")));
    assert!(o.commit_confirmed && o.uncertain_or_invalidated);
    let o = commit_outcome(None, Ok(()), false, Ok(17));
    assert!(!o.commit_confirmed && o.uncertain_or_invalidated && o.transaction_open);
    assert_eq!(
        o.result.unwrap_err().message(),
        "commit completed without restoring autocommit"
    );
    let o = commit_outcome(None, Err(failure(Some(5), "busy")), false, Ok(0));
    assert!(o.transaction_open && o.transaction_continuable && !o.uncertain_or_invalidated);
    let o = commit_outcome(None, Err(failure(Some(13), "full")), true, Ok(0));
    assert!(!o.transaction_open && o.uncertain_or_invalidated);
}

#[test]
fn injected_commit_faults_have_their_outcomes() {
    assert_eq!(commit_work(None), CommitWork::Commit);
    for (fault, work) in [
        (CommitFault::OpenContinuable, CommitWork::Nothing),
        (CommitFault::AutocommitRestoredUnconfirmed, CommitWork::Rollback),
        (CommitFault::AutocommitRestored, CommitWork::Commit),
        (CommitFault::Uncertain, CommitWork::Rollback),
    ] {
        assert_eq!(commit_work(Some(fault)), work);
    }
    let run = |fault: CommitFault, autocommit: bool| {
        let commit = faulted_commit(Some(fault), Ok(()), autocommit);
        commit_outcome(Some(fault), commit, autocommit, Ok(0))
    };
    let o = run(CommitFault::OpenContinuable, false);
    assert!(o.transaction_open && o.transaction_continuable && !o.uncertain_or_invalidated);
    assert_eq!(
        o.result.unwrap_err().message(),
        "sqlite: injected open continuable commit fault"
    );
    let o = run(CommitFault::AutocommitRestoredUnconfirmed, true);
    assert!(!o.commit_confirmed && !o.transaction_open && !o.uncertain_or_invalidated);
    let o = run(CommitFault::AutocommitRestored, true);
    assert!(o.commit_confirmed && o.result.is_err() && !o.uncertain_or_invalidated);
    let o = run(CommitFault::Uncertain, true);
    assert!(o.uncertain_or_invalidated && !o.transaction_open);
    let o = run(CommitFault::Uncertain, false);
    assert!(o.uncertain_or_invalidated && o.transaction_open && !o.transaction_continuable);
    assert!(faulted_commit(None, Ok(()), false).is_ok());
}

#[test]
fn expiry_is_confirmed_by_the_rollback() {
    assert!(expire_answer(true, true, true));
    assert!(!expire_answer(false, true, true));
    assert!(!expire_answer(true, false, true));
    assert!(!expire_answer(true, true, false));
}

#[test]
fn stopping_reports_what_is_known() {
    let closed = ShutdownStatus { connection_closed: true, thread_joined: false };
    assert!(matches!(stop_status(false, true, Ok(()), true), Ok(s) if s == closed));
    assert!(matches!(stop_status(true, false, Ok(()), false), Ok(s) if s == closed));
    let benign = Err(failure(None, "no transaction is active"));
    assert!(stop_status(true, false, benign, true).is_ok());
    let e = stop_status(true, false, Err(failure(None, "busy")), true).unwrap_err();
    assert_eq!(e.message(), "rollback verification failed: busy");
    let e = stop_status(true, true, Ok(()), true).unwrap_err();
    assert_eq!(e.message(), "rollback verification failed: injected connection rollback failure");
    assert!(matches!(
        shutdown_result(StopReply::Reported(Ok(closed)), true),
        Ok(s) if s.is_success()
    ));
    for (reply, joined, text) in [
        (
            StopReply::Reported(Ok(closed)),
            false,
            "worker join unconfirmed: worker thread did not confirm a clean exit",
        ),
        (
            StopReply::ChannelClosed,
            true,
            "worker join unconfirmed: worker channel closed before shutdown completed",
        ),
        (
            StopReply::Dropped,
            true,
            "worker join unconfirmed: worker dropped the shutdown report",
        ),
        (
            StopReply::Reported(Err(WorkerShutdownError::CloseUncertain("x".into()))),
            true,
            "connection close unconfirmed: x",
        ),
    ] {
        assert_eq!(shutdown_result(reply, joined).unwrap_err().message(), text);
    }
}

#[test]
fn busy_windows_are_bounded() {
    let mut guard = BusyGuard::install(50);
    assert!(guard.retry(false, true, 100));
    assert!(guard.retry(false, false, 149));
    assert!(!guard.retry(false, false, 150));
    guard.enter_request(1000, 50);
    assert!(guard.retry(false, false, 990));
    assert!(!guard.retry(false, false, 1000));
    assert!(!guard.retry(false, true, 991));
    assert!(!guard.retry(true, false, 991));
    guard.enter_request(1000, 0);
    assert!(!guard.retry(false, true, 990));
    assert_eq!(guard.window.unwrap().first_retry, None);
    assert!(!guard.retry(false, false, 990));
    assert_eq!(guard.window.unwrap().first_retry, Some(990));
    guard.enter_cleanup(50);
    assert!(guard.retry(false, true, 2000));
    guard.clear();
    assert!(!guard.retry(false, false, 2001));
}

#[test]
fn window_events_are_labelled() {
    let key = guard_event_key(3, "run", "cleanup");
    assert_eq!(key.operation_id, 3);
    assert_eq!(key.generation, 0);
    assert_eq!(key.worker_id.as_deref(), Some("run:cleanup"));
    assert!(key.creation_id.is_none());
}
