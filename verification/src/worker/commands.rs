//! What the commands of a worker come to.
use crate::operation::{InterruptionCause, ShutdownStatus, WorkerShutdownError};
use crate::test_support::CommitFault;
use crate::text;
use crate::worker::arms;
use crate::worker::arms::{
    commit_outcome, commit_work, expire_answer, faulted_commit, shutdown_result, stop_status,
    version_is_wanted, CommitEntry, CommitOutcome, CommitWork, ControlEntry, RunEnd, RunEntry,
    RunFacts, StopReply, WorkerLoop,
};
use crate::worker::busy::{BusyGuard, BusyWindow};
use crate::worker::error::{SqliteFailure, WorkerError};
use vstd::prelude::*;

verus! {

/// A request runs exactly where nothing stands against it: no shutdown, no transaction
/// that idled away, no open transaction that has idled too long, no cancellation and no
/// deadline. What stands against it decides the answer, in this order.
pub proof fn requests_run_unless_something_stands_against_them(
    worker: &WorkerLoop,
    facts: RunFacts,
    entry: RunEntry,
)
    requires
        call_ensures(WorkerLoop::run_entry, (worker, facts), entry),
    ensures
        ({
            let idled = !facts.autocommit && facts.now_ms >= worker.idle_deadline;
            let free = !facts.shutdown && !worker.expired;
            &&& entry is Execute <==> free && !idled && !facts.cancelled && !facts.deadline_passed
            &&& entry is ExpireIdle <==> free && idled
            &&& facts.shutdown ==> (entry matches RunEntry::Refuse(e) && e.is_message(
                "SERVER_SHUTDOWN"@,
            ))
            &&& !facts.shutdown && worker.expired ==> (entry matches RunEntry::Refuse(e)
                && e.is_message("TRANSACTION_EXPIRED"@))
            &&& free && !idled && (facts.cancelled || facts.deadline_passed) ==> (
            entry matches RunEntry::Interrupt(WorkerError::Interrupted {
                by_client,
                transaction_open,
                transaction_continuable,
            }) && by_client == facts.cancelled && transaction_open == !facts.autocommit
                && transaction_continuable == !facts.autocommit)
        }),
{
}

/// A control command runs unless a transaction idled away or has idled too long; nothing
/// else stops it.
pub proof fn control_commands_are_not_interrupted(
    worker: &WorkerLoop,
    now_ms: u64,
    autocommit: bool,
    entry: ControlEntry,
)
    requires
        call_ensures(WorkerLoop::control_entry, (worker, now_ms, autocommit), entry),
    ensures
        ({
            let idled = !autocommit && now_ms >= worker.idle_deadline;
            &&& entry is Execute <==> !worker.expired && !idled
            &&& entry is ExpireIdle <==> !worker.expired && idled
            &&& worker.expired ==> (entry matches ControlEntry::Refuse(e) && e.is_message(
                "TRANSACTION_EXPIRED"@,
            ))
        }),
{
}

/// A transaction has idled too long exactly when as many milliseconds as a thousand times
/// the configured seconds have passed since the last activity. Without a transaction
/// nothing expires.
pub proof fn transactions_idle_for_the_configured_time(
    worker: &mut WorkerLoop,
    active_ms: u64,
    noted: (),
    now_ms: u64,
    autocommit: bool,
    start: WorkerLoop,
    idle_seconds: u64,
)
    requires
        call_ensures(WorkerLoop::note_activity, (worker, active_ms), noted),
        call_ensures(WorkerLoop::start, (active_ms, idle_seconds), start),
        active_ms + 1000 * old(worker).idle_seconds <= u64::MAX,
        active_ms + 1000 * idle_seconds <= u64::MAX,
    ensures
        final(worker).idle_deadline == active_ms + 1000 * old(worker).idle_seconds,
        final(worker).idle_seconds == old(worker).idle_seconds,
        final(worker).expired == old(worker).expired,
        final(worker).has_idled(now_ms, autocommit) <==> !autocommit && now_ms - active_ms >= 1000
            * old(worker).idle_seconds,
        start.idle_deadline == active_ms + 1000 * idle_seconds,
        start.idle_seconds == idle_seconds && !start.expired,
{
}

/// A transaction that idled away stays so for the worker, and its deadline does not move.
pub proof fn idled_transactions_are_remembered(
    worker: &mut WorkerLoop,
    answer: WorkerError,
    other: &mut WorkerLoop,
    rolled_back: bool,
    autocommit: bool,
    told: WorkerError,
)
    requires
        call_ensures(WorkerLoop::expire_run, (worker,), answer),
        call_ensures(WorkerLoop::expire_control, (other, rolled_back, autocommit), told),
    ensures
        answer.is_message("TRANSACTION_EXPIRED"@),
        final(worker).expired,
        final(worker).idle_deadline == old(worker).idle_deadline,
        final(worker).idle_seconds == old(worker).idle_seconds,
        rolled_back && autocommit ==> told.is_message("TRANSACTION_EXPIRED"@)
            && final(other).expired,
        !(rolled_back && autocommit) ==> told.is_message(
            "handle invalidated; expiry rollback uncertain"@,
        ) && *final(other) == *old(other),
{
}

/// A commit is tried exactly on a transaction that is open and has not idled too long.
pub proof fn open_transactions_are_committed(
    worker: &WorkerLoop,
    now_ms: u64,
    autocommit: bool,
    entry: CommitEntry,
)
    requires
        call_ensures(WorkerLoop::commit_entry, (worker, now_ms, autocommit), entry),
    ensures
        ({
            let idled = !autocommit && now_ms >= worker.idle_deadline;
            &&& entry is Commit <==> !worker.expired && !autocommit && !idled
            &&& entry is ExpireIdle <==> !worker.expired && idled
            &&& worker.expired ==> (entry matches CommitEntry::Answer(o) && o.expired
                && !o.commit_confirmed && !o.transaction_open && (o.result matches Err(e)
                && e.is_message("TRANSACTION_EXPIRED"@)))
            &&& !worker.expired && autocommit ==> (entry matches CommitEntry::Answer(o)
                && !o.expired && !o.commit_confirmed && !o.transaction_open
                && !o.uncertain_or_invalidated && (o.result matches Err(e) && e.is_message(
                "no transaction open"@,
            )))
        }),
{
}

/// A commit is confirmed exactly where the engine committed and no transaction is open
/// behind it. One that the engine refused leaves the transaction open and usable, unless
/// the transaction is gone, which leaves nothing certain.
pub proof fn commits_are_told_as_they_went(
    commit: Result<(), SqliteFailure>,
    autocommit: bool,
    version: Result<i64, SqliteFailure>,
    o: CommitOutcome,
)
    requires
        call_ensures(commit_outcome, (None::<CommitFault>, commit, autocommit, version), o),
    ensures
        o.commit_confirmed <==> commit is Ok && autocommit,
        commit is Ok && autocommit ==> {
            &&& !o.transaction_open && !o.transaction_continuable && !o.expired
            &&& version matches Ok(v) ==> o.result == Ok::<i64, WorkerError>(v)
                && !o.uncertain_or_invalidated
            &&& version matches Err(e) ==> o.result == Err::<i64, WorkerError>(
                WorkerError::Sqlite(e),
            ) && o.uncertain_or_invalidated
        },
        commit is Err ==> {
            &&& o.result == Err::<i64, WorkerError>(WorkerError::Sqlite(commit->Err_0))
            &&& o.transaction_open == !autocommit && o.transaction_continuable == !autocommit
            &&& o.uncertain_or_invalidated == autocommit && !o.expired
        },
        commit is Ok && !autocommit ==> o.transaction_open && o.transaction_continuable
            && o.uncertain_or_invalidated && !o.expired && (o.result matches Err(e) && e.is_message(
            "commit completed without restoring autocommit"@,
        )),
{
}

/// Without an injected fault the engine commits, what it says counts, and the version is
/// read where it committed.
pub proof fn commits_are_the_engines_own(
    engine: Result<(), SqliteFailure>,
    autocommit: bool,
    work: CommitWork,
    counted: Result<(), SqliteFailure>,
    wanted: bool,
)
    requires
        call_ensures(commit_work, (None::<CommitFault>,), work),
        call_ensures(faulted_commit, (None::<CommitFault>, engine, autocommit), counted),
        call_ensures(version_is_wanted, (None::<CommitFault>, &counted, autocommit), wanted),
    ensures
        work is Commit,
        counted == engine,
        wanted <==> engine is Ok && autocommit,
{
}

/// A commit that found its transaction idle did not take place: where the rollback is
/// certain it is told as expired, and otherwise the handle is lost.
pub proof fn idle_transactions_are_not_committed(
    worker: &mut WorkerLoop,
    rolled_back: bool,
    autocommit: bool,
    o: CommitOutcome,
)
    requires
        call_ensures(WorkerLoop::expire_commit, (worker, rolled_back, autocommit), o),
    ensures
        !o.commit_confirmed && o.result is Err,
        o.expired <==> rolled_back && autocommit,
        o.uncertain_or_invalidated <==> !(rolled_back && autocommit),
        final(worker).expired <==> old(worker).expired || rolled_back && autocommit,
{
}

/// A request that was cancelled is cleaned up after in any case; one that ran into a
/// shutdown or its deadline, where SQLite stopped it for that. What ran to its end
/// otherwise stands.
pub proof fn finished_requests_stand(
    result: &Result<i64, WorkerError>,
    end: RunEnd,
    cause: Option<InterruptionCause>,
)
    requires
        call_ensures(WorkerLoop::run_cleanup::<i64>, (result, end), cause),
    ensures
        end.cancelled <==> cause == Some(InterruptionCause::Client),
        result is Ok && !end.cancelled ==> cause is None,
        !end.cancelled && !end.shutdown && !end.deadline_passed ==> cause is None,
        (result matches Err(e) && e is Sqlite) && !end.cancelled && end.shutdown ==> cause == Some(
            InterruptionCause::Shutdown,
        ),
        (result matches Err(e) && e is Sqlite) && !end.cancelled && !end.shutdown
            && end.deadline_passed ==> cause == Some(InterruptionCause::Deadline),
{
}

/// An interrupted request is told by whom it was, once its transaction is gone; where
/// that is not certain, the handle is lost. A cancelled request that SQLite finished keeps
/// its answer.
pub proof fn interruptions_are_told(
    cause: InterruptionCause,
    result: Result<i64, WorkerError>,
    rollback: Result<(), SqliteFailure>,
    autocommit: bool,
    answer: Result<i64, WorkerError>,
)
    requires
        call_ensures(
            WorkerLoop::settle_run::<i64>,
            (cause, result, rollback, autocommit),
            answer,
        ),
    ensures
        rollback is Ok && autocommit && cause is Deadline ==> answer == Err::<i64, WorkerError>(
            WorkerError::Interrupted {
                by_client: false,
                transaction_open: false,
                transaction_continuable: false,
            },
        ),
        rollback is Ok && autocommit && cause is Client ==> answer == if result matches Err(e)
            && e is Sqlite {
            Err::<i64, WorkerError>(
                WorkerError::Interrupted {
                    by_client: true,
                    transaction_open: false,
                    transaction_continuable: false,
                },
            )
        } else {
            result
        },
        rollback is Ok && autocommit && cause is Shutdown ==> (answer matches Err(e)
            && e.is_message("SERVER_SHUTDOWN"@)),
        rollback is Ok && !autocommit && !(cause is Shutdown) ==> (answer matches Err(e)
            && e.is_message("handle invalidated; lost uncommitted work"@)),
        rollback is Ok && !autocommit && cause is Shutdown ==> (answer matches Err(e)
            && e.is_message("SERVER_SHUTDOWN; handle invalidated; lost uncommitted work"@)),
        rollback is Err && !autocommit ==> (answer matches Err(e) && e is Message),
{
    let lost = "handle invalidated; lost uncommitted work"@;
    let stopped = "SERVER_SHUTDOWN; handle invalidated; lost uncommitted work"@;
    assert(lost + Seq::<char>::empty() =~= lost);
    assert(stopped + Seq::<char>::empty() =~= stopped);
}

/// A busy database is tried again exactly while a window is open, the server runs, the
/// request is still wanted and the budget is not spent since the first retry.
pub proof fn busy_databases_are_tried_within_the_budget(
    guard: &mut BusyGuard,
    shutdown: bool,
    cancelled: bool,
    now: u64,
    again: bool,
)
    requires
        call_ensures(BusyGuard::retry, (guard, shutdown, cancelled, now), again),
    ensures
        match old(guard).window {
            None => !again,
            Some(w) => again <==> {
                &&& !shutdown
                &&& !(w.cancellable && cancelled)
                &&& w.deadline is Some ==> now < w.deadline->0
                &&& w.first_retry is Some ==> now - w.first_retry->0 < w.budget
                &&& w.first_retry is None ==> w.budget > 0
            },
        },
        again ==> final(guard).window == Some(
            BusyWindow {
                first_retry: Some(
                    if old(guard).window->0.first_retry is Some {
                        old(guard).window->0.first_retry->0
                    } else {
                        now
                    },
                ),
                ..old(guard).window->0
            },
        ),
{
}

/// The window of a request ends with the request or its deadline; the one for cleaning up
/// ends with its budget alone. Each starts afresh.
pub proof fn windows_start_afresh(
    installed: BusyGuard,
    request: &mut BusyGuard,
    entered: (),
    cleanup: &mut BusyGuard,
    cleaned: (),
    cleared: &mut BusyGuard,
    closed: (),
    deadline: u64,
    budget: u64,
)
    requires
        call_ensures(BusyGuard::install, (budget,), installed),
        call_ensures(BusyGuard::enter_request, (request, deadline, budget), entered),
        call_ensures(BusyGuard::enter_cleanup, (cleanup, budget), cleaned),
        call_ensures(BusyGuard::clear, (cleared,), closed),
    ensures
        installed.window matches Some(w) && !w.cancellable && w.deadline is None && w.budget
            == budget && w.first_retry is None,
        final(request).window matches Some(w) && w.cancellable && w.deadline == Some(deadline)
            && w.budget == budget && w.first_retry is None,
        final(cleanup).window matches Some(w) && !w.cancellable && w.deadline is None && w.budget
            == budget && w.first_retry is None,
        final(cleared).window is None,
{
}

/// A worker stops cleanly exactly where its connection was closed and its thread ended;
/// what it said otherwise is passed on.
pub proof fn clean_stops_are_confirmed(
    reply: StopReply,
    joined: bool,
    r: Result<ShutdownStatus, WorkerShutdownError>,
)
    requires
        call_ensures(shutdown_result, (reply, joined), r),
    ensures
        r is Ok <==> joined && (reply matches StopReply::Reported(Ok(status))
            && status.connection_closed),
        r matches Ok(status) ==> status.connection_closed && status.thread_joined,
        reply matches StopReply::Reported(Err(e)) ==> r == Err::<
            ShutdownStatus,
            WorkerShutdownError,
        >(e),
{
}

/// A worker that stops rolls an open transaction back; a rollback that failed is told,
/// unless there was nothing left to roll back.
pub proof fn stops_tell_of_failed_rollbacks(
    was_open: bool,
    rollback: Result<(), SqliteFailure>,
    autocommit: bool,
    r: Result<ShutdownStatus, WorkerShutdownError>,
)
    requires
        call_ensures(stop_status, (was_open, false, rollback, autocommit), r),
    ensures
        rollback is Ok || !was_open ==> (r matches Ok(status) && status.connection_closed),
        was_open && rollback is Err && !autocommit ==> (r matches Err(
            WorkerShutdownError::RollbackUncertain(m),
        ) && m@ == rollback->Err_0.text@),
        was_open && rollback is Err && !text::contains(
            rollback->Err_0.text@,
            "no transaction is active"@,
        ) ==> r is Err,
{
}

/// An expiry took place exactly where a transaction was open and its rollback is certain.
pub proof fn expiries_are_certain(was_open: bool, rolled_back: bool, autocommit: bool, r: bool)
    requires
        call_ensures(expire_answer, (was_open, rolled_back, autocommit), r),
    ensures
        r <==> was_open && rolled_back && autocommit,
{
}

} // verus!
