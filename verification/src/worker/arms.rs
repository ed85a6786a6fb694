//! What a worker does for each command.
//!
//! Every command starts with a decision on what may run at all, and ends with
//! one on what is answered. A transaction that idled too long is rolled back
//! by the first command that comes after its time.
use crate::operation::{InterruptionCause, ShutdownStatus, WorkerShutdownError};
use crate::test_support::CommitFault;
use crate::text;
use crate::text::contains_text;
use crate::worker::error::{SqliteFailure, WorkerError};
use vstd::prelude::*;

verus! {

/// What a worker remembers from one command to the next.
#[derive(Debug, Clone, Copy, PartialEq, Eq, Structural)]
pub struct WorkerLoop {
    /// A transaction idled away.
    pub expired: bool,
    /// When an open transaction has idled too long, in milliseconds.
    pub idle_deadline: u64,
    pub idle_seconds: u64,
}

/// The facts that decide whether a request runs.
#[derive(Debug, Clone, Copy, PartialEq, Eq, Structural)]
pub struct RunFacts {
    /// The server is shutting down.
    pub shutdown: bool,
    pub now_ms: u64,
    /// No transaction is open.
    pub autocommit: bool,
    /// The client gave the request up.
    pub cancelled: bool,
    /// The time for the request is over.
    pub deadline_passed: bool,
}

/// What becomes of a request.
#[derive(Debug)]
pub enum RunEntry {
    /// Refuse it before its busy window opens.
    Refuse(WorkerError),
    /// Roll the idle transaction back inside the busy window, then refuse.
    ExpireIdle,
    /// Open its busy window and answer that it was interrupted.
    Interrupt(WorkerError),
    /// Run it inside its busy window.
    Execute,
}

/// What is seen once a request has run.
#[derive(Debug, Clone, Copy, PartialEq, Eq, Structural)]
pub struct RunEnd {
    pub cancelled: bool,
    pub shutdown: bool,
    pub deadline_passed: bool,
}

/// When a transaction that is active now will have idled too long.
pub open spec fn deadline_after(now: u64, idle_seconds: u64) -> u64 {
    let span = if idle_seconds * 1000 > u64::MAX {
        u64::MAX as int
    } else {
        idle_seconds * 1000
    };
    if now + span > u64::MAX {
        u64::MAX
    } else {
        (now + span) as u64
    }
}

fn deadline_from(now: u64, idle_seconds: u64) -> (r: u64)
    ensures
        r == deadline_after(now, idle_seconds),
{
    let span: u64 = if idle_seconds > u64::MAX / 1000 {
        u64::MAX
    } else {
        idle_seconds * 1000
    };
    if now > u64::MAX - span {
        u64::MAX
    } else {
        now + span
    }
}

/// An interruption that leaves the transaction as it is.
pub open spec fn interrupted(by_client: bool, open: bool) -> WorkerError {
    WorkerError::Interrupted { by_client, transaction_open: open, transaction_continuable: open }
}

/// A rollback failed because there was nothing to roll back.
pub open spec fn is_benign(rollback: Result<(), SqliteFailure>, autocommit: bool) -> bool {
    rollback matches Err(e) && autocommit && text::contains(e.text@, "no transaction is active"@)
}

/// After the rollback nobody can say what state the transaction is in.
pub open spec fn is_uncertain(rollback: Result<(), SqliteFailure>, autocommit: bool) -> bool {
    !is_benign(rollback, autocommit) && (rollback is Err || !autocommit)
}

/// What is added to a message about a failed rollback.
pub open spec fn rollback_detail(rollback: Result<(), SqliteFailure>) -> Seq<char> {
    match rollback {
        Err(e) => if e.text@.len() == 0 {
            Seq::empty()
        } else {
            ": "@ + e.text@
        },
        Ok(()) => Seq::empty(),
    }
}

fn rollback_is_uncertain(rollback: &Result<(), SqliteFailure>, autocommit: bool) -> (r: bool)
    ensures
        r == is_uncertain(*rollback, autocommit),
{
    match rollback {
        Ok(()) => !autocommit,
        Err(e) => !(autocommit && contains_text(e.text.as_str(), "no transaction is active")),
    }
}

fn lost_work(message: &str, rollback: &Result<(), SqliteFailure>) -> (r: WorkerError)
    ensures
        r.is_message(message@ + rollback_detail(*rollback)),
{
    let mut s = message.to_owned();
    if let Err(e) = rollback {
        let cs = text::chars_of(e.text.as_str());
        if cs.len() > 0 {
            s.append(": ");
            s.append(e.text.as_str());
        }
        assert(s@ =~= message@ + rollback_detail(*rollback));
    } else {
        assert(s@ =~= message@ + rollback_detail(*rollback));
    }
    WorkerError::Message(s)
}

/// What interrupted a request that has run, if its transaction has to be
/// cleaned up for it.
pub open spec fn cleanup_cause(failed_in_sqlite: bool, end: RunEnd) -> Option<InterruptionCause> {
    if end.cancelled {
        Some(InterruptionCause::Client)
    } else if end.shutdown && failed_in_sqlite {
        Some(InterruptionCause::Shutdown)
    } else if end.deadline_passed && failed_in_sqlite {
        Some(InterruptionCause::Deadline)
    } else {
        None
    }
}

/// The result is a failure that SQLite reported.
pub open spec fn failed_in_sqlite<T>(result: Result<T, WorkerError>) -> bool {
    result matches Err(e) && e is Sqlite
}

fn has_failed_in_sqlite<T>(result: &Result<T, WorkerError>) -> (r: bool)
    ensures
        r == failed_in_sqlite(*result),
{
    match result {
        Ok(_) => false,
        Err(e) => e.is_sqlite(),
    }
}

/// What an interrupted request is answered once its transaction was rolled
/// back.
pub open spec fn settles<T>(
    cause: InterruptionCause,
    result: Result<T, WorkerError>,
    rollback: Result<(), SqliteFailure>,
    autocommit: bool,
    answer: Result<T, WorkerError>,
) -> bool {
    if is_uncertain(rollback, autocommit) {
        let lost = match cause {
            InterruptionCause::Shutdown => "SERVER_SHUTDOWN; handle invalidated; lost uncommitted work"@,
            _ => "handle invalidated; lost uncommitted work"@,
        };
        answer matches Err(e) && e.is_message(lost + rollback_detail(rollback))
    } else {
        match cause {
            InterruptionCause::Client => if failed_in_sqlite(result) {
                answer == Err::<T, WorkerError>(interrupted(true, false))
            } else {
                answer == result
            },
            InterruptionCause::Shutdown => answer matches Err(e) && e.is_message("SERVER_SHUTDOWN"@),
            InterruptionCause::Deadline => answer == Err::<T, WorkerError>(
                interrupted(false, false),
            ),
        }
    }
}

/// How a control command starts.
#[derive(Debug)]
pub enum ControlEntry {
    Refuse(WorkerError),
    /// Roll the idle transaction back first.
    ExpireIdle,
    Execute,
}

/// What came of a commit.
#[derive(Debug)]
pub struct CommitOutcome {
    /// The schema version that was committed, or why it is not known.
    pub result: Result<i64, WorkerError>,
    /// The transaction is persistent.
    pub commit_confirmed: bool,
    pub transaction_open: bool,
    pub transaction_continuable: bool,
    pub expired: bool,
    /// Nobody can say what state the handle is in.
    pub uncertain_or_invalidated: bool,
}

impl CommitOutcome {
    /// What is committed or expired is no longer open, and nothing is both.
    pub open spec fn wf(self) -> bool {
        &&& self.transaction_continuable ==> self.transaction_open
        &&& self.commit_confirmed ==> !self.transaction_open && !self.expired
        &&& self.expired ==> !self.transaction_open && !self.uncertain_or_invalidated
        &&& self.result is Ok ==> self.commit_confirmed && !self.uncertain_or_invalidated
    }

    /// A commit that is persistent.
    pub open spec fn is_success(self, version: i64) -> bool {
        &&& self.result == Ok::<i64, WorkerError>(version)
        &&& self.commit_confirmed
        &&& !self.transaction_open && !self.transaction_continuable
        &&& !self.expired && !self.uncertain_or_invalidated
    }

    /// A commit that did not take place.
    pub open spec fn is_failure(self, open: bool, continuable: bool, uncertain: bool) -> bool {
        &&& self.result is Err
        &&& !self.commit_confirmed
        &&& self.transaction_open == open
        &&& self.transaction_continuable == (open && continuable)
        &&& !self.expired
        &&& self.uncertain_or_invalidated == uncertain
    }

    /// A transaction that idled away before its commit.
    pub open spec fn is_expired(self) -> bool {
        &&& self.result matches Err(e) && e.is_message("TRANSACTION_EXPIRED"@)
        &&& !self.commit_confirmed
        &&& !self.transaction_open && !self.transaction_continuable
        &&& self.expired && !self.uncertain_or_invalidated
    }

    fn success(version: i64) -> (r: Self)
        ensures
            r.is_success(version),
    {
        CommitOutcome {
            result: Ok(version),
            commit_confirmed: true,
            transaction_open: false,
            transaction_continuable: false,
            expired: false,
            uncertain_or_invalidated: false,
        }
    }

    fn failure(error: WorkerError, open: bool, continuable: bool, uncertain: bool) -> (r: Self)
        ensures
            r.is_failure(open, continuable, uncertain),
            r.result == Err::<i64, WorkerError>(error),
    {
        CommitOutcome {
            result: Err(error),
            commit_confirmed: false,
            transaction_open: open,
            transaction_continuable: open && continuable,
            expired: false,
            uncertain_or_invalidated: uncertain,
        }
    }

    fn idled_away() -> (r: Self)
        ensures
            r.is_expired(),
    {
        CommitOutcome {
            result: Err(WorkerError::because("TRANSACTION_EXPIRED")),
            commit_confirmed: false,
            transaction_open: false,
            transaction_continuable: false,
            expired: true,
            uncertain_or_invalidated: false,
        }
    }
}

/// How a commit starts.
#[derive(Debug)]
pub enum CommitEntry {
    Answer(CommitOutcome),
    /// Roll the idle transaction back first.
    ExpireIdle,
    Commit,
}

/// The engine's part of a commit.
#[derive(Debug, Clone, Copy, PartialEq, Eq, Structural)]
pub enum CommitWork {
    Commit,
    Rollback,
    Nothing,
}

/// The engine's part of a commit under an injected fault.
pub open spec fn work_of(fault: Option<CommitFault>) -> CommitWork {
    match fault {
        None => CommitWork::Commit,
        Some(CommitFault::AutocommitRestored) => CommitWork::Commit,
        Some(CommitFault::OpenContinuable) => CommitWork::Nothing,
        Some(CommitFault::AutocommitRestoredUnconfirmed) => CommitWork::Rollback,
        Some(CommitFault::Uncertain) => CommitWork::Rollback,
    }
}

pub fn commit_work(fault: Option<CommitFault>) -> (r: CommitWork)
    ensures
        r == work_of(fault),
{
    match fault {
        None => CommitWork::Commit,
        Some(CommitFault::AutocommitRestored) => CommitWork::Commit,
        Some(CommitFault::OpenContinuable) => CommitWork::Nothing,
        Some(CommitFault::AutocommitRestoredUnconfirmed) => CommitWork::Rollback,
        Some(CommitFault::Uncertain) => CommitWork::Rollback,
    }
}

/// A failure with this code and text.
pub open spec fn is_failure_of(e: SqliteFailure, code: Option<i32>, text: Seq<char>) -> bool {
    e.code == code && e.text@ == text
}

/// What the commit counts as: what the engine said, or the injected fault.
pub open spec fn faulted(
    fault: Option<CommitFault>,
    engine: Result<(), SqliteFailure>,
    autocommit: bool,
    r: Result<(), SqliteFailure>,
) -> bool {
    let done = engine is Ok && autocommit;
    match fault {
        None => r == engine,
        Some(CommitFault::OpenContinuable) => r matches Err(e) && is_failure_of(
            e,
            Some(5i32),
            "injected open continuable commit fault"@,
        ),
        Some(CommitFault::AutocommitRestored) => if done {
            r matches Err(e) && is_failure_of(e, None, "Query is not read-only"@)
        } else {
            r == engine
        },
        _ => if done {
            r matches Err(e) && is_failure_of(e, None, "Query is not read-only"@)
        } else {
            r matches Err(e) && is_failure_of(e, Some(5i32), "injected uncertain commit fault"@)
        },
    }
}

/// The commit under an injected fault. `engine` is what [`commit_work`] gave.
pub fn faulted_commit(
    fault: Option<CommitFault>,
    engine: Result<(), SqliteFailure>,
    autocommit: bool,
) -> (r: Result<(), SqliteFailure>)
    ensures
        faulted(fault, engine, autocommit, r),
{
    let done = match &engine {
        Ok(()) => autocommit,
        Err(_) => false,
    };
    match fault {
        None => engine,
        Some(CommitFault::OpenContinuable) => Err(
            SqliteFailure { code: Some(5), text: "injected open continuable commit fault".to_owned() },
        ),
        Some(CommitFault::AutocommitRestored) => if done {
            Err(SqliteFailure { code: None, text: "Query is not read-only".to_owned() })
        } else {
            engine
        },
        Some(CommitFault::AutocommitRestoredUnconfirmed) | Some(CommitFault::Uncertain) => if done {
            Err(SqliteFailure { code: None, text: "Query is not read-only".to_owned() })
        } else {
            Err(SqliteFailure { code: Some(5), text: "injected uncertain commit fault".to_owned() })
        },
    }
}

/// A commit without an injected fault succeeded, and the schema version has to
/// be read next.
pub open spec fn wants_version(
    fault: Option<CommitFault>,
    commit: Result<(), SqliteFailure>,
    autocommit: bool,
) -> bool {
    fault is None && commit is Ok && autocommit
}

pub fn version_is_wanted(
    fault: Option<CommitFault>,
    commit: &Result<(), SqliteFailure>,
    autocommit: bool,
) -> (r: bool)
    ensures
        r == wants_version(fault, *commit, autocommit),
{
    match (fault, commit) {
        (None, Ok(())) => autocommit,
        _ => false,
    }
}

/// The outcome of a commit that ran.
pub open spec fn commit_answer(
    fault: Option<CommitFault>,
    commit: Result<(), SqliteFailure>,
    autocommit: bool,
    version: Result<i64, SqliteFailure>,
    r: CommitOutcome,
) -> bool {
    match commit {
        Ok(()) => if fault is None && autocommit {
            match version {
                Ok(v) => r.is_success(v),
                Err(e) => {
                    &&& r.result == Err::<i64, WorkerError>(WorkerError::Sqlite(e))
                    &&& r.commit_confirmed && r.uncertain_or_invalidated
                    &&& !r.transaction_open && !r.transaction_continuable && !r.expired
                },
            }
        } else {
            r.is_failure(true, true, true) && (r.result matches Err(e) && e.is_message(
                "commit completed without restoring autocommit"@,
            ))
        },
        Err(e) => {
            &&& r.result == Err::<i64, WorkerError>(WorkerError::Sqlite(e))
            &&& match fault {
                Some(CommitFault::AutocommitRestored) if autocommit => {
                    &&& r.commit_confirmed && !r.uncertain_or_invalidated
                    &&& !r.transaction_open && !r.transaction_continuable && !r.expired
                },
                Some(CommitFault::AutocommitRestoredUnconfirmed) if autocommit => r.is_failure(
                    false,
                    false,
                    false,
                ),
                Some(CommitFault::Uncertain) => r.is_failure(!autocommit, false, true),
                Some(CommitFault::OpenContinuable) => r.is_failure(!autocommit, !autocommit, false),
                _ => if autocommit {
                    r.is_failure(false, false, true)
                } else {
                    r.is_failure(true, true, false)
                },
            }
        },
    }
}

/// The outcome of a commit that ran. `version` is the schema version, where it
/// was wanted.
pub fn commit_outcome(
    fault: Option<CommitFault>,
    commit: Result<(), SqliteFailure>,
    autocommit: bool,
    version: Result<i64, SqliteFailure>,
) -> (r: CommitOutcome)
    ensures
        commit_answer(fault, commit, autocommit, version, r),
        r.wf(),
{
    match commit {
        Ok(()) => {
            if fault.is_none() && autocommit {
                match version {
                    Ok(v) => CommitOutcome::success(v),
                    Err(e) => CommitOutcome {
                        result: Err(WorkerError::Sqlite(e)),
                        commit_confirmed: true,
                        transaction_open: false,
                        transaction_continuable: false,
                        expired: false,
                        uncertain_or_invalidated: true,
                    },
                }
            } else {
                CommitOutcome::failure(
                    WorkerError::because("commit completed without restoring autocommit"),
                    true,
                    true,
                    true,
                )
            }
        },
        Err(e) => {
            let error = WorkerError::Sqlite(e);
            match fault {
                Some(CommitFault::AutocommitRestored) => {
                    if autocommit {
                        return CommitOutcome {
                            result: Err(error),
                            commit_confirmed: true,
                            transaction_open: false,
                            transaction_continuable: false,
                            expired: false,
                            uncertain_or_invalidated: false,
                        };
                    }
                    CommitOutcome::failure(error, true, true, false)
                },
                Some(CommitFault::AutocommitRestoredUnconfirmed) => {
                    if autocommit {
                        return CommitOutcome::failure(error, false, false, false);
                    }
                    CommitOutcome::failure(error, true, true, false)
                },
                Some(CommitFault::Uncertain) => CommitOutcome::failure(
                    error,
                    !autocommit,
                    false,
                    true,
                ),
                Some(CommitFault::OpenContinuable) => CommitOutcome::failure(
                    error,
                    !autocommit,
                    !autocommit,
                    false,
                ),
                None => {
                    if autocommit {
                        CommitOutcome::failure(error, false, false, true)
                    } else {
                        CommitOutcome::failure(error, true, true, false)
                    }
                },
            }
        },
    }
}

impl WorkerLoop {
    /// A worker that starts now.
    pub fn start(now_ms: u64, idle_seconds: u64) -> (r: Self)
        ensures
            !r.expired,
            r.idle_seconds == idle_seconds,
            r.idle_deadline == deadline_after(now_ms, idle_seconds),
    {
        WorkerLoop {
            expired: false,
            idle_deadline: deadline_from(now_ms, idle_seconds),
            idle_seconds,
        }
    }

    /// An open transaction has idled too long.
    pub open spec fn has_idled(self, now_ms: u64, autocommit: bool) -> bool {
        now_ms >= self.idle_deadline && !autocommit
    }

    /// The worker after something was done at `now_ms`.
    pub open spec fn active_at(self, now_ms: u64) -> Self {
        WorkerLoop {
            expired: self.expired,
            idle_deadline: deadline_after(now_ms, self.idle_seconds),
            idle_seconds: self.idle_seconds,
        }
    }

    /// The worker after a transaction idled away.
    pub open spec fn idled_away(self) -> Self {
        WorkerLoop {
            expired: true,
            idle_deadline: self.idle_deadline,
            idle_seconds: self.idle_seconds,
        }
    }

    /// Decides whether a request runs. A shutdown comes before an expiry, an
    /// expiry before a cancellation, and a cancellation before a deadline.
    pub fn run_entry(&self, facts: RunFacts) -> (r: RunEntry)
        ensures
            match r {
                RunEntry::Refuse(e) => if facts.shutdown {
                    e.is_message("SERVER_SHUTDOWN"@)
                } else {
                    self.expired && e.is_message("TRANSACTION_EXPIRED"@)
                },
                RunEntry::Interrupt(e) => {
                    &&& !facts.shutdown && !self.expired
                    &&& !self.has_idled(facts.now_ms, facts.autocommit)
                    &&& facts.cancelled || facts.deadline_passed
                    &&& e == interrupted(facts.cancelled, !facts.autocommit)
                },
                RunEntry::ExpireIdle => !facts.shutdown && !self.expired && self.has_idled(
                    facts.now_ms,
                    facts.autocommit,
                ),
                RunEntry::Execute => {
                    &&& !facts.shutdown && !self.expired
                    &&& !self.has_idled(facts.now_ms, facts.autocommit)
                    &&& !facts.cancelled && !facts.deadline_passed
                },
            },
    {
        if facts.shutdown {
            return RunEntry::Refuse(WorkerError::because("SERVER_SHUTDOWN"));
        }
        if self.expired {
            return RunEntry::Refuse(WorkerError::because("TRANSACTION_EXPIRED"));
        }
        if facts.now_ms >= self.idle_deadline && !facts.autocommit {
            return RunEntry::ExpireIdle;
        }
        if facts.cancelled {
            return RunEntry::Interrupt(
                WorkerError::Interrupted {
                    by_client: true,
                    transaction_open: !facts.autocommit,
                    transaction_continuable: !facts.autocommit,
                },
            );
        }
        if facts.deadline_passed {
            return RunEntry::Interrupt(
                WorkerError::Interrupted {
                    by_client: false,
                    transaction_open: !facts.autocommit,
                    transaction_continuable: !facts.autocommit,
                },
            );
        }
        RunEntry::Execute
    }

    /// Answers a request that found its transaction idle, whatever the rollback
    /// gave.
    pub fn expire_run(&mut self) -> (r: WorkerError)
        ensures
            r.is_message("TRANSACTION_EXPIRED"@),
            *final(self) == old(self).idled_away(),
    {
        self.expired = true;
        WorkerError::because("TRANSACTION_EXPIRED")
    }

    /// Whether a request that has run leaves a transaction to roll back, and
    /// what for.
    pub fn run_cleanup<T>(result: &Result<T, WorkerError>, end: RunEnd) -> (r: Option<
        InterruptionCause,
    >)
        ensures
            r == cleanup_cause(failed_in_sqlite(*result), end),
    {
        let failed = has_failed_in_sqlite(result);
        if end.cancelled {
            Some(InterruptionCause::Client)
        } else if end.shutdown && failed {
            Some(InterruptionCause::Shutdown)
        } else if end.deadline_passed && failed {
            Some(InterruptionCause::Deadline)
        } else {
            None
        }
    }

    /// Answers a request that was interrupted, after its rollback.
    pub fn settle_run<T>(
        cause: InterruptionCause,
        result: Result<T, WorkerError>,
        rollback: Result<(), SqliteFailure>,
        autocommit: bool,
    ) -> (r: Result<T, WorkerError>)
        ensures
            settles(cause, result, rollback, autocommit, r),
    {
        if rollback_is_uncertain(&rollback, autocommit) {
            return match cause {
                InterruptionCause::Shutdown => Err(
                    lost_work("SERVER_SHUTDOWN; handle invalidated; lost uncommitted work", &rollback),
                ),
                _ => Err(lost_work("handle invalidated; lost uncommitted work", &rollback)),
            };
        }
        match cause {
            InterruptionCause::Client => {
                if has_failed_in_sqlite(&result) {
                    Err(
                        WorkerError::Interrupted {
                            by_client: true,
                            transaction_open: !autocommit,
                            transaction_continuable: !autocommit,
                        },
                    )
                } else {
                    result
                }
            },
            InterruptionCause::Shutdown => Err(WorkerError::because("SERVER_SHUTDOWN")),
            InterruptionCause::Deadline => Err(
                WorkerError::Interrupted {
                    by_client: false,
                    transaction_open: !autocommit,
                    transaction_continuable: !autocommit,
                },
            ),
        }
    }

    /// Counts what was done at `now_ms` as activity.
    pub fn note_activity(&mut self, now_ms: u64)
        ensures
            *final(self) == old(self).active_at(now_ms),
    {
        self.idle_deadline = deadline_from(now_ms, self.idle_seconds);
    }

    /// Decides whether a control command runs. It is neither cancelled nor
    /// timed.
    pub fn control_entry(&self, now_ms: u64, autocommit: bool) -> (r: ControlEntry)
        ensures
            match r {
                ControlEntry::Refuse(e) => self.expired && e.is_message("TRANSACTION_EXPIRED"@),
                ControlEntry::ExpireIdle => !self.expired && self.has_idled(now_ms, autocommit),
                ControlEntry::Execute => !self.expired && !self.has_idled(now_ms, autocommit),
            },
    {
        if self.expired {
            return ControlEntry::Refuse(WorkerError::because("TRANSACTION_EXPIRED"));
        }
        if !autocommit && now_ms >= self.idle_deadline {
            return ControlEntry::ExpireIdle;
        }
        ControlEntry::Execute
    }

    /// Answers a control command that found its transaction idle, after the
    /// rollback.
    pub fn expire_control(&mut self, rolled_back: bool, autocommit: bool) -> (r: WorkerError)
        ensures
            if rolled_back && autocommit {
                r.is_message("TRANSACTION_EXPIRED"@) && *final(self) == old(self).idled_away()
            } else {
                r.is_message("handle invalidated; expiry rollback uncertain"@) && *final(self)
                    == *old(self)
            },
    {
        if rolled_back && autocommit {
            self.expired = true;
            WorkerError::because("TRANSACTION_EXPIRED")
        } else {
            WorkerError::because("handle invalidated; expiry rollback uncertain")
        }
    }

    /// Decides how a commit starts.
    pub fn commit_entry(&self, now_ms: u64, autocommit: bool) -> (r: CommitEntry)
        ensures
            match r {
                CommitEntry::ExpireIdle => !self.expired && self.has_idled(now_ms, autocommit),
                CommitEntry::Answer(outcome) => {
                    &&& outcome.wf()
                    &&& if self.expired {
                        outcome.is_expired()
                    } else {
                        autocommit && outcome.is_failure(false, false, false) && (
                        outcome.result matches Err(e) && e.is_message("no transaction open"@))
                    }
                },
                CommitEntry::Commit => !self.expired && !autocommit && !self.has_idled(
                    now_ms,
                    autocommit,
                ),
            },
    {
        if !self.expired && !autocommit && now_ms >= self.idle_deadline {
            return CommitEntry::ExpireIdle;
        }
        if self.expired {
            return CommitEntry::Answer(CommitOutcome::idled_away());
        }
        if autocommit {
            return CommitEntry::Answer(
                CommitOutcome::failure(
                    WorkerError::because("no transaction open"),
                    false,
                    false,
                    false,
                ),
            );
        }
        CommitEntry::Commit
    }

    /// Answers a commit that found its transaction idle, after the rollback.
    pub fn expire_commit(&mut self, rolled_back: bool, autocommit: bool) -> (r: CommitOutcome)
        ensures
            r.wf(),
            if rolled_back && autocommit {
                r.is_expired() && *final(self) == old(self).idled_away()
            } else {
                &&& r.is_failure(!autocommit, false, true)
                &&& r.result matches Err(e) && e.is_message(
                    "handle invalidated; expiry rollback uncertain"@,
                )
                &&& *final(self) == *old(self)
            },
    {
        if rolled_back && autocommit {
            self.expired = true;
            CommitOutcome::idled_away()
        } else {
            CommitOutcome::failure(
                WorkerError::because("handle invalidated; expiry rollback uncertain"),
                !autocommit,
                false,
                true,
            )
        }
    }
}

/// Whether an expiry took place. `was_open` tells whether a transaction was
/// open, `rolled_back` and `autocommit` what the rollback of it gave.
pub fn expire_answer(was_open: bool, rolled_back: bool, autocommit: bool) -> (r: bool)
    ensures
        r == (was_open && rolled_back && autocommit),
{
    was_open && rolled_back && autocommit
}

/// What the worker reports when it stops. `rollback` is what rolling back gave,
/// where a transaction was open.
pub fn stop_status(
    was_open: bool,
    injected: bool,
    rollback: Result<(), SqliteFailure>,
    autocommit: bool,
) -> (r: Result<ShutdownStatus, WorkerShutdownError>)
    ensures
        if was_open && injected {
            r matches Err(WorkerShutdownError::RollbackUncertain(m)) && m@
                == "injected connection rollback failure"@
        } else {
            match rollback {
                Err(e) if was_open && !is_benign(rollback, autocommit) => r matches Err(
                    WorkerShutdownError::RollbackUncertain(m),
                ) && m@ == e.text@,
                _ => r == Ok::<ShutdownStatus, WorkerShutdownError>(
                    (ShutdownStatus { connection_closed: true, thread_joined: false }),
                ),
            }
        },
{
    if was_open {
        if injected {
            return Err(
                WorkerShutdownError::RollbackUncertain(
                    "injected connection rollback failure".to_owned(),
                ),
            );
        }
        if let Err(e) = &rollback {
            let benign = autocommit && contains_text(e.text.as_str(), "no transaction is active");
            if !benign {
                return Err(WorkerShutdownError::RollbackUncertain(e.text.as_str().to_owned()));
            }
        }
    }
    Ok(ShutdownStatus { connection_closed: true, thread_joined: false })
}

/// What became of a request to stop.
#[derive(Debug)]
pub enum StopReply {
    /// The worker took no more commands.
    ChannelClosed,
    /// The worker ended without a report.
    Dropped,
    Reported(Result<ShutdownStatus, WorkerShutdownError>),
}

/// How a worker was shut down. `joined` tells whether its thread ended
/// cleanly.
pub fn shutdown_result(reply: StopReply, joined: bool) -> (r: Result<
    ShutdownStatus,
    WorkerShutdownError,
>)
    ensures
        match reply {
            StopReply::ChannelClosed => r matches Err(WorkerShutdownError::JoinUncertain(m)) && m@
                == "worker channel closed before shutdown completed"@,
            StopReply::Dropped => r matches Err(WorkerShutdownError::JoinUncertain(m)) && m@
                == "worker dropped the shutdown report"@,
            StopReply::Reported(Err(e)) => r == Err::<ShutdownStatus, WorkerShutdownError>(e),
            StopReply::Reported(Ok(status)) => if status.connection_closed && joined {
                r == Ok::<ShutdownStatus, WorkerShutdownError>(
                    (ShutdownStatus { connection_closed: true, thread_joined: true }),
                )
            } else {
                r matches Err(WorkerShutdownError::JoinUncertain(m)) && m@
                    == "worker thread did not confirm a clean exit"@
            },
        },
{
    match reply {
        StopReply::ChannelClosed => Err(
            WorkerShutdownError::JoinUncertain(
                "worker channel closed before shutdown completed".to_owned(),
            ),
        ),
        StopReply::Dropped => Err(
            WorkerShutdownError::JoinUncertain("worker dropped the shutdown report".to_owned()),
        ),
        StopReply::Reported(Err(e)) => Err(e),
        StopReply::Reported(Ok(status)) => {
            let confirmed = ShutdownStatus {
                connection_closed: status.connection_closed,
                thread_joined: joined,
            };
            if confirmed.is_success() {
                Ok(confirmed)
            } else {
                Err(
                    WorkerShutdownError::JoinUncertain(
                        "worker thread did not confirm a clean exit".to_owned(),
                    ),
                )
            }
        },
    }
}

/// An interrupted request never claims that its transaction is still open: the
/// cleanup closed it, or the handle is lost.
pub proof fn settled_interruptions_are_closed<T>(
    cause: InterruptionCause,
    result: Result<T, WorkerError>,
    rollback: Result<(), SqliteFailure>,
    autocommit: bool,
    answer: Result<T, WorkerError>,
)
    requires
        settles(cause, result, rollback, autocommit, answer),
        failed_in_sqlite(result),
    ensures
        answer is Err,
        answer matches Err(WorkerError::Interrupted {
            transaction_open,
            transaction_continuable,
            ..
        }) ==> autocommit && !transaction_open && !transaction_continuable,
{
}

/// What was done later never makes a transaction expire earlier.
pub proof fn activity_never_shortens_the_idle_time(a: u64, b: u64, idle_seconds: u64)
    requires
        a <= b,
    ensures
        deadline_after(a, idle_seconds) <= deadline_after(b, idle_seconds),
        a <= deadline_after(a, idle_seconds),
{
}

} // verus!
