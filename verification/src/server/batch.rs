//! The run of one or more statements inside a transaction.
//!
//! Every statement runs in a savepoint of its own, under the schema version that
//! the statement before it left. A statement that fails, or returns too much, is
//! undone, and the run ends there; what the statements before it did stays. The
//! steps themselves need the connection; whoever runs them hands each outcome
//! back.
use crate::policy::decision::MutationSignal;
use crate::policy::getter;
use crate::policy::getter::is_approved_getter;
use crate::policy::guard;
use crate::policy::guard::{check_maintenance, check_stored_body, PolicyError};
use crate::server::error;
use crate::server::query::QueryResult;
use crate::text;
use crate::text::decimal_text;
use crate::worker::error::{SqliteFailure, WorkerError};
use vstd::prelude::*;

verus! {

/// Where a run stands.
#[derive(Debug, Clone, Copy, PartialEq, Eq, Structural)]
pub enum BatchStage {
    /// Asks whether a transaction is open.
    Entering,
    /// Reads the schema version before the first statement.
    ReadingEntry,
    /// Looks for the only statement.
    ValidatingFirst,
    /// Looks for a second statement.
    ValidatingSecond,
    /// Looks for the next statement.
    Seeking,
    /// Reads the schema version before a statement.
    Checking,
    /// Opens the savepoint of a statement.
    Saving,
    /// Runs a statement.
    Executing,
    /// Undoes a statement that returned this many bytes.
    Overflowing(usize),
    /// Undoes a statement that failed.
    Recovering,
    /// Closes the savepoint of a statement.
    Releasing,
    /// Reads the schema version after a statement.
    Settling,
    Ended,
}

/// What came of a step.
#[derive(Debug)]
pub enum BatchReply {
    /// Whether no transaction is open.
    Autocommit(bool),
    Version(Result<i64, SqliteFailure>),
    /// The next statement of the text, or none, or what SQLite says of a text
    /// that it refuses.
    Found(Result<Option<String>, SqliteFailure>),
    /// A savepoint was opened, closed or gone back to.
    Done(Result<(), SqliteFailure>),
    /// A statement returned a result of this size.
    Returned { result: QueryResult, bytes: usize },
    /// A statement failed; no transaction is open after it or one is.
    Failed { failure: SqliteFailure, autocommit: bool },
}

/// What to do next.
#[derive(Debug)]
pub enum BatchAction {
    ReadVersion,
    /// Look for the next statement without running it.
    Validate,
    /// Look for the next statement.
    Seek,
    Savepoint,
    Execute { sql: String, approved_getter: bool },
    /// Go back to the savepoint and close it.
    Restore,
    /// Close the savepoint.
    Release,
    Fail(WorkerError),
    /// All statements ran. The schema versions before and after them are given.
    Finish { results: Vec<QueryResult>, schema_before: i64, schema_after: i64 },
}

/// A run of statements.
#[derive(Debug)]
pub struct BatchRun {
    /// Exactly one statement is allowed.
    pub single: bool,
    pub statement_limit: usize,
    pub byte_limit: usize,
    /// The schema version at the start.
    pub schema_before: i64,
    /// The schema version that the next statement has to find.
    pub expected: i64,
    /// The number of statements that were found.
    pub count: usize,
    pub results: Vec<QueryResult>,
    /// The statement that is about to run.
    pub current: Option<String>,
    /// What a statement returned whose savepoint is still open.
    pub returned: Option<QueryResult>,
    /// Why a statement failed whose savepoint is still open.
    pub failed: Option<SqliteFailure>,
    pub stage: BatchStage,
}

/// Why a statement is refused before it runs.
pub open spec fn guard_fault(sql: Seq<char>) -> Option<PolicyError> {
    if guard::stored_body(sql) matches Some(body) && guard::calls_pragma(body) {
        Some(PolicyError::Denied)
    } else if guard::is_maintenance(sql) {
        Some(PolicyError::Maintenance)
    } else {
        None
    }
}

/// The message for a statement that is refused before it runs.
pub open spec fn denial(e: PolicyError) -> Seq<char> {
    "statement is denied by SQL policy: "@ + e.message()
}

fn check_guards(sql: &str, signal: &mut MutationSignal) -> (r: Option<PolicyError>)
    ensures
        r == guard_fault(sql@),
        *final(signal) == guarded_signal(*old(signal), sql@),
{
    if let Err(e) = check_stored_body(sql, signal) {
        return Some(e);
    }
    if let Err(e) = check_maintenance(sql) {
        return Some(e);
    }
    None
}

/// The marks that the guards leave.
pub open spec fn guarded_signal(signal: MutationSignal, sql: Seq<char>) -> MutationSignal {
    if guard::stored_body(sql) is Some {
        signal.with_ddl_attempt()
    } else {
        signal
    }
}

/// The run ends with this message.
pub open spec fn ends_saying(post: BatchRun, action: BatchAction, message: Seq<char>) -> bool {
    post.stage is Ended && (action matches BatchAction::Fail(e) && e.is_message(message))
}

/// The run ends with this error.
pub open spec fn ends_with(post: BatchRun, action: BatchAction, error: WorkerError) -> bool {
    post.stage is Ended && action == BatchAction::Fail(error)
}

/// The message for too many statements.
pub open spec fn limit_message(limit: nat) -> Seq<char> {
    "batch statement limit exceeded (limit "@ + text::decimal(limit) + ")"@
}

/// One more statement was found.
pub open spec fn counted(count: usize) -> usize {
    if count < usize::MAX {
        (count + 1) as usize
    } else {
        count
    }
}

impl BatchRun {
    /// A statement is kept exactly while it is needed, and what is about to run
    /// passed the guards.
    pub open spec fn wf(self) -> bool {
        &&& self.current is Some == (self.stage is Checking || self.stage is Saving)
        &&& self.stage is Saving ==> guard_fault(self.current->0@) is None
        &&& self.returned is Some == (self.stage is Releasing || self.stage is Settling)
        &&& self.failed is Some == (self.stage is Recovering)
        &&& !(self.stage is Ended) ==> self.results@.len() <= self.count && self.within_limits()
        &&& !(self.stage is Ended) && self.count < usize::MAX ==> self.is_counted()
        &&& self.is_idle() ==> self.count == 0
    }

    /// There is one result for each statement, but for the one that has not
    /// settled yet.
    pub open spec fn is_counted(self) -> bool {
        self.count == self.results@.len() + if self.is_running() {
            1int
        } else {
            0int
        }
    }

    /// No statement was looked for to be run.
    pub open spec fn is_idle(self) -> bool {
        match self.stage {
            BatchStage::Entering | BatchStage::ReadingEntry | BatchStage::ValidatingFirst
            | BatchStage::ValidatingSecond => true,
            _ => false,
        }
    }

    /// A statement was released: its savepoint is closed and its changes are part
    /// of the transaction.
    pub open spec fn has_released(self) -> bool {
        self.stage is Settling || self.results@.len() > 0
    }

    /// A statement was found and has not settled yet.
    pub open spec fn is_running(self) -> bool {
        match self.stage {
            BatchStage::Checking | BatchStage::Saving | BatchStage::Executing
            | BatchStage::Overflowing(_) | BatchStage::Recovering | BatchStage::Releasing
            | BatchStage::Settling => true,
            _ => false,
        }
    }

    /// No more statements were found than are allowed.
    pub open spec fn within_limits(self) -> bool {
        if self.single {
            self.count <= 1
        } else {
            self.count <= self.statement_limit
        }
    }

    /// A reply is one to what was asked for.
    pub open spec fn fits(self, reply: BatchReply) -> bool {
        match self.stage {
            BatchStage::Entering => reply is Autocommit,
            BatchStage::ReadingEntry | BatchStage::Checking | BatchStage::Settling => {
                reply is Version
            },
            BatchStage::ValidatingFirst | BatchStage::ValidatingSecond | BatchStage::Seeking => {
                reply is Found
            },
            BatchStage::Saving | BatchStage::Overflowing(_) | BatchStage::Recovering
            | BatchStage::Releasing => reply is Done,
            BatchStage::Executing => reply is Returned || reply is Failed,
            BatchStage::Ended => false,
        }
    }

    /// Nothing changed but where the run stands.
    pub open spec fn moves_to(self, post: BatchRun, stage: BatchStage) -> bool {
        post == (BatchRun { stage, ..self })
    }

    /// What a reply leads to.
    pub open spec fn leads_to(self, reply: BatchReply, post: BatchRun, action: BatchAction) -> bool {
        match (self.stage, reply) {
            (BatchStage::Entering, BatchReply::Autocommit(autocommit)) => if autocommit {
                ends_saying(post, action, "transaction required"@)
            } else {
                action is ReadVersion && self.moves_to(post, BatchStage::ReadingEntry)
            },
            (BatchStage::ReadingEntry, BatchReply::Version(version)) => match version {
                Err(e) => ends_with(post, action, WorkerError::Sqlite(e)),
                Ok(v) => if v != self.expected {
                    ends_saying(post, action, "SCHEMA_STALE"@)
                } else if self.single {
                    action is Validate && self.moves_to(post, BatchStage::ValidatingFirst)
                } else {
                    action is Seek && self.moves_to(post, BatchStage::Seeking)
                },
            },
            (BatchStage::ValidatingFirst, BatchReply::Found(found)) => match found {
                Err(e) => ends_with(post, action, WorkerError::Sqlite(e)),
                Ok(None) => ends_saying(post, action, "SQL is empty"@),
                Ok(Some(_)) => action is Validate && self.moves_to(
                    post,
                    BatchStage::ValidatingSecond,
                ),
            },
            (BatchStage::ValidatingSecond, BatchReply::Found(found)) => match found {
                Ok(None) => action is Seek && self.moves_to(post, BatchStage::Seeking),
                _ => ends_saying(post, action, "multiple SQL statements are not allowed"@),
            },
            (BatchStage::Seeking, BatchReply::Found(found)) => match found {
                Err(e) => ends_with(post, action, WorkerError::Sqlite(e)),
                Ok(None) => if self.results@.len() == 0 {
                    ends_saying(post, action, "SQL is empty"@)
                } else {
                    post.stage is Ended && action == (BatchAction::Finish {
                        results: self.results,
                        schema_before: self.schema_before,
                        schema_after: self.expected,
                    })
                },
                Ok(Some(sql)) => {
                    let count = counted(self.count);
                    if self.single && count > 1 {
                        ends_saying(post, action, "multiple SQL statements are not allowed"@)
                    } else if !self.single && count > self.statement_limit {
                        ends_saying(post, action, limit_message(self.statement_limit as nat))
                    } else {
                        action is ReadVersion && post == (BatchRun {
                            count,
                            current: Some(sql),
                            stage: BatchStage::Checking,
                            ..self
                        })
                    }
                },
            },
            (BatchStage::Checking, BatchReply::Version(version)) => match version {
                Err(e) => ends_with(post, action, WorkerError::Sqlite(e)),
                Ok(v) => if v != self.expected {
                    ends_saying(post, action, "SCHEMA_STALE"@)
                } else {
                    match guard_fault(self.current->0@) {
                        Some(e) => ends_saying(post, action, denial(e)),
                        None => action is Savepoint && self.moves_to(post, BatchStage::Saving),
                    }
                },
            },
            (BatchStage::Saving, BatchReply::Done(done)) => match done {
                Err(e) => ends_with(post, action, WorkerError::Sqlite(e)),
                Ok(()) => {
                    &&& action == (BatchAction::Execute {
                        sql: self.current->0,
                        approved_getter: getter::is_getter(self.current->0@),
                    })
                    &&& post == (BatchRun { current: None, stage: BatchStage::Executing, ..self })
                },
            },
            (BatchStage::Executing, BatchReply::Returned { result, bytes }) => if bytes
                > self.byte_limit {
                action is Restore && self.moves_to(post, BatchStage::Overflowing(bytes))
            } else {
                action is Release && post == (BatchRun {
                    returned: Some(result),
                    stage: BatchStage::Releasing,
                    ..self
                })
            },
            (BatchStage::Executing, BatchReply::Failed { failure, autocommit }) => if autocommit {
                ends_saying(post, action, "outer transaction aborted: "@ + failure.text@)
            } else {
                action is Restore && post == (BatchRun {
                    failed: Some(failure),
                    stage: BatchStage::Recovering,
                    ..self
                })
            },
            (BatchStage::Overflowing(bytes), BatchReply::Done(done)) => match done {
                Err(_) => ends_saying(
                    post,
                    action,
                    "savepoint restoration failed; handle invalidated"@,
                ),
                Ok(()) => ends_with(
                    post,
                    action,
                    WorkerError::ResultTooLarge { retained_bytes: bytes, limit: self.byte_limit },
                ),
            },
            (BatchStage::Recovering, BatchReply::Done(done)) => match done {
                Err(_) => ends_saying(
                    post,
                    action,
                    "savepoint restoration failed; handle invalidated"@,
                ),
                Ok(()) => ends_with(post, action, WorkerError::Sqlite(self.failed->0)),
            },
            (BatchStage::Releasing, BatchReply::Done(done)) => match done {
                Err(e) => ends_with(post, action, WorkerError::Sqlite(e)),
                Ok(()) => action is ReadVersion && self.moves_to(post, BatchStage::Settling),
            },
            (BatchStage::Settling, BatchReply::Version(version)) => match version {
                Err(e) => ends_with(post, action, WorkerError::Sqlite(e)),
                Ok(v) => {
                    &&& action is Seek
                    &&& post.results@ == self.results@.push(self.returned->0)
                    &&& post == (BatchRun {
                        expected: v,
                        results: post.results,
                        returned: None,
                        stage: BatchStage::Seeking,
                        ..self
                    })
                },
            },
            _ => false,
        }
    }

    /// A run that has yet to ask whether a transaction is open.
    pub fn start(single: bool, statement_limit: usize, byte_limit: usize, expected: i64) -> (r: Self)
        ensures
            r.wf(),
            r.stage is Entering,
            r.single == single,
            r.statement_limit == statement_limit,
            r.byte_limit == byte_limit,
            r.expected == expected && r.schema_before == expected,
            r.count == 0 && r.results@.len() == 0,
    {
        BatchRun {
            single,
            statement_limit,
            byte_limit,
            schema_before: expected,
            expected,
            count: 0,
            results: Vec::new(),
            current: None,
            returned: None,
            failed: None,
            stage: BatchStage::Entering,
        }
    }

    fn end(&mut self, error: WorkerError) -> (r: BatchAction)
        ensures
            final(self).wf(),
            ends_with(*final(self), r, error),
    {
        self.stage = BatchStage::Ended;
        self.current = None;
        self.returned = None;
        self.failed = None;
        BatchAction::Fail(error)
    }

    fn end_saying(&mut self, message: &str) -> (r: BatchAction)
        ensures
            final(self).wf(),
            ends_saying(*final(self), r, message@),
    {
        self.end(WorkerError::because(message))
    }

    fn found(&mut self, sql: String) -> (r: BatchAction)
        requires
            old(self).wf(),
            old(self).stage is Seeking,
        ensures
            final(self).wf(),
            old(self).leads_to(BatchReply::Found(Ok(Some(sql))), *final(self), r),
    {
        let count: usize = if self.count < usize::MAX {
            self.count + 1
        } else {
            self.count
        };
        if self.single && count > 1 {
            return self.end_saying("multiple SQL statements are not allowed");
        }
        if !self.single && count > self.statement_limit {
            let mut m = "batch statement limit exceeded (limit ".to_owned();
            m.append(decimal_text(self.statement_limit as u64).as_str());
            m.append(")");
            return self.end(WorkerError::Message(m));
        }
        self.count = count;
        self.current = Some(sql);
        self.stage = BatchStage::Checking;
        BatchAction::ReadVersion
    }

    fn checked(&mut self, version: i64, signal: &mut MutationSignal) -> (r: BatchAction)
        requires
            old(self).wf(),
            old(self).stage is Checking,
        ensures
            final(self).wf(),
            old(self).leads_to(BatchReply::Version(Ok(version)), *final(self), r),
            *final(signal) == if version == old(self).expected {
                guarded_signal(*old(signal), old(self).current->0@)
            } else {
                *old(signal)
            },
    {
        if version != self.expected {
            return self.end_saying("SCHEMA_STALE");
        }
        let fault = match &self.current {
            Some(sql) => check_guards(sql.as_str(), signal),
            None => None,
        };
        if let Some(e) = fault {
            let mut m = "statement is denied by SQL policy: ".to_owned();
            m.append(e.as_str());
            return self.end(WorkerError::Message(m));
        }
        self.stage = BatchStage::Saving;
        BatchAction::Savepoint
    }

    /// Takes the outcome of a step and says what to do next.
    pub fn step(&mut self, reply: BatchReply, signal: &mut MutationSignal) -> (r: BatchAction)
        requires
            old(self).wf(),
            old(self).fits(reply),
        ensures
            final(self).wf(),
            old(self).leads_to(reply, *final(self), r),
            *final(signal) == if old(self).stage is Checking && reply
                == BatchReply::Version(Ok(old(self).expected)) {
                guarded_signal(*old(signal), old(self).current->0@)
            } else {
                *old(signal)
            },
            r matches BatchAction::Execute { sql, .. } ==> guard_fault(sql@) is None,
            r matches BatchAction::Finish { results, .. } ==> results@.len() >= 1 && (if old(
                self).single {
                results@.len() == 1
            } else {
                results@.len() <= old(self).statement_limit
            }),
    {
        match reply {
            BatchReply::Autocommit(autocommit) => {
                if autocommit {
                    return self.end_saying("transaction required");
                }
                self.stage = BatchStage::ReadingEntry;
                BatchAction::ReadVersion
            },
            BatchReply::Version(version) => {
                let v: i64 = match version {
                    Ok(v) => v,
                    Err(e) => {
                        return self.end(WorkerError::Sqlite(e));
                    },
                };
                match self.stage {
                    BatchStage::ReadingEntry => {
                        if v != self.expected {
                            return self.end_saying("SCHEMA_STALE");
                        }
                        if self.single {
                            self.stage = BatchStage::ValidatingFirst;
                            BatchAction::Validate
                        } else {
                            self.stage = BatchStage::Seeking;
                            BatchAction::Seek
                        }
                    },
                    BatchStage::Checking => self.checked(v, signal),
                    _ => {
                        self.expected = v;
                        let returned = self.returned.take();
                        if let Some(result) = returned {
                            self.results.push(result);
                        }
                        let total: usize = self.results.len();
                        assert(total == self.results@.len());
                        self.returned = None;
                        self.stage = BatchStage::Seeking;
                        BatchAction::Seek
                    },
                }
            },
            BatchReply::Found(found) => match self.stage {
                BatchStage::ValidatingFirst => match found {
                    Err(e) => self.end(WorkerError::Sqlite(e)),
                    Ok(None) => self.end_saying("SQL is empty"),
                    Ok(Some(_)) => {
                        self.stage = BatchStage::ValidatingSecond;
                        BatchAction::Validate
                    },
                },
                BatchStage::ValidatingSecond => match found {
                    Ok(None) => {
                        self.stage = BatchStage::Seeking;
                        BatchAction::Seek
                    },
                    _ => self.end_saying("multiple SQL statements are not allowed"),
                },
                _ => match found {
                    Err(e) => self.end(WorkerError::Sqlite(e)),
                    Ok(None) => {
                        if self.results.len() == 0 {
                            return self.end_saying("SQL is empty");
                        }
                        self.stage = BatchStage::Ended;
                        let mut results: Vec<QueryResult> = Vec::new();
                        std::mem::swap(&mut results, &mut self.results);
                        BatchAction::Finish {
                            results,
                            schema_before: self.schema_before,
                            schema_after: self.expected,
                        }
                    },
                    Ok(Some(sql)) => self.found(sql),
                },
            },
            BatchReply::Returned { result, bytes } => {
                if bytes > self.byte_limit {
                    self.stage = BatchStage::Overflowing(bytes);
                    BatchAction::Restore
                } else {
                    self.returned = Some(result);
                    self.stage = BatchStage::Releasing;
                    BatchAction::Release
                }
            },
            BatchReply::Failed { failure, autocommit } => {
                if autocommit {
                    let mut m = "outer transaction aborted: ".to_owned();
                    m.append(failure.text.as_str());
                    return self.end(WorkerError::Message(m));
                }
                self.failed = Some(failure);
                self.stage = BatchStage::Recovering;
                BatchAction::Restore
            },
            BatchReply::Done(done) => match self.stage {
                BatchStage::Saving => {
                    if let Err(e) = done {
                        return self.end(WorkerError::Sqlite(e));
                    }
                    let current = self.current.take();
                    self.current = None;
                    self.stage = BatchStage::Executing;
                    match current {
                        Some(sql) => {
                            let approved_getter = is_approved_getter(sql.as_str());
                            BatchAction::Execute { sql, approved_getter }
                        },
                        None => self.end_saying("SQL is empty"),
                    }
                },
                BatchStage::Overflowing(bytes) => {
                    if done.is_err() {
                        return self.end_saying("savepoint restoration failed; handle invalidated");
                    }
                    let limit: usize = self.byte_limit;
                    self.end(WorkerError::ResultTooLarge { retained_bytes: bytes, limit })
                },
                BatchStage::Recovering => {
                    if done.is_err() {
                        return self.end_saying("savepoint restoration failed; handle invalidated");
                    }
                    let failed = self.failed.take();
                    match failed {
                        Some(e) => self.end(WorkerError::Sqlite(e)),
                        None => self.end_saying("SQL is empty"),
                    }
                },
                _ => {
                    if let Err(e) = done {
                        return self.end(WorkerError::Sqlite(e));
                    }
                    self.stage = BatchStage::Settling;
                    BatchAction::ReadVersion
                },
            },
        }
    }
}

/// Every statement runs to its end or is undone: once a statement has run, its
/// savepoint is closed or gone back to, unless the whole transaction is gone.
/// One that failed, or returned more than is allowed, is gone back to.
pub proof fn statements_are_atomic(
    run: BatchRun,
    reply: BatchReply,
    post: BatchRun,
    action: BatchAction,
)
    requires
        run.stage is Executing,
        run.fits(reply),
        run.leads_to(reply, post, action),
    ensures
        action is Release == (reply matches BatchReply::Returned { bytes, .. } && bytes
            <= run.byte_limit),
        action is Restore == match reply {
            BatchReply::Returned { bytes, .. } => bytes > run.byte_limit,
            BatchReply::Failed { autocommit, .. } => !autocommit,
            _ => false,
        },
        post.stage is Ended == (reply matches BatchReply::Failed { autocommit: true, .. }),
{
}

/// What a statement returned counts only once its savepoint is closed and the
/// schema version behind it is known; no other step adds a result or moves the
/// expected version.
pub proof fn results_are_settled(
    run: BatchRun,
    reply: BatchReply,
    post: BatchRun,
    action: BatchAction,
)
    requires
        run.wf(),
        run.fits(reply),
        run.leads_to(reply, post, action),
        !(post.stage is Ended),
    ensures
        match (run.stage, reply) {
            (BatchStage::Settling, BatchReply::Version(Ok(version))) => {
                &&& post.results@ == run.results@.push(run.returned->0)
                &&& post.expected == version
            },
            _ => post.results == run.results && post.expected == run.expected,
        },
        post.schema_before == run.schema_before,
        post.single == run.single,
        post.statement_limit == run.statement_limit,
        post.byte_limit == run.byte_limit,
{
}

/// A single statement whose run fails leaves nothing behind in a transaction that
/// stays open: nothing was released. Left out is what comes behind the release: a
/// schema version that cannot be read then, and a text that then holds more than
/// the one statement that was found in it.
pub proof fn failed_queries_release_nothing(
    run: BatchRun,
    reply: BatchReply,
    post: BatchRun,
    action: BatchAction,
)
    requires
        run.wf(),
        run.single,
        run.fits(reply),
        run.leads_to(reply, post, action),
        action is Fail,
        !(run.stage is Settling),
        !(run.stage is Seeking && run.count > 0),
    ensures
        !run.has_released(),
{
}

/// A text that SQLite refuses ends the run with what SQLite says, and so does not
/// count as denied by the policy.
pub proof fn refused_texts_are_not_denied(
    run: BatchRun,
    failure: SqliteFailure,
    post: BatchRun,
    action: BatchAction,
)
    requires
        run.stage is Seeking || run.stage is ValidatingFirst,
        run.leads_to(BatchReply::Found(Err(failure)), post, action),
        error::primary_of(error::extended_of(failure)) != error::SQLITE_AUTH,
    ensures
        action == BatchAction::Fail(WorkerError::Sqlite(failure)),
        forall|open: bool|
            !(#[trigger] error::classified(WorkerError::Sqlite(failure), open) is PolicyDenied),
{
}

} // verus!
