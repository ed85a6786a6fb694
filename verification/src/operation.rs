//! Operations on a handle, and what is reported of them.
use crate::merge::order::{lemma_bytes_antisymmetric, lemma_bytes_total, lemma_bytes_transitive, lemma_utf8_injective};
use crate::merge::schema;
use crate::merge::schema::is_bytes_leq;
use crate::text;
use crate::text::{decimal_text, same_text, signed_decimal_text};
use crate::worker::error::{SqliteFailure, WorkerError};
use vstd::prelude::*;
use vstd::utf8::*;

verus! {

#[derive(Clone, Copy, Debug, PartialEq, Eq, Structural)]
pub enum OperationKind {
    Query,
    Schema,
    Begin(TransactionMode),
    Commit,
    Rollback,
    Expire,
    Close,
}

/// What interrupted a request.
#[derive(Clone, Copy, Debug, PartialEq, Eq, Structural)]
pub enum InterruptionCause {
    Client,
    Deadline,
    Shutdown,
}

impl InterruptionCause {
    pub open spec fn text(self) -> Seq<char> {
        match self {
            InterruptionCause::Client => "client cancellation"@,
            InterruptionCause::Deadline => "request deadline"@,
            InterruptionCause::Shutdown => "server shutdown"@,
        }
    }

    pub fn as_str(self) -> (r: &'static str)
        ensures
            r@ == self.text(),
    {
        match self {
            InterruptionCause::Client => "client cancellation",
            InterruptionCause::Deadline => "request deadline",
            InterruptionCause::Shutdown => "server shutdown",
        }
    }
}

/// How a transaction takes its locks.
#[derive(Clone, Copy, Debug, PartialEq, Eq, Structural)]
pub enum TransactionMode {
    Deferred,
    Immediate,
    Exclusive,
}

impl Default for TransactionMode {
    fn default() -> (r: Self)
        ensures
            r is Deferred,
    {
        TransactionMode::Deferred
    }
}

/// The lower-case word for a mode.
pub open spec fn mode_word(mode: TransactionMode) -> Seq<char> {
    match mode {
        TransactionMode::Deferred => "deferred"@,
        TransactionMode::Immediate => "immediate"@,
        TransactionMode::Exclusive => "exclusive"@,
    }
}

proof fn lemma_mode_words_differ()
    ensures
        "deferred"@ != "immediate"@,
        "deferred"@ != "exclusive"@,
        "immediate"@ != "exclusive"@,
{
    reveal_strlit("deferred");
    reveal_strlit("immediate");
    reveal_strlit("exclusive");
    assert("deferred"@[0] == 'd');
    assert("immediate"@[0] == 'i');
    assert("exclusive"@[0] == 'e');
}

impl TransactionMode {
    /// Reads a mode. Only the exact lower-case words are modes.
    pub fn parse(value: &str) -> (r: Option<Self>)
        ensures
            match r {
                Some(mode) => value@ == mode_word(mode),
                None => forall|other: TransactionMode| value@ != #[trigger] mode_word(other),
            },
    {
        if same_text(value, "deferred") {
            Some(TransactionMode::Deferred)
        } else if same_text(value, "immediate") {
            Some(TransactionMode::Immediate)
        } else if same_text(value, "exclusive") {
            Some(TransactionMode::Exclusive)
        } else {
            None
        }
    }

    /// The lower-case word for the mode.
    pub fn render(self) -> (r: &'static str)
        ensures
            r@ == mode_word(self),
    {
        match self {
            TransactionMode::Deferred => "deferred",
            TransactionMode::Immediate => "immediate",
            TransactionMode::Exclusive => "exclusive",
        }
    }
}

/// A mode is read back from its word: no two modes share one.
pub proof fn mode_words_are_distinct(a: TransactionMode, b: TransactionMode)
    ensures
        mode_word(a) == mode_word(b) <==> a == b,
{
    lemma_mode_words_differ();
}

/// A step of cleaning up.
#[derive(Clone, Copy, Debug, PartialEq, Eq, Structural)]
pub enum CleanupStage {
    ExpiryRollback,
    SavepointRestore,
    ManagedSchemaCleanup,
    ConnectionRollback,
    ConnectionClose,
}

impl CleanupStage {
    pub open spec fn text(self) -> Seq<char> {
        match self {
            CleanupStage::ExpiryRollback => "expiry rollback"@,
            CleanupStage::SavepointRestore => "savepoint restoration"@,
            CleanupStage::ManagedSchemaCleanup => "managed schema cleanup"@,
            CleanupStage::ConnectionRollback => "connection rollback"@,
            CleanupStage::ConnectionClose => "connection close"@,
        }
    }

    pub fn as_str(self) -> (r: &'static str)
        ensures
            r@ == self.text(),
    {
        match self {
            CleanupStage::ExpiryRollback => "expiry rollback",
            CleanupStage::SavepointRestore => "savepoint restoration",
            CleanupStage::ManagedSchemaCleanup => "managed schema cleanup",
            CleanupStage::ConnectionRollback => "connection rollback",
            CleanupStage::ConnectionClose => "connection close",
        }
    }
}

/// A cleanup that failed, kept beside the result of the operation.
#[derive(Clone, Debug)]
pub struct CleanupFailure {
    pub stage: CleanupStage,
    pub known_transaction_open: bool,
    pub known_invalidated: bool,
    pub detail: String,
}

/// What came of one operation.
#[derive(Debug)]
pub struct OperationOutcome<T> {
    pub result: Result<T, WorkerError>,
    /// A transaction is open after the operation.
    pub transaction_open: bool,
    /// The transaction can go on.
    pub transaction_continuable: bool,
    pub expired: bool,
    pub invalidated: bool,
    /// The operation tried to change something.
    pub mutation_attempted: bool,
    pub cleanup_error: Option<CleanupFailure>,
}

impl<T> OperationOutcome<T> {
    /// Only an open transaction of a valid, unexpired handle can go on.
    pub open spec fn wf(self) -> bool {
        self.transaction_continuable ==> self.transaction_open && !self.expired
            && !self.invalidated
    }

    /// An outcome with these facts. A transaction that is not open cannot go on.
    pub fn new(
        result: Result<T, WorkerError>,
        transaction_open: bool,
        transaction_continuable: bool,
    ) -> (r: Self)
        ensures
            r.wf(),
            r.result == result,
            r.transaction_open == transaction_open,
            r.transaction_continuable == (transaction_open && transaction_continuable),
            !r.expired && !r.invalidated && !r.mutation_attempted,
            r.cleanup_error is None,
    {
        OperationOutcome {
            result,
            transaction_open,
            transaction_continuable: transaction_open && transaction_continuable,
            expired: false,
            invalidated: false,
            mutation_attempted: false,
            cleanup_error: None,
        }
    }

    /// The outcome of an operation outside a transaction.
    pub fn autocommit(result: Result<T, WorkerError>) -> (r: Self)
        ensures
            r.wf(),
            r.result == result,
            !r.transaction_open && !r.transaction_continuable,
            !r.expired && !r.invalidated && !r.mutation_attempted,
            r.cleanup_error is None,
    {
        Self::new(result, false, false)
    }

    /// The outcome with its expiry. Nothing goes on after one.
    pub fn with_expired(self, expired: bool) -> (r: Self)
        ensures
            self.wf() ==> r.wf(),
            r == (OperationOutcome {
                expired,
                transaction_continuable: self.transaction_continuable && !expired,
                ..self
            }),
    {
        OperationOutcome {
            result: self.result,
            transaction_open: self.transaction_open,
            transaction_continuable: self.transaction_continuable && !expired,
            expired,
            invalidated: self.invalidated,
            mutation_attempted: self.mutation_attempted,
            cleanup_error: self.cleanup_error,
        }
    }

    /// The outcome with its validity. Nothing goes on without it.
    pub fn with_invalidated(self, invalidated: bool) -> (r: Self)
        ensures
            self.wf() ==> r.wf(),
            r == (OperationOutcome {
                invalidated,
                transaction_continuable: self.transaction_continuable && !invalidated,
                ..self
            }),
    {
        OperationOutcome {
            result: self.result,
            transaction_open: self.transaction_open,
            transaction_continuable: self.transaction_continuable && !invalidated,
            expired: self.expired,
            invalidated,
            mutation_attempted: self.mutation_attempted,
            cleanup_error: self.cleanup_error,
        }
    }

    pub fn with_mutation_attempted(self, attempted: bool) -> (r: Self)
        ensures
            self.wf() ==> r.wf(),
            r == (OperationOutcome { mutation_attempted: attempted, ..self }),
    {
        OperationOutcome {
            result: self.result,
            transaction_open: self.transaction_open,
            transaction_continuable: self.transaction_continuable,
            expired: self.expired,
            invalidated: self.invalidated,
            mutation_attempted: attempted,
            cleanup_error: self.cleanup_error,
        }
    }

    /// The outcome with a failed cleanup, which leaves the result as it is.
    pub fn with_cleanup_error(self, failure: CleanupFailure) -> (r: Self)
        ensures
            self.wf() ==> r.wf(),
            r == (OperationOutcome { cleanup_error: Some(failure), ..self }),
    {
        OperationOutcome {
            result: self.result,
            transaction_open: self.transaction_open,
            transaction_continuable: self.transaction_continuable,
            expired: self.expired,
            invalidated: self.invalidated,
            mutation_attempted: self.mutation_attempted,
            cleanup_error: Some(failure),
        }
    }
}

/// How a worker was shut down.
#[derive(Clone, Copy, Debug, PartialEq, Eq, Structural)]
pub struct ShutdownStatus {
    pub connection_closed: bool,
    pub thread_joined: bool,
}

impl ShutdownStatus {
    pub fn is_success(self) -> (r: bool)
        ensures
            r == (self.connection_closed && self.thread_joined),
    {
        self.connection_closed && self.thread_joined
    }
}

/// What is not known of a shutdown.
#[derive(Clone, Debug)]
pub enum WorkerShutdownError {
    /// Whether the transaction was rolled back.
    RollbackUncertain(String),
    /// Whether the connection was closed.
    CloseUncertain(String),
    /// Whether the thread ended.
    JoinUncertain(String),
}

impl WorkerShutdownError {
    pub open spec fn text(self) -> Seq<char> {
        match self {
            WorkerShutdownError::RollbackUncertain(d) => "rollback verification failed: "@ + d@,
            WorkerShutdownError::CloseUncertain(d) => "connection close unconfirmed: "@ + d@,
            WorkerShutdownError::JoinUncertain(d) => "worker join unconfirmed: "@ + d@,
        }
    }

    pub fn message(&self) -> (r: String)
        ensures
            r@ == self.text(),
    {
        match self {
            WorkerShutdownError::RollbackUncertain(d) => {
                let mut s = "rollback verification failed: ".to_owned();
                s.append(d.as_str());
                s
            },
            WorkerShutdownError::CloseUncertain(d) => {
                let mut s = "connection close unconfirmed: ".to_owned();
                s.append(d.as_str());
                s
            },
            WorkerShutdownError::JoinUncertain(d) => {
                let mut s = "worker join unconfirmed: ".to_owned();
                s.append(d.as_str());
                s
            },
        }
    }
}

/// One worker's part of a shutdown.
pub type ShutdownEntry = (String, Result<ShutdownStatus, WorkerShutdownError>);

/// How a whole shutdown went.
#[derive(Clone, Debug)]
pub struct ShutdownReport {
    /// The workers by handle, each handle once, in the order of the handles.
    pub entries: Vec<ShutdownEntry>,
    pub registry_cleanup_errors: Vec<String>,
}

/// Texts in the order of their bytes.
pub open spec fn text_leq(a: Seq<char>, b: Seq<char>) -> bool {
    schema::bytes_leq(encode_utf8(a), encode_utf8(b))
}

pub open spec fn entry_succeeded(e: ShutdownEntry) -> bool {
    e.1 matches Ok(status) && status.connection_closed && status.thread_joined
}

impl Default for ShutdownReport {
    fn default() -> (r: Self)
        ensures
            r.entries@.len() == 0,
            r.registry_cleanup_errors@.len() == 0,
            r.wf(),
    {
        ShutdownReport { entries: Vec::new(), registry_cleanup_errors: Vec::new() }
    }
}

impl ShutdownReport {
    /// The entries stand in the order of their handles, each handle once.
    pub open spec fn wf(self) -> bool {
        forall|i: int, j: int|
            0 <= i < j < self.entries@.len() ==> text_leq(
                (#[trigger] self.entries@[i]).0@,
                (#[trigger] self.entries@[j]).0@,
            ) && self.entries@[i].0@ != self.entries@[j].0@
    }

    /// A handle has an entry.
    pub open spec fn has(self, id: Seq<char>) -> bool {
        exists|i: int| 0 <= i < self.entries@.len() && (#[trigger] self.entries@[i]).0@ == id
    }

    /// The shutdown left nothing open.
    pub open spec fn succeeded(self) -> bool {
        (forall|i: int| 0 <= i < self.entries@.len() ==> entry_succeeded(#[trigger] self.entries@[i]))
            && self.registry_cleanup_errors@.len() == 0
    }

    /// An empty report.
    pub fn new() -> (r: Self)
        ensures
            r.entries@.len() == 0,
            r.registry_cleanup_errors@.len() == 0,
            r.wf(),
    {
        ShutdownReport { entries: Vec::new(), registry_cleanup_errors: Vec::new() }
    }

    /// Records one worker in its place. The first record of a handle stays.
    pub fn record(&mut self, handle_id: &str, result: Result<ShutdownStatus, WorkerShutdownError>)
        requires
            old(self).wf(),
        ensures
            final(self).wf(),
            final(self).registry_cleanup_errors == old(self).registry_cleanup_errors,
            old(self).has(handle_id@) ==> final(self).entries@ == old(self).entries@,
            !old(self).has(handle_id@) ==> exists|p: int, e: ShutdownEntry|
                #![trigger old(self).entries@.insert(p, e)]
                0 <= p <= old(self).entries@.len() && e.0@ == handle_id@ && e.1 == result
                    && final(self).entries@ == old(self).entries@.insert(p, e),
    {
        let mut p: usize = 0;
        while p < self.entries.len() && is_bytes_leq(
            self.entries[p].0.as_str().as_bytes(),
            handle_id.as_bytes(),
        )
            invariant
                p <= self.entries@.len(),
                *self == *old(self),
                self.wf(),
                forall|i: int|
                    0 <= i < p ==> text_leq((#[trigger] self.entries@[i]).0@, handle_id@)
                        && self.entries@[i].0@ != handle_id@,
            decreases self.entries.len() - p,
        {
            if same_text(self.entries[p].0.as_str(), handle_id) {
                assert(self.entries@[p as int].0@ == handle_id@);
                return ;
            }
            p += 1;
        }
        let ghost before = self.entries@;
        proof {
            assert forall|i: int| p <= i < before.len() implies text_leq(
                handle_id@,
                (#[trigger] before[i]).0@,
            ) && before[i].0@ != handle_id@ by {
                let at = before[p as int].0@;
                lemma_bytes_total(encode_utf8(at), encode_utf8(handle_id@));
                if i > p {
                    lemma_bytes_transitive(
                        encode_utf8(handle_id@),
                        encode_utf8(at),
                        encode_utf8(before[i].0@),
                    );
                    if before[i].0@ == handle_id@ {
                        lemma_bytes_antisymmetric(encode_utf8(handle_id@), encode_utf8(at));
                        lemma_utf8_injective(handle_id@, at);
                    }
                }
            }
            assert(!old(self).has(handle_id@));
        }
        let entry = (handle_id.to_owned(), result);
        let ghost added = entry;
        self.entries.insert(p, entry);
        assert(self.entries@ == before.insert(p as int, added));
        assert(self.wf()) by {
            let now = self.entries@;
            assert forall|i: int, j: int| 0 <= i < j < now.len() implies text_leq(
                (#[trigger] now[i]).0@,
                (#[trigger] now[j]).0@,
            ) && now[i].0@ != now[j].0@ by {
                let a = if i < p {
                    i
                } else {
                    i - 1
                };
                let b = if j < p {
                    j
                } else {
                    j - 1
                };
                if i != p && j != p {
                    assert(now[i] == before[a] && now[j] == before[b]);
                } else if i == p {
                    assert(now[j] == before[b]);
                } else {
                    assert(now[i] == before[a]);
                }
            }
        }
    }

    /// Whether every worker ended cleanly and nothing else went wrong.
    pub fn is_success(&self) -> (r: bool)
        ensures
            r == self.succeeded(),
    {
        let mut i: usize = 0;
        while i < self.entries.len()
            invariant
                i <= self.entries@.len(),
                forall|k: int| 0 <= k < i ==> entry_succeeded(#[trigger] self.entries@[k]),
            decreases self.entries.len() - i,
        {
            let ok = match &self.entries[i].1 {
                Ok(status) => status.is_success(),
                Err(_) => false,
            };
            if !ok {
                assert(!entry_succeeded(self.entries@[i as int]));
                return false;
            }
            i += 1;
        }
        self.registry_cleanup_errors.len() == 0
    }
}

/// The engine limits that are in force.
#[derive(Clone, Copy, Debug, PartialEq, Eq, Structural)]
pub struct EffectiveLimits {
    pub cell_byte_limit: i32,
    pub expression_depth: i32,
    pub compound_terms: i32,
    pub parameter_limit: i32,
}

/// Why an engine limit is not as configured.
#[derive(Debug, Clone)]
pub enum LimitInstallError {
    /// The value does not fit the engine's type.
    Conversion { field: &'static str, requested: usize },
    /// The engine kept another value.
    Unsupported { field: &'static str, requested: usize, effective: Option<i32> },
    /// The value could not be set or read back.
    Sqlite { field: &'static str, source: SqliteFailure },
}

impl LimitInstallError {
    pub open spec fn text(self) -> Seq<char> {
        match self {
            LimitInstallError::Conversion { field, requested } => "limit "@ + field@
                + ": configured value "@ + text::decimal(requested as nat)
                + " does not fit the engine limit type"@,
            LimitInstallError::Unsupported { field, requested, effective } => {
                let refused = "limit "@ + field@ + ": engine refused "@ + text::decimal(
                    requested as nat,
                );
                match effective {
                    Some(v) => refused + "; effective value is "@ + text::signed_decimal(v as int),
                    None => refused,
                }
            },
            LimitInstallError::Sqlite { field, source } => "limit "@ + field@
                + ": read-back failed: "@ + source.text@,
        }
    }

    pub fn message(&self) -> (r: String)
        ensures
            r@ == self.text(),
    {
        let mut s = "limit ".to_owned();
        match self {
            LimitInstallError::Conversion { field, requested } => {
                s.append(field);
                s.append(": configured value ");
                s.append(decimal_text(*requested as u64).as_str());
                s.append(" does not fit the engine limit type");
            },
            LimitInstallError::Unsupported { field, requested, effective } => {
                s.append(field);
                s.append(": engine refused ");
                s.append(decimal_text(*requested as u64).as_str());
                if let Some(v) = effective {
                    s.append("; effective value is ");
                    s.append(signed_decimal_text(*v as i64).as_str());
                }
            },
            LimitInstallError::Sqlite { field, source } => {
                s.append(field);
                s.append(": read-back failed: ");
                s.append(source.text.as_str());
            },
        }
        s
    }
}

/// A mode is read from its word, and each mode has its own; nothing else is read.
pub proof fn modes_are_read_from_their_words(
    value: &str,
    r: Option<TransactionMode>,
    mode: TransactionMode,
    word: &str,
)
    requires
        call_ensures(TransactionMode::parse, (value,), r),
        call_ensures(TransactionMode::render, (mode,), word),
    ensures
        r == Some(TransactionMode::Deferred) <==> value@ == "deferred"@,
        r == Some(TransactionMode::Immediate) <==> value@ == "immediate"@,
        r == Some(TransactionMode::Exclusive) <==> value@ == "exclusive"@,
        value@ == word@ ==> r == Some(mode),
{
    lemma_mode_words_differ();
    if r is None {
        assert(value@ != mode_word(TransactionMode::Deferred));
        assert(value@ != mode_word(TransactionMode::Immediate));
        assert(value@ != mode_word(TransactionMode::Exclusive));
        assert(value@ != mode_word(mode));
    } else {
        mode_words_are_distinct(r->0, mode);
        mode_words_are_distinct(r->0, TransactionMode::Deferred);
        mode_words_are_distinct(r->0, TransactionMode::Immediate);
        mode_words_are_distinct(r->0, TransactionMode::Exclusive);
    }
}

/// A transaction goes on only where it is open, and neither expired nor made
/// unusable. The result stays as it is.
pub proof fn outcomes_go_on_while_open(
    result: Result<i64, WorkerError>,
    open: bool,
    continuable: bool,
    made: OperationOutcome<i64>,
    expired: bool,
    aged: OperationOutcome<i64>,
    invalidated: bool,
    judged: OperationOutcome<i64>,
)
    requires
        call_ensures(OperationOutcome::<i64>::new, (result, open, continuable), made),
        call_ensures(OperationOutcome::<i64>::with_expired, (made, expired), aged),
        call_ensures(OperationOutcome::<i64>::with_invalidated, (aged, invalidated), judged),
    ensures
        judged.result == result,
        judged.transaction_open == open,
        judged.transaction_continuable <==> open && continuable && !expired && !invalidated,
        judged.expired == expired,
        judged.invalidated == invalidated,
        judged.cleanup_error is None,
        !judged.mutation_attempted,
{
}

/// A failed cleanup and an attempted change are noted, and nothing else changes.
pub proof fn outcomes_keep_their_result(
    outcome: OperationOutcome<i64>,
    failure: CleanupFailure,
    cleaned: OperationOutcome<i64>,
    attempted: bool,
    marked: OperationOutcome<i64>,
)
    requires
        call_ensures(OperationOutcome::<i64>::with_cleanup_error, (outcome, failure), cleaned),
        call_ensures(
            OperationOutcome::<i64>::with_mutation_attempted,
            (outcome, attempted),
            marked,
        ),
    ensures
        cleaned.result == outcome.result,
        cleaned.transaction_open == outcome.transaction_open,
        cleaned.transaction_continuable == outcome.transaction_continuable,
        cleaned.cleanup_error == Some(failure),
        marked.result == outcome.result,
        marked.mutation_attempted == attempted,
        marked.transaction_open == outcome.transaction_open,
        marked.transaction_continuable == outcome.transaction_continuable,
        marked.cleanup_error == outcome.cleanup_error,
{
}

/// A shutdown is a success exactly where every worker that is listed closed its
/// connection and ended its thread, and nothing else went wrong.
pub proof fn shutdowns_succeed_as_a_whole(report: &ShutdownReport, r: bool)
    requires
        call_ensures(ShutdownReport::is_success, (report,), r),
    ensures
        r <==> report.registry_cleanup_errors@.len() == 0 && forall|i: int|
            0 <= i < report.entries@.len() ==> ((#[trigger] report.entries@[i]).1 matches Ok(status)
                && status.connection_closed && status.thread_joined),
{
    if report.registry_cleanup_errors@.len() == 0 && forall|i: int|
        0 <= i < report.entries@.len() ==> ((#[trigger] report.entries@[i]).1 matches Ok(status)
            && status.connection_closed && status.thread_joined) {
        assert forall|i: int| 0 <= i < report.entries@.len() implies entry_succeeded(
            #[trigger] report.entries@[i],
        ) by {}
    }
    if r {
        assert forall|i: int| 0 <= i < report.entries@.len() implies ((
        #[trigger] report.entries@[i]).1 matches Ok(status) && status.connection_closed
            && status.thread_joined) by {
            assert(entry_succeeded(report.entries@[i]));
        }
    }
}

/// Causes, cleanup steps and shutdown failures have texts of their own.
pub proof fn causes_say_what_they_are(
    cause: InterruptionCause,
    said: &str,
    stage: CleanupStage,
    named: &str,
    failure: WorkerShutdownError,
    r: String,
)
    requires
        call_ensures(InterruptionCause::as_str, (cause,), said),
        call_ensures(CleanupStage::as_str, (stage,), named),
        call_ensures(WorkerShutdownError::message, (&failure,), r),
    ensures
        cause is Client ==> said@ == "client cancellation"@,
        cause is Deadline ==> said@ == "request deadline"@,
        cause is Shutdown ==> said@ == "server shutdown"@,
        stage is ExpiryRollback ==> named@ == "expiry rollback"@,
        stage is SavepointRestore ==> named@ == "savepoint restoration"@,
        stage is ManagedSchemaCleanup ==> named@ == "managed schema cleanup"@,
        stage is ConnectionRollback ==> named@ == "connection rollback"@,
        stage is ConnectionClose ==> named@ == "connection close"@,
        failure matches WorkerShutdownError::RollbackUncertain(d) ==> r@
            == "rollback verification failed: "@ + d@,
        failure matches WorkerShutdownError::CloseUncertain(d) ==> r@
            == "connection close unconfirmed: "@ + d@,
        failure matches WorkerShutdownError::JoinUncertain(d) ==> r@ == "worker join unconfirmed: "@
            + d@,
{
}

/// A limit that is not in force is reported with its setting and the value asked for.
pub proof fn limit_failures_name_the_setting(error: LimitInstallError, r: String)
    requires
        call_ensures(LimitInstallError::message, (&error,), r),
    ensures
        error matches LimitInstallError::Conversion { field, requested } ==> r@ == "limit "@ + field@
            + ": configured value "@ + text::decimal(requested as nat)
            + " does not fit the engine limit type"@,
        error matches LimitInstallError::Unsupported {
            field,
            requested,
            effective: Some(v),
        } ==> r@ == "limit "@ + field@ + ": engine refused "@ + text::decimal(requested as nat)
            + "; effective value is "@ + text::signed_decimal(v as int),
        error matches LimitInstallError::Sqlite { field, source } ==> r@ == "limit "@ + field@
            + ": read-back failed: "@ + source.text@,
{
}

} // verus!
