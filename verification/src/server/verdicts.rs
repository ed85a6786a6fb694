//! What callers are told, and what that rests on.
use crate::admission::{AdmissionRegistry, Reservation};
use crate::config::Config;
use crate::operation;
use crate::operation::{ShutdownReport, ShutdownStatus, TransactionMode, WorkerShutdownError};
use crate::paths::PathError;
use crate::server::error::{classify_worker_error, CoreError};
use crate::server::lifecycle;
use crate::server::lifecycle::{
    admit_merge, close_result, idle_seconds, shutdown_report, worker_limits,
    ShutdownJoin,
};
use crate::server::schema_read::{
    schema_cleanup, schema_table, settle_schema, SchemaCleanup,
};
use crate::schema::{SchemaColumn, SchemaForeignKey, SchemaIndex, SchemaTable};
use crate::server::transaction::{
    begin_statement, parse_begin_mode, settle_begin, settle_rollback,
};
use crate::text;
use crate::worker::error::{SqliteFailure, WorkerError};
use crate::worker::limits::WorkerLimits;
use vstd::prelude::*;

verus! {

/// A failure of the engine is told by its code: a stale snapshot, a busy or locked
/// database, a statement that is not authorized. Every other failure stays what it
/// is, unless its text speaks of a deadline or an interruption. Each answer says
/// whether a transaction is open.
pub proof fn failures_are_told_by_their_code(failure: SqliteFailure, open: bool, r: CoreError)
    requires
        call_ensures(classify_worker_error, (WorkerError::Sqlite(failure), open), r),
        !text::contains("sqlite: "@ + failure.text@, "TRANSACTION_EXPIRED"@),
    ensures
        failure.code == Some(517i32) ==> r == (CoreError::BusySnapshot {
            primary_code: 5,
            extended_code: 517,
            transaction_open: open,
            transaction_continuable: open,
        }),
        failure.code matches Some(c) ==> (c >= 0 && c != 517 && c % 256 == 5 ==> r
            == (CoreError::Busy {
            primary_code: 5,
            extended_code: c,
            transaction_open: open,
            transaction_continuable: open,
        })),
        failure.code matches Some(c) ==> (c >= 0 && c % 256 == 6 ==> r == (CoreError::Busy {
            primary_code: 6,
            extended_code: c,
            transaction_open: open,
            transaction_continuable: open,
        })),
        failure.code matches Some(c) ==> (c >= 0 && c % 256 == 23 ==> r
            == (CoreError::PolicyDenied { transaction_open: open, transaction_continuable: open })),
        (failure.code matches Some(c) ==> c < 0 || (c % 256 != 5 && c % 256 != 6 && c % 256 != 23))
            ==> if text::contains("sqlite: "@ + failure.text@, "deadline"@) || text::contains(
            "sqlite: "@ + failure.text@,
            "interrupted"@,
        ) {
            r == (CoreError::Cancelled { transaction_open: open, transaction_continuable: open })
        } else {
            r == CoreError::Worker(WorkerError::Sqlite(failure))
        },
{
}

/// An error that says that the transaction expired is told as that, whatever else it
/// is.
pub proof fn expired_transactions_are_told(error: WorkerError, open: bool, r: CoreError)
    requires
        call_ensures(classify_worker_error, (error, open), r),
        error matches WorkerError::Message(m) && text::contains(m@, "TRANSACTION_EXPIRED"@),
    ensures
        r == CoreError::TransactionExpired,
{
}

/// An interrupted request is told by who interrupted it, and in what state it left the
/// transaction.
pub proof fn interruptions_are_told_by_their_cause(
    by_client: bool,
    transaction_open: bool,
    transaction_continuable: bool,
    open: bool,
    r: CoreError,
)
    requires
        call_ensures(
            classify_worker_error,
            (
                WorkerError::Interrupted { by_client, transaction_open, transaction_continuable },
                open,
            ),
            r,
        ),
    ensures
        by_client ==> r == (CoreError::Cancelled { transaction_open, transaction_continuable }),
        !by_client ==> r == (CoreError::DeadlineExceeded {
            transaction_open,
            transaction_continuable,
        }),
{
    let said = "request interrupted"@;
    let part = "TRANSACTION_EXPIRED"@;
    reveal_strlit("request interrupted");
    reveal_strlit("TRANSACTION_EXPIRED");
    if text::contains(said, part) {
        let i = choose|i: int| text::occurs_at(said, part, i);
        assert(said.subrange(i, i + part.len())[0] == said[i]);
        assert(part[0] == 'T');
        assert(said[0] == 'r');
    }
}

/// A message that speaks of the policy is told as a denied statement, one that speaks
/// of a deadline or an interruption as a cancelled request. Any other is passed on.
pub proof fn messages_are_told_by_their_text(message: String, open: bool, r: CoreError)
    requires
        call_ensures(classify_worker_error, (WorkerError::Message(message), open), r),
        !text::contains(message@, "TRANSACTION_EXPIRED"@),
    ensures
        r is PolicyDenied <==> text::contains(message@, "denied by SQL policy"@),
        r is Cancelled <==> !text::contains(message@, "denied by SQL policy"@) && (text::contains(
            message@,
            "deadline"@,
        ) || text::contains(message@, "interrupted"@)),
        r is PolicyDenied || r is Cancelled || r == CoreError::Worker(
            WorkerError::Message(message),
        ),
        r matches CoreError::PolicyDenied { transaction_open, transaction_continuable } ==> transaction_open
            == open && transaction_continuable == open,
        r matches CoreError::Cancelled { transaction_open, transaction_continuable } ==> transaction_open
            == open && transaction_continuable == open,
{
}

/// Every kind of error has its own text.
pub proof fn errors_say_what_they_are(error: CoreError, r: String)
    requires
        call_ensures(CoreError::message, (&error,), r),
    ensures
        error is UnknownHandle ==> r@ == "handle not found"@,
        error is TransactionOpen ==> r@ == "transaction already open"@,
        error is SchemaRequired ==> r@ == "schema must be observed before begin"@,
        error is InvalidTransactionMode ==> r@
            == "invalid transaction mode; expected deferred or immediate"@,
        error is ReadonlyImmediate ==> r@ == "readonly handles only permit deferred transactions"@,
        error is AlreadyOpen ==> r@ == "database already open"@,
        error is InvalidDatabase ==> r@
            == "database file is not a valid initialized SQLite database"@,
        error is HandleLimitReached ==> r@ == "handle limit reached"@,
        error matches CoreError::Sqlite(e) ==> r@ == "sqlite: "@ + e.text@,
        error matches CoreError::Io(m) ==> r@ == "I/O: "@ + m@,
        error is SchemaTooLarge ==> r@ == "schema exceeds configured byte limit"@,
        error is SchemaStale ==> r@ == "schema observation is stale"@,
        error is TransactionExpired ==> r@ == "transaction expired"@,
        error is Cancelled ==> r@ == "request cancelled"@,
        error is DeadlineExceeded ==> r@ == "query deadline exceeded"@,
        error is PolicyDenied ==> r@ == "statement is denied by SQL policy"@,
        error is ServerShutdown ==> r@ == "server is shutting down"@,
        error matches CoreError::Merge(e) ==> r@ == e.message@,
        error matches CoreError::Worker(e) ==> r@ == e.text(),
        error matches CoreError::Path(e) ==> r@ == e.text(),
        error matches CoreError::Busy {
            primary_code,
            extended_code,
            transaction_open,
            transaction_continuable,
        } ==> r@ == "database busy "@ + ("(primary="@ + text::signed_decimal(primary_code as int)
            + ", extended="@ + text::signed_decimal(extended_code as int)) + ", transaction_open="@
            + (if transaction_open {
            "true"@
        } else {
            "false"@
        }) + ", continuable="@ + (if transaction_continuable {
            "true"@
        } else {
            "false"@
        }) + ")"@,
        error matches CoreError::BusySnapshot { primary_code, extended_code, .. } ==> r@
            == "database busy due to stale snapshot "@ + ("(primary="@ + text::signed_decimal(
            primary_code as int,
        ) + ", extended="@ + text::signed_decimal(extended_code as int)) + ")"@,
        error matches CoreError::Locked { primary_code, extended_code, .. } ==> r@
            == "database locked "@ + ("(primary="@ + text::signed_decimal(primary_code as int)
            + ", extended="@ + text::signed_decimal(extended_code as int)) + ")"@,
        error matches CoreError::CommitLifecycle { error: cause, .. } ==> r@ == cause.text(),
{
}

/// The worker's errors have texts of their own.
pub proof fn worker_errors_say_what_they_are(error: WorkerError, r: String)
    requires
        call_ensures(WorkerError::message, (&error,), r),
    ensures
        error is Closed ==> r@ == "worker closed"@,
        error matches WorkerError::Sqlite(e) ==> r@ == "sqlite: "@ + e.text@,
        error matches WorkerError::Message(m) ==> r@ == m@,
        error matches WorkerError::ResultTooLarge { retained_bytes, limit } ==> r@
            == "result too large: retained "@ + text::decimal(retained_bytes as nat)
            + " bytes exceeds limit "@ + text::decimal(limit as nat),
        error is Interrupted ==> r@ == "request interrupted"@,
{
}

/// A transaction is asked for by one of two words, and begun by the statement that
/// goes with it. Every other word is refused.
pub proof fn transactions_begin_as_asked(
    mode: &str,
    r: Result<bool, CoreError>,
    immediate: bool,
    statement: &str,
)
    requires
        call_ensures(parse_begin_mode, (mode,), r),
        call_ensures(begin_statement, (immediate,), statement),
    ensures
        mode@ == "deferred"@ ==> r == Ok::<bool, CoreError>(false),
        mode@ == "immediate"@ ==> r == Ok::<bool, CoreError>(true),
        mode@ != "deferred"@ && mode@ != "immediate"@ ==> r == Err::<bool, CoreError>(
            CoreError::InvalidTransactionMode,
        ),
        immediate ==> statement@ == "BEGIN IMMEDIATE"@,
        !immediate ==> statement@ == "BEGIN DEFERRED"@,
{
    operation::mode_words_are_distinct(TransactionMode::Deferred, TransactionMode::Immediate);
}

/// A transaction begins exactly where the schema version found is the one observed.
/// One that found another is stale, or its cleanup failed.
pub proof fn transactions_begin_on_the_observed_schema(
    found: i64,
    expected: i64,
    rolled_back: bool,
    autocommit: bool,
    r: Result<i64, WorkerError>,
)
    requires
        call_ensures(settle_begin, (found, expected, rolled_back, autocommit), r),
    ensures
        r is Ok <==> found == expected,
        r matches Ok(version) ==> version == found,
        r matches Err(e) ==> (e matches WorkerError::Message(m) && m@ == if rolled_back
            && autocommit {
            "SCHEMA_STALE"@
        } else {
            "begin cleanup failed; handle invalidated"@
        }),
{
}

/// A rollback succeeds exactly where no transaction is open afterwards and nothing
/// failed on the way; without an open transaction nothing can fail on the way.
pub proof fn rollbacks_leave_nothing_open(
    was_open: bool,
    injected: bool,
    rollback: Result<(), SqliteFailure>,
    autocommit: bool,
    r: Result<(), WorkerError>,
)
    requires
        call_ensures(settle_rollback, (was_open, injected, rollback, autocommit), r),
    ensures
        r is Ok <==> autocommit && (was_open ==> !injected && rollback is Ok),
        was_open && !injected && rollback is Err ==> r == Err::<(), WorkerError>(
            WorkerError::Sqlite(rollback->Err_0),
        ),
        r is Err && !(was_open && !injected && rollback is Err) ==> (r->Err_0 matches
            WorkerError::Message(m) && m@ == "rollback cleanup failed; handle invalidated"@),
{
}

/// A worker gets the limits that are configured, each its own, where the settings
/// are valid.
pub proof fn workers_get_the_configured_limits(
    settings: &Config,
    r: Result<WorkerLimits, CoreError>,
    readonly: bool,
    idle: u64,
)
    requires
        call_ensures(worker_limits, (settings,), r),
        call_ensures(idle_seconds, (settings, readonly), idle),
    ensures
        r matches Ok(limits) ==> {
            &&& limits.cell_byte_limit == settings.cell_byte_limit
            &&& limits.sql_byte_limit == settings.sql_byte_limit
            &&& limits.column_limit == settings.column_limit
            &&& limits.expression_depth == settings.expression_depth
            &&& limits.compound_terms == settings.compound_terms
            &&& limits.parameter_limit == settings.parameter_limit
        },
        r matches Err(e) ==> (e matches CoreError::Path(PathError::Io(_))),
        readonly ==> idle == settings.readonly_idle_seconds,
        !readonly ==> idle == settings.writable_idle_seconds,
{
}

/// A merge operation is let in exactly while the server runs and its client still
/// waits. Then it is listed behind all that run; otherwise its client is told why
/// not.
pub proof fn merges_are_let_in_while_running(
    registry: &mut AdmissionRegistry,
    cancelled: bool,
    r: Result<Reservation, CoreError>,
)
    requires
        old(registry).wf(),
        call_ensures(admit_merge, (registry, cancelled), r),
    ensures
        r is Ok <==> old(registry).state is Running && !cancelled,
        r matches Ok(reservation) ==> {
            &&& reservation.kind is TransientMerge
            &&& !reservation.cancelled
            &&& reservation.id == old(registry).next_id
            &&& final(registry).active@ == old(registry).active@.push(reservation)
        },
        !(old(registry).state is Running) ==> r == Err::<Reservation, CoreError>(
            CoreError::ServerShutdown,
        ) && final(registry).active@ == old(registry).active@,
        old(registry).state is Running && cancelled ==> r == Err::<Reservation, CoreError>(
            CoreError::Cancelled { transaction_open: false, transaction_continuable: false },
        ),
        final(registry).state == old(registry).state,
{
}

/// A close succeeds exactly where the connection is closed and the thread has ended.
pub proof fn closes_need_both_ends(
    shutdown: Result<ShutdownStatus, WorkerShutdownError>,
    r: Result<(), CoreError>,
)
    requires
        call_ensures(close_result, (shutdown,), r),
    ensures
        r is Ok <==> (shutdown matches Ok(status) && status.connection_closed
            && status.thread_joined),
        r matches Err(e) ==> (e matches CoreError::Worker(WorkerError::Message(_))),
{
}

/// The report of a shutdown holds every handle whose worker answered and no other. It
/// is a success exactly where every worker that is reported closed its connection and
/// ended its thread, and no task was lost.
pub proof fn shutdowns_report_every_worker(joins: Vec<ShutdownJoin>, r: ShutdownReport, i: int)
    requires
        call_ensures(shutdown_report, (joins,), r),
        0 <= i < joins@.len(),
    ensures
        joins@[i] matches ShutdownJoin::Ended { handle, .. } ==> exists|k: int|
            0 <= k < r.entries@.len() && (#[trigger] r.entries@[k]).0@ == handle@,
        forall|k: int|
            0 <= k < r.entries@.len() ==> lifecycle::is_among(
                joins@,
                joins@.len() as int,
                (#[trigger] r.entries@[k]).0@,
            ),
        joins@[i] is Lost ==> !r.succeeded(),
        r.succeeded() && lifecycle::comes_first(joins@, i) ==> (
        joins@[i] matches ShutdownJoin::Ended { result: Ok(status), .. }
            && status.connection_closed && status.thread_joined),
{
    assert forall|k: int| 0 <= k < r.entries@.len() implies lifecycle::is_among(
        joins@,
        joins@.len() as int,
        (#[trigger] r.entries@[k]).0@,
    ) by {
        assert(r.has(r.entries@[k].0@));
    }
    if let ShutdownJoin::Ended { handle, .. } = joins@[i] {
        assert(lifecycle::is_among(joins@, joins@.len() as int, handle@));
        assert(r.has(handle@));
    } else {
        assert(lifecycle::comes_first(joins@, i));
        assert(!lifecycle::ended_cleanly(joins@[i]));
    }
    if r.succeeded() && lifecycle::comes_first(joins@, i) {
        assert(lifecycle::ended_cleanly(joins@[i]));
    }
}

/// A table is reported with what was read of it, each part in its place.
pub proof fn tables_are_reported_as_read(
    name: String,
    without_rowid: i64,
    strict: i64,
    columns: Vec<SchemaColumn>,
    indexes: Vec<SchemaIndex>,
    foreign_keys: Vec<SchemaForeignKey>,
    r: SchemaTable,
)
    requires
        call_ensures(
            schema_table,
            (name, without_rowid, strict, columns, indexes, foreign_keys),
            r,
        ),
    ensures
        r.name == name,
        r.strict <==> strict != 0,
        r.without_rowid <==> without_rowid != 0,
        r.columns == columns,
        r.indexes == indexes,
        r.foreign_keys == foreign_keys,
{
}

/// Only a transaction that was begun for a reading is ended after it: committed after
/// a success, rolled back after a failure. The result stands exactly where the
/// transaction was not begun for the reading, or its end worked.
pub proof fn readings_end_what_they_began(
    managed: bool,
    succeeded: bool,
    cleanup: SchemaCleanup,
    result: Result<i64, WorkerError>,
    cleaned_up: bool,
    autocommit: bool,
    r: Result<i64, WorkerError>,
)
    requires
        call_ensures(schema_cleanup, (managed, succeeded), cleanup),
        call_ensures(settle_schema::<i64>, (managed, result, cleaned_up, autocommit), r),
    ensures
        cleanup is Nothing <==> !managed,
        cleanup is Commit <==> managed && succeeded,
        cleanup is Rollback <==> managed && !succeeded,
        !managed ==> r == result,
        managed && !cleaned_up ==> (r matches Err(WorkerError::Message(m)) && m@
            == "managed schema cleanup failed; handle invalidated"@),
        managed && cleaned_up && result is Ok ==> r == result,
        managed && cleaned_up && result is Err && autocommit ==> r == result,
        managed && result is Err && !autocommit ==> (r matches Err(WorkerError::Message(m)) && m@
            == "managed schema cleanup failed; handle invalidated"@),
{
}

} // verus!
