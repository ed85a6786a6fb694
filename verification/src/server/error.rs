//! Errors of operations.
use crate::merge::error::MergeError;
use crate::paths::PathError;
use crate::text;
use crate::text::{contains_text, signed_decimal_text};
use crate::worker::error::{SqliteFailure, WorkerError};
use vstd::prelude::*;

verus! {

/// Why an operation failed. What carries `transaction_open` and
/// `transaction_continuable` says in what state the worker left the
/// transaction.
#[derive(Debug, Clone)]
pub enum CoreError {
    Path(PathError),
    Worker(WorkerError),
    UnknownHandle,
    TransactionOpen,
    SchemaRequired,
    InvalidTransactionMode,
    ReadonlyImmediate,
    AlreadyOpen,
    InvalidDatabase,
    HandleLimitReached,
    Sqlite(SqliteFailure),
    Io(String),
    SchemaTooLarge,
    SchemaStale,
    TransactionExpired,
    Busy {
        primary_code: i32,
        extended_code: i32,
        transaction_open: bool,
        transaction_continuable: bool,
    },
    BusySnapshot {
        primary_code: i32,
        extended_code: i32,
        transaction_open: bool,
        transaction_continuable: bool,
    },
    Locked {
        primary_code: i32,
        extended_code: i32,
        transaction_open: bool,
        transaction_continuable: bool,
    },
    Cancelled { transaction_open: bool, transaction_continuable: bool },
    DeadlineExceeded { transaction_open: bool, transaction_continuable: bool },
    /// The statement is not allowed.
    PolicyDenied { transaction_open: bool, transaction_continuable: bool },
    ServerShutdown,
    Merge(MergeError),
    /// A commit whose outcome has more to say than its error.
    CommitLifecycle {
        error: Box<WorkerError>,
        commit_confirmed: bool,
        transaction_open: bool,
        transaction_continuable: bool,
        expired: bool,
        uncertain_or_invalidated: bool,
    },
}

/// A truth value as text.
pub open spec fn bool_text(b: bool) -> Seq<char> {
    if b {
        "true"@
    } else {
        "false"@
    }
}

pub fn bool_str(b: bool) -> (r: &'static str)
    ensures
        r@ == bool_text(b),
{
    if b {
        "true"
    } else {
        "false"
    }
}

/// Two result codes as text.
pub open spec fn codes_text(primary: i32, extended: i32) -> Seq<char> {
    "(primary="@ + text::signed_decimal(primary as int) + ", extended="@ + text::signed_decimal(
        extended as int,
    )
}

fn append_codes(s: &mut String, primary: i32, extended: i32)
    ensures
        final(s)@ == old(s)@ + codes_text(primary, extended),
{
    s.append("(primary=");
    s.append(signed_decimal_text(primary as i64).as_str());
    s.append(", extended=");
    s.append(signed_decimal_text(extended as i64).as_str());
    assert(s@ =~= old(s)@ + codes_text(primary, extended));
}

impl CoreError {
    /// The text of the error.
    pub open spec fn text(self) -> Seq<char> {
        match self {
            CoreError::Path(e) => e.text(),
            CoreError::Worker(e) => e.text(),
            CoreError::UnknownHandle => "handle not found"@,
            CoreError::TransactionOpen => "transaction already open"@,
            CoreError::SchemaRequired => "schema must be observed before begin"@,
            CoreError::InvalidTransactionMode => "invalid transaction mode; expected deferred or immediate"@,
            CoreError::ReadonlyImmediate => "readonly handles only permit deferred transactions"@,
            CoreError::AlreadyOpen => "database already open"@,
            CoreError::InvalidDatabase => "database file is not a valid initialized SQLite database"@,
            CoreError::HandleLimitReached => "handle limit reached"@,
            CoreError::Sqlite(e) => "sqlite: "@ + e.text@,
            CoreError::Io(m) => "I/O: "@ + m@,
            CoreError::SchemaTooLarge => "schema exceeds configured byte limit"@,
            CoreError::SchemaStale => "schema observation is stale"@,
            CoreError::TransactionExpired => "transaction expired"@,
            CoreError::Busy {
                primary_code,
                extended_code,
                transaction_open,
                transaction_continuable,
            } => "database busy "@ + codes_text(primary_code, extended_code) + ", transaction_open="@
                + bool_text(transaction_open) + ", continuable="@ + bool_text(
                transaction_continuable,
            ) + ")"@,
            CoreError::BusySnapshot { primary_code, extended_code, .. } => "database busy due to stale snapshot "@
                + codes_text(primary_code, extended_code) + ")"@,
            CoreError::Locked { primary_code, extended_code, .. } => "database locked "@
                + codes_text(primary_code, extended_code) + ")"@,
            CoreError::Cancelled { .. } => "request cancelled"@,
            CoreError::DeadlineExceeded { .. } => "query deadline exceeded"@,
            CoreError::PolicyDenied { .. } => "statement is denied by SQL policy"@,
            CoreError::ServerShutdown => "server is shutting down"@,
            CoreError::Merge(e) => e.message@,
            CoreError::CommitLifecycle { error, .. } => error.text(),
        }
    }

    /// The text of the error.
    pub fn message(&self) -> (r: String)
        ensures
            r@ == self.text(),
    {
        match self {
            CoreError::Path(e) => e.message(),
            CoreError::Worker(e) => e.message(),
            CoreError::UnknownHandle => "handle not found".to_owned(),
            CoreError::TransactionOpen => "transaction already open".to_owned(),
            CoreError::SchemaRequired => "schema must be observed before begin".to_owned(),
            CoreError::InvalidTransactionMode => {
                "invalid transaction mode; expected deferred or immediate".to_owned()
            },
            CoreError::ReadonlyImmediate => {
                "readonly handles only permit deferred transactions".to_owned()
            },
            CoreError::AlreadyOpen => "database already open".to_owned(),
            CoreError::InvalidDatabase => {
                "database file is not a valid initialized SQLite database".to_owned()
            },
            CoreError::HandleLimitReached => "handle limit reached".to_owned(),
            CoreError::Sqlite(e) => {
                let mut s = "sqlite: ".to_owned();
                s.append(e.text.as_str());
                s
            },
            CoreError::Io(m) => {
                let mut s = "I/O: ".to_owned();
                s.append(m.as_str());
                s
            },
            CoreError::SchemaTooLarge => "schema exceeds configured byte limit".to_owned(),
            CoreError::SchemaStale => "schema observation is stale".to_owned(),
            CoreError::TransactionExpired => "transaction expired".to_owned(),
            CoreError::Busy {
                primary_code,
                extended_code,
                transaction_open,
                transaction_continuable,
            } => {
                let mut s = "database busy ".to_owned();
                append_codes(&mut s, *primary_code, *extended_code);
                s.append(", transaction_open=");
                s.append(bool_str(*transaction_open));
                s.append(", continuable=");
                s.append(bool_str(*transaction_continuable));
                s.append(")");
                s
            },
            CoreError::BusySnapshot { primary_code, extended_code, .. } => {
                let mut s = "database busy due to stale snapshot ".to_owned();
                append_codes(&mut s, *primary_code, *extended_code);
                s.append(")");
                s
            },
            CoreError::Locked { primary_code, extended_code, .. } => {
                let mut s = "database locked ".to_owned();
                append_codes(&mut s, *primary_code, *extended_code);
                s.append(")");
                s
            },
            CoreError::Cancelled { .. } => "request cancelled".to_owned(),
            CoreError::DeadlineExceeded { .. } => "query deadline exceeded".to_owned(),
            CoreError::PolicyDenied { .. } => "statement is denied by SQL policy".to_owned(),
            CoreError::ServerShutdown => "server is shutting down".to_owned(),
            CoreError::Merge(e) => e.message.as_str().to_owned(),
            CoreError::CommitLifecycle { error, .. } => error.message(),
        }
    }

    /// The error is that of a worker, with nothing but this message.
    pub open spec fn is_worker_message(self, message: Seq<char>) -> bool {
        self matches CoreError::Worker(e) && e.is_message(message)
    }

    /// An error of a worker with a fixed message.
    pub fn worker_message(message: &str) -> (r: Self)
        ensures
            r.is_worker_message(message@),
    {
        CoreError::Worker(WorkerError::because(message))
    }
}

/// Result codes of SQLite: busy, locked, not authorized, and a busy snapshot.
pub const SQLITE_BUSY: i32 = 5;

pub const SQLITE_LOCKED: i32 = 6;

pub const SQLITE_AUTH: i32 = 23;

pub const SQLITE_BUSY_SNAPSHOT: i32 = 517;

/// The extended result code of a failure; -1 where it carries none.
pub open spec fn extended_of(e: SqliteFailure) -> i32 {
    match e.code {
        Some(code) => code,
        None => -1i32,
    }
}

/// The primary result code within an extended one.
pub open spec fn primary_of(extended: i32) -> i32 {
    if extended >= 0 {
        (extended % 256) as i32
    } else {
        -1i32
    }
}

/// What a worker's error is to the caller. `open` tells whether a transaction
/// was open for all that is known otherwise.
pub open spec fn classified(error: WorkerError, open: bool) -> CoreError {
    if error.says("TRANSACTION_EXPIRED"@) {
        CoreError::TransactionExpired
    } else {
        match error {
            WorkerError::Sqlite(e) => {
                let extended_code = extended_of(e);
                let primary_code = primary_of(extended_code);
                if extended_code == SQLITE_BUSY_SNAPSHOT {
                    CoreError::BusySnapshot {
                        primary_code,
                        extended_code,
                        transaction_open: open,
                        transaction_continuable: open,
                    }
                } else if primary_code == SQLITE_BUSY || primary_code == SQLITE_LOCKED {
                    CoreError::Busy {
                        primary_code,
                        extended_code,
                        transaction_open: open,
                        transaction_continuable: open,
                    }
                } else if primary_code == SQLITE_AUTH {
                    CoreError::PolicyDenied { transaction_open: open, transaction_continuable: open }
                } else {
                    by_text(error, open)
                }
            },
            WorkerError::Interrupted { by_client, transaction_open, transaction_continuable } => {
                if by_client {
                    CoreError::Cancelled { transaction_open, transaction_continuable }
                } else {
                    CoreError::DeadlineExceeded { transaction_open, transaction_continuable }
                }
            },
            WorkerError::Message(m) => if text::contains(m@, "denied by SQL policy"@) {
                CoreError::PolicyDenied { transaction_open: open, transaction_continuable: open }
            } else {
                by_text(error, open)
            },
            _ => by_text(error, open),
        }
    }
}

/// What an error is whose text alone can tell.
pub open spec fn by_text(error: WorkerError, open: bool) -> CoreError {
    if error.says("deadline"@) || error.says("interrupted"@) {
        CoreError::Cancelled { transaction_open: open, transaction_continuable: open }
    } else {
        CoreError::Worker(error)
    }
}

fn classify_by_text(error: WorkerError, open: bool) -> (r: CoreError)
    ensures
        r == by_text(error, open),
{
    if error.mentions("deadline") || error.mentions("interrupted") {
        CoreError::Cancelled { transaction_open: open, transaction_continuable: open }
    } else {
        CoreError::Worker(error)
    }
}

/// Tells a caller what a worker's error is.
pub fn classify_worker_error(error: WorkerError, transaction_open: bool) -> (r: CoreError)
    ensures
        r == classified(error, transaction_open),
{
    if error.mentions("TRANSACTION_EXPIRED") {
        return CoreError::TransactionExpired;
    }
    let open = transaction_open;
    match &error {
        WorkerError::Sqlite(e) => {
            let extended: i32 = match e.code {
                Some(code) => code,
                None => -1,
            };
            let primary: i32 = if extended >= 0 {
                extended % 256
            } else {
                -1
            };
            if extended == SQLITE_BUSY_SNAPSHOT {
                return CoreError::BusySnapshot {
                    primary_code: primary,
                    extended_code: extended,
                    transaction_open: open,
                    transaction_continuable: open,
                };
            }
            if primary == SQLITE_BUSY || primary == SQLITE_LOCKED {
                return CoreError::Busy {
                    primary_code: primary,
                    extended_code: extended,
                    transaction_open: open,
                    transaction_continuable: open,
                };
            }
            if primary == SQLITE_AUTH {
                return CoreError::PolicyDenied {
                    transaction_open: open,
                    transaction_continuable: open,
                };
            }
        },
        WorkerError::Interrupted { by_client, transaction_open, transaction_continuable } => {
            return if *by_client {
                CoreError::Cancelled {
                    transaction_open: *transaction_open,
                    transaction_continuable: *transaction_continuable,
                }
            } else {
                CoreError::DeadlineExceeded {
                    transaction_open: *transaction_open,
                    transaction_continuable: *transaction_continuable,
                }
            };
        },
        WorkerError::Message(m) => {
            if contains_text(m.as_str(), "denied by SQL policy") {
                return CoreError::PolicyDenied {
                    transaction_open: open,
                    transaction_continuable: open,
                };
            }
        },
        _ => {},
    }
    classify_by_text(error, open)
}

} // verus!
