//! How transactions begin and end on the connection.
use crate::operation::TransactionMode;
use crate::operation;
use crate::server::error::CoreError;
use crate::worker::error::{SqliteFailure, WorkerError};
use vstd::prelude::*;

verus! {

/// Reads the mode of a transaction. Returns whether it is immediate; nothing but
/// a deferred or an immediate transaction can be asked for.
pub fn parse_begin_mode(mode: &str) -> (r: Result<bool, CoreError>)
    ensures
        match r {
            Ok(immediate) => mode@ == operation::mode_word(
                if immediate {
                    TransactionMode::Immediate
                } else {
                    TransactionMode::Deferred
                },
            ),
            Err(e) => {
                &&& e is InvalidTransactionMode
                &&& mode@ != operation::mode_word(TransactionMode::Deferred)
                &&& mode@ != operation::mode_word(TransactionMode::Immediate)
            },
        },
{
    match TransactionMode::parse(mode) {
        Some(TransactionMode::Deferred) => Ok(false),
        Some(TransactionMode::Immediate) => Ok(true),
        Some(TransactionMode::Exclusive) => {
            proof {
                operation::mode_words_are_distinct(
                    TransactionMode::Exclusive,
                    TransactionMode::Deferred,
                );
                operation::mode_words_are_distinct(
                    TransactionMode::Exclusive,
                    TransactionMode::Immediate,
                );
            }
            Err(CoreError::InvalidTransactionMode)
        },
        None => Err(CoreError::InvalidTransactionMode),
    }
}

/// The statement that begins a transaction.
pub fn begin_statement(immediate: bool) -> (r: &'static str)
    ensures
        r@ == if immediate {
            "BEGIN IMMEDIATE"@
        } else {
            "BEGIN DEFERRED"@
        },
{
    if immediate {
        "BEGIN IMMEDIATE"
    } else {
        "BEGIN DEFERRED"
    }
}

/// Judges the schema version that a new transaction found. A transaction that
/// found another than the observed one was rolled back; `rolled_back` and
/// `autocommit` tell what that gave.
pub fn settle_begin(found: i64, expected: i64, rolled_back: bool, autocommit: bool) -> (r: Result<
    i64,
    WorkerError,
>)
    ensures
        if found == expected {
            r == Ok::<i64, WorkerError>(found)
        } else if rolled_back && autocommit {
            r matches Err(e) && e.is_message("SCHEMA_STALE"@)
        } else {
            r matches Err(e) && e.is_message("begin cleanup failed; handle invalidated"@)
        },
{
    if found == expected {
        Ok(found)
    } else if rolled_back && autocommit {
        Err(WorkerError::because("SCHEMA_STALE"))
    } else {
        Err(WorkerError::because("begin cleanup failed; handle invalidated"))
    }
}

/// Judges a rollback that was asked for. Without an open transaction there is
/// nothing to do. `injected` tells whether a failure was injected.
pub fn settle_rollback(
    was_open: bool,
    injected: bool,
    rollback: Result<(), SqliteFailure>,
    autocommit: bool,
) -> (r: Result<(), WorkerError>)
    ensures
        if was_open && injected {
            r matches Err(e) && e.is_message("rollback cleanup failed; handle invalidated"@)
        } else {
            match rollback {
                Err(failure) if was_open => r == Err::<(), WorkerError>(
                    WorkerError::Sqlite(failure),
                ),
                _ => if autocommit {
                    r is Ok
                } else {
                    r matches Err(e) && e.is_message("rollback cleanup failed; handle invalidated"@)
                },
            }
        },
{
    if was_open {
        if injected {
            return Err(WorkerError::because("rollback cleanup failed; handle invalidated"));
        }
        if let Err(failure) = rollback {
            return Err(WorkerError::Sqlite(failure));
        }
    }
    if !autocommit {
        return Err(WorkerError::because("rollback cleanup failed; handle invalidated"));
    }
    Ok(())
}

} // verus!
