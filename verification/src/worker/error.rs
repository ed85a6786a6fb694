//! Errors of a worker.
use crate::text;
use crate::text::{contains_text, decimal_text};
use vstd::prelude::*;

verus! {

/// A failure that SQLite reported.
#[derive(Debug, Clone, PartialEq, Eq)]
pub struct SqliteFailure {
    /// The extended result code, where the failure carries one.
    pub code: Option<i32>,
    /// The text of the failure.
    pub text: String,
}

/// Why a request to a worker failed.
#[derive(Debug, Clone)]
pub enum WorkerError {
    /// The worker takes no more commands.
    Closed,
    Sqlite(SqliteFailure),
    Message(String),
    ResultTooLarge { retained_bytes: usize, limit: usize },
    /// The request was interrupted, by the client or by its deadline.
    Interrupted { by_client: bool, transaction_open: bool, transaction_continuable: bool },
}

impl WorkerError {
    /// The text of the error.
    pub open spec fn text(self) -> Seq<char> {
        match self {
            WorkerError::Closed => "worker closed"@,
            WorkerError::Sqlite(e) => "sqlite: "@ + e.text@,
            WorkerError::Message(m) => m@,
            WorkerError::ResultTooLarge { retained_bytes, limit } => "result too large: retained "@
                + text::decimal(retained_bytes as nat) + " bytes exceeds limit "@ + text::decimal(
                limit as nat,
            ),
            WorkerError::Interrupted { .. } => "request interrupted"@,
        }
    }

    /// The error says this.
    pub open spec fn says(self, part: Seq<char>) -> bool {
        text::contains(self.text(), part)
    }

    /// The error is nothing but this message.
    pub open spec fn is_message(self, message: Seq<char>) -> bool {
        self matches WorkerError::Message(m) && m@ == message
    }

    /// An error with a fixed message.
    pub fn because(message: &str) -> (r: Self)
        ensures
            r.is_message(message@),
    {
        WorkerError::Message(message.to_owned())
    }

    /// The text of the error.
    pub fn message(&self) -> (r: String)
        ensures
            r@ == self.text(),
    {
        match self {
            WorkerError::Closed => "worker closed".to_owned(),
            WorkerError::Sqlite(e) => {
                let mut s = "sqlite: ".to_owned();
                s.append(e.text.as_str());
                s
            },
            WorkerError::Message(m) => m.as_str().to_owned(),
            WorkerError::ResultTooLarge { retained_bytes, limit } => {
                let mut s = "result too large: retained ".to_owned();
                s.append(decimal_text(*retained_bytes as u64).as_str());
                s.append(" bytes exceeds limit ");
                s.append(decimal_text(*limit as u64).as_str());
                s
            },
            WorkerError::Interrupted { .. } => "request interrupted".to_owned(),
        }
    }

    /// Whether the text of the error holds `part`.
    pub fn mentions(&self, part: &str) -> (r: bool)
        ensures
            r == self.says(part@),
    {
        let message = self.message();
        contains_text(message.as_str(), part)
    }

    /// Whether SQLite reported the error.
    pub fn is_sqlite(&self) -> (r: bool)
        ensures
            r == (self is Sqlite),
    {
        match self {
            WorkerError::Sqlite(_) => true,
            _ => false,
        }
    }
}

} // verus!
