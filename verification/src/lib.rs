//! Core of a local SQLite server.
//!
//! Agents open databases by absolute path, observe their schema, and run
//! statements inside explicit transactions. Two databases and their common
//! ancestor can be written out as text for a merge, and the merged text can be
//! read into a new database.
//!
//! What is decided and computed stands here. Connections, files, threads and the
//! protocol belong to whoever uses the library: it asks what to do next, does it,
//! and hands the outcome back.
pub mod admission;
pub mod characters;
pub mod config;
pub mod emissions;
pub mod envelope;
pub mod handles;
pub mod json;
pub mod merge;
pub mod operation;
pub mod outside;
pub mod paths;
pub mod policy;
pub mod schema;
pub mod server;
pub mod sql;
pub mod sqltext;
pub mod test_support;
pub mod text;
pub mod tools;
pub mod worker;

pub use config::{Config, ConfigError};
pub use envelope::{Envelope, ErrorBody, ErrorInfo, HandleState};
pub use handles::Handle;
pub use merge::{
    ExtractionResult, FileByteCounts, Files, ImportResult, ImportValidation, MergeError,
};
pub use operation::{
    CleanupFailure, CleanupStage, EffectiveLimits, InterruptionCause, LimitInstallError,
    OperationKind, OperationOutcome, ShutdownReport, ShutdownStatus, TransactionMode,
    WorkerShutdownError,
};
pub use server::{CoreError, QueryResult};
pub use sql::Cell;
