//! The open databases of a server and what is done with them.
pub mod answers;
pub mod batch;
pub mod batch_history;
pub mod error;
pub mod files;
pub mod lifecycle;
pub mod lifetimes;
pub mod publish;
pub mod query;
pub mod registry;
pub mod schema_history;
pub mod schema_read;
pub mod schema_run;
pub mod schema_text;
pub mod transaction;
pub mod verdicts;
pub mod wording;

pub use crate::server::error::CoreError;
pub use crate::server::query::QueryResult;
