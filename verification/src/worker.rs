//! The thread that owns one database connection.
//!
//! The thread takes one command at a time. What it does for a command is
//! decided here; the connection itself stays with whoever runs the thread.
pub mod arms;
pub mod busy;
pub mod commands;
pub mod error;
pub mod limits;

pub use crate::worker::error::{SqliteFailure, WorkerError};
