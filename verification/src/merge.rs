//! Merge snapshots of SQLite databases as SQL text, and their safe import.
//!
//! The text is a protocol format: the importer treats it as untrusted input
//! and owns the destination transaction and the life cycle of its output file.
pub mod baseline;
pub mod contents;
pub mod error;
pub mod extract;
pub mod extract_history;
pub mod import;
pub mod import_history;
pub mod inert;
pub mod literals;
pub mod lossless;
pub mod manifest;
pub mod order;
pub mod planning;
pub mod premises;
pub mod reading;
pub mod replay;
pub mod results;
pub mod roundtrip;
pub mod schema;
pub mod snapshot;
pub mod source;
pub mod statements;
pub mod values;

pub use crate::merge::baseline::FORMAT_HEADER;
pub use crate::merge::error::MergeError;
pub use crate::merge::extract::MANIFEST_BYTE_LIMIT;
pub use crate::merge::results::{
    ExtractionResult, FileByteCounts, Files, ImportResult, ImportValidation,
};
