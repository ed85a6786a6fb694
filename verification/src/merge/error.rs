//! Errors of extraction and import.
use crate::merge::results::{FileByteCounts, Files, SourceObservation};
use vstd::prelude::*;

verus! {

/// An error class with its message: what a caller tells apart.
pub type Fault = (Seq<char>, Seq<char>);

/// What an error says beyond its class and message.
#[derive(Debug, Clone)]
pub enum MergeDetails {
    /// Nothing.
    Null,
    /// The label of the source that the error is about.
    Label(String),
    /// How far an extraction came.
    Extraction(ExtractionDetails),
    /// How far an import came.
    Import(ImportDetails),
}

/// How far a failed extraction came.
#[derive(Debug, Clone)]
pub struct ExtractionDetails {
    pub workspace_path: Option<String>,
    pub files: Files,
    pub manifest_path: Option<String>,
    pub source_observations: Vec<SourceObservation>,
    pub file_byte_counts: FileByteCounts,
    pub format_version: Option<u8>,
    pub workspace_state: &'static str,
    pub cleanup_errors: Vec<String>,
    pub root_class: Option<&'static str>,
}

/// How far a failed import came.
#[derive(Debug, Clone)]
pub struct ImportDetails {
    pub output_path: Option<String>,
    pub output_state: &'static str,
    pub statement_count: u64,
    pub byte_count: u64,
    pub cleanup_errors: Vec<String>,
    pub root_class: Option<&'static str>,
}

/// A refused or failed merge operation.
#[derive(Debug, Clone)]
pub struct MergeError {
    pub class: &'static str,
    pub message: String,
    pub details: MergeDetails,
}

impl MergeError {
    /// The class and the message.
    pub open spec fn fault(self) -> Fault {
        (self.class@, self.message@)
    }

    /// An error without details.
    pub fn new(class: &'static str, message: &str) -> (r: Self)
        ensures
            r.fault() == (class@, message@),
            r.details is Null,
    {
        MergeError { class, message: message.to_owned(), details: MergeDetails::Null }
    }

    /// An error without details whose message is built at run time.
    pub fn with_message(class: &'static str, message: String) -> (r: Self)
        ensures
            r.fault() == (class@, message@),
            r.details is Null,
    {
        MergeError { class, message, details: MergeDetails::Null }
    }
}

} // verus!
