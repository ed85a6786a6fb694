//! What extraction and import report.
use vstd::prelude::*;

verus! {

/// The files of a merge workspace, as far as they were written.
#[derive(Debug, Clone)]
pub struct Files {
    pub base_sql: Option<String>,
    pub ours_sql: Option<String>,
    pub theirs_sql: Option<String>,
    pub resolved_sql: Option<String>,
}

/// The sizes of the files of a merge workspace in bytes.
#[derive(Debug, Clone, Copy, PartialEq, Eq, Structural)]
pub struct FileByteCounts {
    pub base_sql: u64,
    pub ours_sql: u64,
    pub theirs_sql: u64,
    pub resolved_sql: u64,
    pub manifest: u64,
}

/// What was seen of one file of a source database.
#[derive(Debug, Clone, PartialEq, Eq)]
pub struct SidecarObservation {
    pub kind: String,
    pub path: String,
    pub present: bool,
    pub device_inode: Option<[u64; 2]>,
    pub size_bytes: Option<u64>,
    pub mtime_ns: Option<u128>,
    pub sha256_hex: Option<String>,
}

/// What was seen of a source database and its sidecar files.
#[derive(Debug, Clone, PartialEq, Eq)]
pub struct SourceObservation {
    pub label: String,
    pub phase: String,
    pub main: SidecarObservation,
    pub rollback_journal: SidecarObservation,
    pub wal: SidecarObservation,
    pub shm: SidecarObservation,
}

/// A finished extraction.
#[derive(Debug, Clone)]
pub struct ExtractionResult {
    pub workspace_path: String,
    pub files: Files,
    pub manifest_path: String,
    pub source_observations: Vec<SourceObservation>,
    pub file_byte_counts: FileByteCounts,
    pub format_version: u8,
    pub workspace_state: String,
}

/// How many objects and tables a database has.
#[derive(Debug, Clone, Copy, PartialEq, Eq, Structural)]
pub struct SchemaSummary {
    pub object_count: u64,
    pub table_count: u64,
}

/// The outcome of the foreign key check.
#[derive(Debug, Clone, Copy, PartialEq, Eq, Structural)]
pub struct ForeignKeyCheck {
    pub ok: bool,
    pub violations: u64,
}

/// The outcome of the integrity check.
#[derive(Debug, Clone)]
pub struct IntegrityCheck {
    pub ok: bool,
    pub message: String,
}

/// How an imported database was checked.
#[derive(Debug, Clone)]
pub struct ImportValidation {
    pub journal_mode: String,
    pub schema_summary: SchemaSummary,
    pub foreign_key_check: ForeignKeyCheck,
    pub integrity_check: IntegrityCheck,
}

/// A finished import.
#[derive(Debug, Clone)]
pub struct ImportResult {
    pub output_path: String,
    pub output_state: String,
    pub statement_count: u64,
    pub byte_count: u64,
    pub validation: ImportValidation,
}

} // verus!
