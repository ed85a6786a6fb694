//! What the files of a merge operation must be like, and what a failed operation
//! leaves behind.
use crate::merge::error::{MergeDetails, MergeError};
use crate::merge::extract::{unstarted_error, ExtractRun};
use crate::merge::import::{preflight_error, ImportRun};
use crate::merge::results::{SidecarObservation, SourceObservation};
use crate::merge::roundtrip;
use crate::merge::source::{
    check_artifact_size, check_output_literal, check_output_path, check_source_file,
    check_source_literal, check_text_literal, is_literal, is_unchanged, observe, read_text,
    source_observation, workspace_step, ExclusiveOutputOwner, FileState, OutputState, ParentState,
    WorkspaceReply, WorkspaceStep,
};
use crate::outside;
use vstd::prelude::*;
use vstd::utf8::*;

verus! {

/// A path is taken exactly where it starts at the root and holds no NUL, whichever
/// file it is for; each file has its own refusal.
pub proof fn paths_start_at_the_root(
    path: &str,
    literal: bool,
    source: Result<(), MergeError>,
    sql: Result<(), MergeError>,
    output: Result<(), MergeError>,
)
    requires
        call_ensures(is_literal, (path,), literal),
        call_ensures(check_source_literal, (path,), source),
        call_ensures(check_text_literal, (path,), sql),
        call_ensures(check_output_literal, (path,), output),
    ensures
        literal <==> path@.len() > 0 && path@[0] == '/' && forall|i: int|
            0 <= i < path@.len() ==> path@[i] != '\0',
        source is Ok <==> literal,
        sql is Ok <==> literal,
        output is Ok <==> literal,
        source matches Err(e) ==> e.class@ == "MERGE_INPUT_INVALID"@,
        sql matches Err(e) ==> e.class@ == "MERGE_FORMAT_INVALID"@,
        output matches Err(e) ==> e.class@ == "MERGE_OUTPUT_EXISTS"@,
{
    if literal {
        assert forall|i: int| 0 <= i < path@.len() implies path@[i] != '\0' by {
            assert(!path@.contains('\0'));
        }
    }
}

/// A file that is missing is observed as missing, and a regular file with its
/// identity, size, time and digest. Everything else is a failure.
pub proof fn files_are_observed_as_they_are(
    kind: &str,
    path: Option<String>,
    state: FileState,
    cap: usize,
    r: Result<SidecarObservation, String>,
)
    requires
        call_ensures(observe, (kind, path, state, cap), r),
    ensures
        path is None ==> r is Err,
        r matches Ok(o) ==> o.kind@ == kind@ && o.path@ == path->0@,
        path is Some && state is Missing ==> (r matches Ok(o) && !o.present && o.device_inode is None
            && o.size_bytes is None && o.mtime_ns is None && o.sha256_hex is None),
        path is Some ==> (state matches FileState::Failed(m) ==> (r matches Err(e) && e@ == m@)),
        path is Some && state is NotRegular ==> (r matches Err(e) && e@ == kind@
            + " sidecar is not a regular file"@),
        path is Some ==> (state matches FileState::Regular {
            device_inode,
            size_bytes,
            mtime_ns,
            contents,
        } ==> if contents@.len() <= cap {
            r matches Ok(o) && {
                &&& o.present
                &&& o.size_bytes == Some(size_bytes)
                &&& o.mtime_ns == mtime_ns
                &&& o.sha256_hex matches Some(hex) && hex@ == outside::sha256_hex(contents@)
                &&& (o.device_inode is Some <==> device_inode is Some)
                &&& device_inode matches Some(id) ==> o.device_inode->0@ == id@
            }
        } else {
            r is Err
        }),
{
}

/// A source is taken exactly where all four files could be looked at and none of a
/// journal, a log and shared memory is beside it. What is reported of it is what was
/// seen, each file in its place.
pub proof fn sources_stand_alone(
    label: &str,
    phase: &str,
    main: Result<SidecarObservation, String>,
    journal: Result<SidecarObservation, String>,
    wal: Result<SidecarObservation, String>,
    shm: Result<SidecarObservation, String>,
    r: Result<SourceObservation, MergeError>,
)
    requires
        call_ensures(source_observation, (label, phase, main, journal, wal, shm), r),
    ensures
        r is Ok <==> main is Ok && (journal matches Ok(j) && !j.present) && (wal matches Ok(w)
            && !w.present) && (shm matches Ok(s) && !s.present),
        r matches Ok(o) ==> o.label@ == label@ && o.phase@ == phase@ && o.main == main->Ok_0
            && o.rollback_journal == journal->Ok_0 && o.wal == wal->Ok_0 && o.shm == shm->Ok_0,
        r matches Err(e) ==> e.class@ == "MERGE_INPUT_INVALID"@,
        main matches Err(m) ==> r->Err_0.message@ == m@,
        main is Ok && journal is Ok && wal is Ok && shm is Ok && r is Err ==> r->Err_0.message@
            == label@ + " has unsupported SQLite sidecar files"@,
{
}

/// Two observations of a file say the same.
pub open spec fn say_the_same(a: SidecarObservation, b: SidecarObservation) -> bool {
    &&& a.kind@ == b.kind@
    &&& a.path@ == b.path@
    &&& a.present == b.present
    &&& a.size_bytes == b.size_bytes
    &&& a.mtime_ns == b.mtime_ns
    &&& (a.device_inode is Some <==> b.device_inode is Some)
    &&& a.device_inode is Some ==> a.device_inode->0@ == b.device_inode->0@
    &&& (a.sha256_hex is Some <==> b.sha256_hex is Some)
    &&& a.sha256_hex is Some ==> a.sha256_hex->0@ == b.sha256_hex->0@
}

/// A source counts as unchanged exactly where each of its four files is the same in
/// identity, size, time and digest.
pub proof fn every_change_is_seen(a: &SourceObservation, b: &SourceObservation, r: bool)
    requires
        call_ensures(is_unchanged, (a, b), r),
    ensures
        r <==> say_the_same(a.main, b.main) && say_the_same(a.rollback_journal, b.rollback_journal)
            && say_the_same(a.wal, b.wal) && say_the_same(a.shm, b.shm),
{
    lemma_views_tell(a.main, b.main);
    lemma_views_tell(a.rollback_journal, b.rollback_journal);
    lemma_views_tell(a.wal, b.wal);
    lemma_views_tell(a.shm, b.shm);
}

proof fn lemma_views_tell(a: SidecarObservation, b: SidecarObservation)
    ensures
        a@ == b@ <==> say_the_same(a, b),
{
    if a@ == b@ {
        assert(a@.3 == b@.3);
        assert(a@.6 == b@.6);
    }
}

/// What is written is within its limit, and its size is told as it is.
pub proof fn artifacts_are_within_their_limit(len: usize, cap: usize, r: Result<u64, String>)
    requires
        call_ensures(check_artifact_size, (len, cap), r),
    ensures
        r is Ok <==> len <= cap,
        r matches Ok(n) ==> n == len,
{
}

/// A source is a regular file that starts with the sixteen bytes of a database.
pub proof fn sources_are_databases(is_file: bool, header: &[u8], r: Result<(), MergeError>)
    requires
        call_ensures(check_source_file, (is_file, header), r),
    ensures
        r is Ok <==> is_file && header@ == seq![
            0x53u8,
            0x51u8,
            0x4cu8,
            0x69u8,
            0x74u8,
            0x65u8,
            0x20u8,
            0x66u8,
            0x6fu8,
            0x72u8,
            0x6du8,
            0x61u8,
            0x74u8,
            0x20u8,
            0x33u8,
            0x00u8,
        ],
        r matches Err(e) ==> e.class@ == "MERGE_INPUT_INVALID"@ && e.message@ == if !is_file {
            "merge source is not a regular file"@
        } else {
            "source is not an initialized SQLite database"@
        },
{
    reveal_strlit("SQLite format 3\0");
    roundtrip::lemma_ascii_codes("SQLite format 3\0"@);
    assert(roundtrip::codes("SQLite format 3\0"@) =~= seq![
        0x53u8,
        0x51u8,
        0x4cu8,
        0x69u8,
        0x74u8,
        0x65u8,
        0x20u8,
        0x66u8,
        0x6fu8,
        0x72u8,
        0x6du8,
        0x61u8,
        0x74u8,
        0x20u8,
        0x33u8,
        0x00u8,
    ]);
}

/// A merge text is taken exactly where it is within its limit, holds no NUL and is
/// UTF-8. It is then the text of exactly these bytes.
pub proof fn texts_are_read_whole(bytes: Vec<u8>, limit: usize, r: Result<(String, u64), MergeError>)
    requires
        call_ensures(read_text, (bytes, limit), r),
    ensures
        r is Ok <==> bytes@.len() <= limit && !bytes@.contains(0u8) && valid_utf8(bytes@),
        r matches Ok(v) ==> encode_utf8(v.0@) == bytes@ && v.1 == bytes@.len(),
        r matches Err(e) ==> e.class@ == if bytes@.len() > limit {
            "MERGE_LIMIT_EXCEEDED"@
        } else {
            "MERGE_FORMAT_INVALID"@
        },
{
}

/// An output is created exactly where its directory is there, its name is one, and
/// nothing stands in its place: neither it nor a file beside it, nor the source.
pub proof fn outputs_are_new(state: OutputState, r: Result<(), MergeError>)
    requires
        call_ensures(check_output_path, (state,), r),
    ensures
        r is Ok <==> state.parent is Resolved && state.has_file_name && !state.is_source
            && !state.exists && state.is_utf8 && !state.sidecar_exists,
        r matches Err(e) ==> match state.parent {
            ParentState::Unresolved(m) => e.class@ == "MERGE_INPUT_INVALID"@ && e.message@ == m@,
            ParentState::Missing => e.class@ == "MERGE_OUTPUT_EXISTS"@ && e.message@
                == "output parent is missing"@,
            ParentState::NotDirectory => e.class@ == "MERGE_OUTPUT_EXISTS"@ && e.message@
                == "output parent does not exist"@,
            ParentState::Resolved => e.class@ == "MERGE_OUTPUT_EXISTS"@ && e.message@
                == if !state.has_file_name {
                "output filename is missing"@
            } else if state.is_source {
                "SQL source and output alias the same file"@
            } else if state.exists {
                "output already exists"@
            } else if !state.is_utf8 {
                "output filename is not valid UTF-8"@
            } else {
                "output sidecar path is already reserved"@
            },
        },
{
}

/// A workspace is used exactly where nobody else may enter it, and another name is
/// tried exactly where one is taken, fifteen times at most.
pub proof fn workspaces_are_private(attempt: u8, reply: WorkspaceReply, r: WorkspaceStep)
    requires
        call_ensures(workspace_step, (attempt, reply), r),
    ensures
        r is Use <==> (reply matches WorkspaceReply::Created(mode) && mode % 512 == 448),
        r is Discard <==> (reply matches WorkspaceReply::Created(mode) && mode % 512 != 448),
        r is Retry <==> reply is Taken && attempt < 15,
        reply matches WorkspaceReply::Failed(m) ==> (r matches WorkspaceStep::Fail(e) && e.message@
            == m@),
{
}

/// What a process created is known by its identity: the file is its own exactly while
/// the path names that file, and nothing else is ever removed.
pub proof fn only_own_files_are_removed(
    descriptor: Option<[u64; 2]>,
    target: Option<[u64; 2]>,
    captured: Result<ExclusiveOutputOwner, String>,
    owner: &ExclusiveOutputOwner,
    found: Result<Option<Option<[u64; 2]>>, String>,
    owned: Result<bool, String>,
    removal: Result<(), String>,
)
    requires
        call_ensures(ExclusiveOutputOwner::capture, (descriptor, target), captured),
        call_ensures(ExclusiveOutputOwner::still_owned, (owner, found), owned),
        call_ensures(ExclusiveOutputOwner::remove_if_owned, (owner, found), removal),
    ensures
        captured is Ok <==> (descriptor is None && target is None) || (descriptor is Some
            && target is Some && descriptor->0@ == target->0@),
        captured matches Ok(o) ==> o.identity == descriptor,
        removal is Ok <==> owned == Ok::<bool, String>(true),
        found matches Err(m) ==> owned == Err::<bool, String>(m),
        found is Ok ==> (owned matches Ok(yes) && (yes <==> (found->Ok_0 matches Some(id) && ((
        id is None && owner.identity is None) || (id is Some && owner.identity is Some && id->0@
            == owner.identity->0@))))),
{
}

/// A failed import says what it left behind: nothing where it had not begun or the
/// output was removed, something uncertain exactly where the removal failed. It keeps
/// its message, and its class unless the removal failed.
pub proof fn failed_imports_say_what_is_left(
    run: &ImportRun,
    error: MergeError,
    cleanup: Option<String>,
    r: MergeError,
    output: Option<String>,
    byte_count: u64,
    early: MergeError,
)
    requires
        cleanup is Some ==> run.owner,
        call_ensures(ImportRun::conclude, (run, error, cleanup), r),
        call_ensures(preflight_error, (error, output, byte_count), early),
    ensures
        r.message == error.message,
        cleanup is None ==> r.class@ == error.class@,
        cleanup is Some ==> r.class@ == "MERGE_CLEANUP_UNCERTAIN"@,
        r.details matches MergeDetails::Import(d) && {
            &&& d.output_path == Some(run.output)
            &&& d.byte_count == run.byte_count
            &&& cleanup is Some ==> d.output_state@ == "Uncertain"@ && d.cleanup_errors@
                == seq![cleanup->0] && d.root_class == Some(error.class) && d.statement_count
                == run.done
            &&& cleanup is None ==> d.cleanup_errors@.len() == 0 && d.root_class is None
            &&& cleanup is None && run.stage is Statement ==> d.output_state@ == "Removed"@
                && d.statement_count == run.done
            &&& cleanup is None && (run.stage is Open || run.stage is Authorize
                || run.stage is ForeignKeysOff || run.stage is Begin) ==> d.output_state@
                == "NotCreated"@ && d.statement_count == 0
            &&& cleanup is None && !(run.stage is Open || run.stage is Authorize
                || run.stage is ForeignKeysOff || run.stage is Begin) ==> d.output_state@
                == "Removed"@ && d.statement_count == run.done
        },
        early.class == error.class,
        early.message == error.message,
        early.details matches MergeDetails::Import(d) && d.output_path == output && d.output_state@
            == "NotCreated"@ && d.statement_count == 0 && d.byte_count == byte_count
            && d.cleanup_errors@.len() == 0 && d.root_class is None,
{
}

/// A failed extraction says what it left behind: nothing where the workspace was
/// removed or never made, something uncertain exactly where the removal failed. It
/// keeps its class and message and tells how far it came.
pub proof fn failed_extractions_say_what_is_left(
    run: ExtractRun,
    error: MergeError,
    workspace_path: Option<String>,
    manifest_path: Option<String>,
    cleanup: Option<String>,
    r: MergeError,
    early: MergeError,
)
    requires
        call_ensures(
            ExtractRun::conclude,
            (run, error, workspace_path, manifest_path, cleanup),
            r,
        ),
        call_ensures(unstarted_error, (error,), early),
    ensures
        r.class == error.class,
        r.message == error.message,
        r.details matches MergeDetails::Extraction(d) && {
            &&& d.workspace_path == workspace_path
            &&& d.manifest_path == manifest_path
            &&& d.files == run.files
            &&& d.source_observations == run.observations
            &&& d.file_byte_counts == run.counts
            &&& d.workspace_state@ == if cleanup is Some {
                "Uncertain"@
            } else {
                "Removed"@
            }
            &&& cleanup matches Some(m) ==> d.cleanup_errors@ == seq![m]
            &&& cleanup is None ==> d.cleanup_errors@.len() == 0
        },
        early.class == error.class,
        early.message == error.message,
        early.details matches MergeDetails::Extraction(d) && d.workspace_state@ == "NotCreated"@
            && d.workspace_path is None && d.manifest_path is None && d.files.base_sql is None
            && d.files.ours_sql is None && d.files.theirs_sql is None && d.files.resolved_sql is None
            && d.source_observations@.len() == 0 && d.file_byte_counts.manifest == 0
            && d.cleanup_errors@.len() == 0,
{
}

} // verus!
