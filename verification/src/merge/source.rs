//! What must hold of the files that a merge operation reads and writes.
use crate::merge::error::{MergeDetails, MergeError};
use crate::merge::results::{SidecarObservation, SourceObservation};
use crate::outside;
use crate::outside::{digest_sha256_hex, text_of_utf8};
use crate::text::{decimal_text, same_text};
use crate::text;
use vstd::prelude::*;
use vstd::utf8::*;

verus! {

/// A literal absolute path: it holds no NUL, starts at the root and is no URI.
pub open spec fn is_literal_path(path: Seq<char>) -> bool {
    !path.contains('\0') && path.len() > 0 && path[0] == '/'
}

/// Whether a path is a literal absolute path.
pub fn is_literal(path: &str) -> (r: bool)
    ensures
        r == is_literal_path(path@),
{
    let cs = text::chars_of(path);
    if cs.len() == 0 || cs[0] != '/' {
        return false;
    }
    let mut i: usize = 0;
    while i < cs.len()
        invariant
            i <= cs@.len(),
            cs@ == path@,
            forall|j: int| 0 <= j < i ==> cs@[j] != '\0',
        decreases cs.len() - i,
    {
        if cs[i] == '\0' {
            return false;
        }
        i += 1;
    }
    true
}

/// Refuses a source that is no literal absolute path.
pub fn check_source_literal(path: &str) -> (r: Result<(), MergeError>)
    ensures
        match r {
            Ok(()) => is_literal_path(path@),
            Err(e) => !is_literal_path(path@) && e.details is Null && e.fault() == (
                "MERGE_INPUT_INVALID"@,
                "merge paths must be absolute literal filesystem paths"@,
            ),
        },
{
    if is_literal(path) {
        Ok(())
    } else {
        Err(
            MergeError::new(
                "MERGE_INPUT_INVALID",
                "merge paths must be absolute literal filesystem paths",
            ),
        )
    }
}

/// Refuses a text file that is no literal absolute path.
pub fn check_text_literal(path: &str) -> (r: Result<(), MergeError>)
    ensures
        match r {
            Ok(()) => is_literal_path(path@),
            Err(e) => !is_literal_path(path@) && e.details is Null && e.fault() == (
                "MERGE_FORMAT_INVALID"@,
                "SQL path must be an absolute literal path"@,
            ),
        },
{
    if is_literal(path) {
        Ok(())
    } else {
        Err(MergeError::new("MERGE_FORMAT_INVALID", "SQL path must be an absolute literal path"))
    }
}

/// Refuses an output that is no literal absolute path.
pub fn check_output_literal(path: &str) -> (r: Result<(), MergeError>)
    ensures
        match r {
            Ok(()) => is_literal_path(path@),
            Err(e) => !is_literal_path(path@) && e.details is Null && e.fault() == (
                "MERGE_OUTPUT_EXISTS"@,
                "output path must be an absolute literal path"@,
            ),
        },
{
    if is_literal(path) {
        Ok(())
    } else {
        Err(MergeError::new("MERGE_OUTPUT_EXISTS", "output path must be an absolute literal path"))
    }
}

/// The sixteen bytes that every initialized database file starts with.
pub open spec fn database_header() -> Seq<u8> {
    encode_utf8("SQLite format 3\0"@)
}

/// Whether these are the first bytes of an initialized database file.
pub fn is_database_header(header: &[u8]) -> (r: bool)
    ensures
        r == (header@ == database_header()),
{
    text::same_bytes(header, "SQLite format 3\0".as_bytes())
}

/// What was found where a file was looked for.
#[derive(Debug)]
pub enum FileState {
    Missing,
    /// Looking at it or reading it failed with this message.
    Failed(String),
    /// It is a directory or a special file.
    NotRegular,
    Regular {
        device_inode: Option<[u64; 2]>,
        size_bytes: u64,
        mtime_ns: Option<u128>,
        contents: Vec<u8>,
    },
}

/// A file as plain values: kind, path, presence, identity, size, time and
/// digest.
pub type FileView = (
    Seq<char>,
    Seq<char>,
    bool,
    Option<Seq<u64>>,
    Option<u64>,
    Option<u128>,
    Option<Seq<char>>,
);

impl View for SidecarObservation {
    type V = FileView;

    open spec fn view(&self) -> FileView {
        (
            self.kind@,
            self.path@,
            self.present,
            match self.device_inode {
                Some(id) => Some(id@),
                None => None,
            },
            self.size_bytes,
            self.mtime_ns,
            match self.sha256_hex {
                Some(hex) => Some(hex@),
                None => None,
            },
        )
    }
}

/// The observation of a file, or why there is none.
pub open spec fn observation_of(
    kind: Seq<char>,
    path: Option<Seq<char>>,
    state: FileState,
    cap: nat,
) -> Result<FileView, Seq<char>> {
    match path {
        None => Err("path is not valid UTF-8"@),
        Some(p) => match state {
            FileState::Missing => Ok((kind, p, false, None, None, None, None)),
            FileState::Failed(m) => Err(m@),
            FileState::NotRegular => Err(kind + " sidecar is not a regular file"@),
            FileState::Regular { device_inode, size_bytes, mtime_ns, contents } => if contents@.len()
                > cap {
                Err("source observation exceeds "@ + text::decimal(cap) + " bytes"@)
            } else {
                Ok(
                    (
                        kind,
                        p,
                        true,
                        match device_inode {
                            Some(id) => Some(id@),
                            None => None,
                        },
                        Some(size_bytes),
                        mtime_ns,
                        Some(outside::sha256_hex(contents@)),
                    ),
                )
            },
        },
    }
}

/// The path as plain characters, where it is UTF-8.
pub open spec fn path_view(path: Option<String>) -> Option<Seq<char>> {
    match path {
        Some(p) => Some(p@),
        None => None,
    }
}

/// The observation of a file that holds at most `cap` bytes. `path` is missing
/// where it is no UTF-8.
pub fn observe(kind: &str, path: Option<String>, state: FileState, cap: usize) -> (r: Result<
    SidecarObservation,
    String,
>)
    ensures
        match observation_of(kind@, path_view(path), state, cap as nat) {
            Ok(view) => r matches Ok(o) && o@ == view,
            Err(m) => r matches Err(e) && e@ == m,
        },
{
    let path_text = match path {
        Some(p) => p,
        None => return Err("path is not valid UTF-8".to_owned()),
    };
    match state {
        FileState::Missing => Ok(
            SidecarObservation {
                kind: kind.to_owned(),
                path: path_text,
                present: false,
                device_inode: None,
                size_bytes: None,
                mtime_ns: None,
                sha256_hex: None,
            },
        ),
        FileState::Failed(m) => Err(m),
        FileState::NotRegular => {
            let mut m = kind.to_owned();
            m.append(" sidecar is not a regular file");
            Err(m)
        },
        FileState::Regular { device_inode, size_bytes, mtime_ns, contents } => {
            if contents.len() > cap {
                let mut m = "source observation exceeds ".to_owned();
                m.append(decimal_text(cap as u64).as_str());
                m.append(" bytes");
                return Err(m);
            }
            Ok(
                SidecarObservation {
                    kind: kind.to_owned(),
                    path: path_text,
                    present: true,
                    device_inode,
                    size_bytes: Some(size_bytes),
                    mtime_ns,
                    sha256_hex: Some(digest_sha256_hex(contents.as_slice())),
                },
            )
        },
    }
}

/// The first failure among the observations of a source's files, in the order
/// main file, journal, log, shared memory.
pub open spec fn first_failure(
    main: Result<SidecarObservation, String>,
    journal: Result<SidecarObservation, String>,
    wal: Result<SidecarObservation, String>,
    shm: Result<SidecarObservation, String>,
) -> Option<Seq<char>> {
    match (main, journal, wal, shm) {
        (Err(m), _, _, _) => Some(m@),
        (_, Err(m), _, _) => Some(m@),
        (_, _, Err(m), _) => Some(m@),
        (_, _, _, Err(m)) => Some(m@),
        _ => None,
    }
}

/// The fault of a source that has sidecar files.
pub open spec fn sidecar_fault(label: Seq<char>) -> (Seq<char>, Seq<char>) {
    ("MERGE_INPUT_INVALID"@, label + " has unsupported SQLite sidecar files"@)
}

/// The observation of a source from those of its files. A source with a journal,
/// a log or shared memory beside it is refused.
pub fn source_observation(
    label: &str,
    phase: &str,
    main: Result<SidecarObservation, String>,
    journal: Result<SidecarObservation, String>,
    wal: Result<SidecarObservation, String>,
    shm: Result<SidecarObservation, String>,
) -> (r: Result<SourceObservation, MergeError>)
    ensures
        match first_failure(main, journal, wal, shm) {
            Some(m) => r matches Err(e) && e.fault() == ("MERGE_INPUT_INVALID"@, m)
                && e.details is Null,
            None => if journal->Ok_0.present || wal->Ok_0.present || shm->Ok_0.present {
                r matches Err(e) && e.fault() == sidecar_fault(label@)
                    && (e.details matches MergeDetails::Label(l) && l@ == label@)
            } else {
                r matches Ok(o) && o.label@ == label@ && o.phase@ == phase@ && o.main == main->Ok_0
                    && o.rollback_journal == journal->Ok_0 && o.wal == wal->Ok_0 && o.shm
                    == shm->Ok_0
            },
        },
{
    let main = match main {
        Ok(o) => o,
        Err(m) => return Err(MergeError::with_message("MERGE_INPUT_INVALID", m)),
    };
    let rollback_journal = match journal {
        Ok(o) => o,
        Err(m) => return Err(MergeError::with_message("MERGE_INPUT_INVALID", m)),
    };
    let wal = match wal {
        Ok(o) => o,
        Err(m) => return Err(MergeError::with_message("MERGE_INPUT_INVALID", m)),
    };
    let shm = match shm {
        Ok(o) => o,
        Err(m) => return Err(MergeError::with_message("MERGE_INPUT_INVALID", m)),
    };
    if rollback_journal.present || wal.present || shm.present {
        let mut m = label.to_owned();
        m.append(" has unsupported SQLite sidecar files");
        return Err(
            MergeError {
                class: "MERGE_INPUT_INVALID",
                message: m,
                details: MergeDetails::Label(label.to_owned()),
            },
        );
    }
    Ok(
        SourceObservation {
            label: label.to_owned(),
            phase: phase.to_owned(),
            main,
            rollback_journal,
            wal,
            shm,
        },
    )
}

fn same_identity(a: &Option<[u64; 2]>, b: &Option<[u64; 2]>) -> (r: bool)
    ensures
        r == (match (*a, *b) {
            (Some(x), Some(y)) => x@ == y@,
            (None, None) => true,
            _ => false,
        }),
{
    match (a, b) {
        (Some(x), Some(y)) => {
            let same = x[0] == y[0] && x[1] == y[1];
            assert(same == (x@ =~= y@));
            same
        },
        (None, None) => true,
        _ => false,
    }
}

fn same_digest(a: &Option<String>, b: &Option<String>) -> (r: bool)
    ensures
        r == (match (*a, *b) {
            (Some(x), Some(y)) => x@ == y@,
            (None, None) => true,
            _ => false,
        }),
{
    match (a, b) {
        (Some(x), Some(y)) => same_text(x.as_str(), y.as_str()),
        (None, None) => true,
        _ => false,
    }
}

/// Whether two observations of a file agree in everything.
pub fn same_file(a: &SidecarObservation, b: &SidecarObservation) -> (r: bool)
    ensures
        r == (a@ == b@),
{
    same_text(a.kind.as_str(), b.kind.as_str()) && same_text(a.path.as_str(), b.path.as_str())
        && a.present == b.present && same_identity(&a.device_inode, &b.device_inode)
        && same_size(a.size_bytes, b.size_bytes) && same_time(a.mtime_ns, b.mtime_ns)
        && same_digest(&a.sha256_hex, &b.sha256_hex)
}

fn same_size(a: Option<u64>, b: Option<u64>) -> (r: bool)
    ensures
        r == (a == b),
{
    match (a, b) {
        (Some(x), Some(y)) => x == y,
        (None, None) => true,
        _ => false,
    }
}

fn same_time(a: Option<u128>, b: Option<u128>) -> (r: bool)
    ensures
        r == (a == b),
{
    match (a, b) {
        (Some(x), Some(y)) => x == y,
        (None, None) => true,
        _ => false,
    }
}

/// Two observations of a source agree in all four files.
pub open spec fn unchanged(a: SourceObservation, b: SourceObservation) -> bool {
    a.main@ == b.main@ && a.rollback_journal@ == b.rollback_journal@ && a.wal@ == b.wal@ && a.shm@
        == b.shm@
}

/// Whether a source is the same as when it was first observed.
pub fn is_unchanged(a: &SourceObservation, b: &SourceObservation) -> (r: bool)
    ensures
        r == unchanged(*a, *b),
{
    same_file(&a.main, &b.main) && same_file(&a.rollback_journal, &b.rollback_journal) && same_file(
        &a.wal,
        &b.wal,
    ) && same_file(&a.shm, &b.shm)
}

/// Refuses an artifact over its limit.
pub fn check_artifact_size(len: usize, cap: usize) -> (r: Result<u64, String>)
    ensures
        match r {
            Ok(n) => len <= cap && n == len,
            Err(m) => len > cap && m@ == "artifact exceeds configured limit of "@ + text::decimal(
                cap as nat,
            ) + " bytes"@,
        },
{
    if len > cap {
        let mut m = "artifact exceeds configured limit of ".to_owned();
        m.append(decimal_text(cap as u64).as_str());
        m.append(" bytes");
        return Err(m);
    }
    Ok(len as u64)
}

/// Refuses a source that is no regular file or does not start with the database
/// header.
pub fn check_source_file(is_file: bool, header: &[u8]) -> (r: Result<(), MergeError>)
    ensures
        match r {
            Ok(()) => is_file && header@ == database_header(),
            Err(e) => e.details is Null && e.fault() == if !is_file {
                ("MERGE_INPUT_INVALID"@, "merge source is not a regular file"@)
            } else {
                ("MERGE_INPUT_INVALID"@, "source is not an initialized SQLite database"@)
            } && !(is_file && header@ == database_header()),
        },
{
    if !is_file {
        return Err(MergeError::new("MERGE_INPUT_INVALID", "merge source is not a regular file"));
    }
    if !is_database_header(header) {
        return Err(
            MergeError::new("MERGE_INPUT_INVALID", "source is not an initialized SQLite database"),
        );
    }
    Ok(())
}

/// Why the bytes of a file are no merge text, if they are none.
pub open spec fn text_fault(bytes: Seq<u8>, limit: nat) -> Option<(Seq<char>, Seq<char>)> {
    if bytes.len() > limit {
        Some(("MERGE_LIMIT_EXCEEDED"@, "SQL source exceeds configured text limit"@))
    } else if bytes.contains(0u8) {
        Some(("MERGE_FORMAT_INVALID"@, "SQL source contains NUL"@))
    } else if !valid_utf8(bytes) {
        Some(("MERGE_FORMAT_INVALID"@, "SQL source is not UTF-8"@))
    } else {
        None
    }
}

/// The text of a file of at most `limit` bytes, and its size.
pub fn read_text(bytes: Vec<u8>, limit: usize) -> (r: Result<(String, u64), MergeError>)
    ensures
        match text_fault(bytes@, limit as nat) {
            Some(fault) => r matches Err(e) && e.fault() == fault && e.details is Null,
            None => r matches Ok(v) && encode_utf8(v.0@) == bytes@ && v.1 == bytes@.len(),
        },
{
    let n: usize = bytes.len();
    if n > limit {
        return Err(
            MergeError::new("MERGE_LIMIT_EXCEEDED", "SQL source exceeds configured text limit"),
        );
    }
    let mut i: usize = 0;
    while i < n
        invariant
            i <= n == bytes@.len(),
            n <= limit,
            forall|j: int| 0 <= j < i ==> bytes@[j] != 0u8,
        decreases n - i,
    {
        if bytes[i] == 0 {
            return Err(MergeError::new("MERGE_FORMAT_INVALID", "SQL source contains NUL"));
        }
        i += 1;
    }
    match text_of_utf8(bytes) {
        Some(t) => {
            proof {
                encode_utf8_valid_utf8(t@);
            }
            Ok((t, n as u64))
        },
        None => Err(MergeError::new("MERGE_FORMAT_INVALID", "SQL source is not UTF-8")),
    }
}

/// The directory that an output path names.
#[derive(Debug)]
pub enum ParentState {
    /// The path names none.
    Missing,
    /// It is no directory.
    NotDirectory,
    /// It cannot be resolved, with this message.
    Unresolved(String),
    Resolved,
}

/// What was found where the output is to be created.
#[derive(Debug)]
pub struct OutputState {
    pub parent: ParentState,
    /// The path ends in a file name.
    pub has_file_name: bool,
    /// The path is the SQL source itself.
    pub is_source: bool,
    pub exists: bool,
    /// The file name is UTF-8.
    pub is_utf8: bool,
    /// A log, shared memory or journal beside it exists.
    pub sidecar_exists: bool,
}

pub open spec fn refused_output(message: &str) -> Option<(Seq<char>, Seq<char>)> {
    Some(("MERGE_OUTPUT_EXISTS"@, message@))
}

/// Why the output cannot be created, if it cannot.
pub open spec fn output_fault(state: OutputState) -> Option<(Seq<char>, Seq<char>)> {
    match state.parent {
        ParentState::Missing => refused_output("output parent is missing"),
        ParentState::NotDirectory => refused_output("output parent does not exist"),
        ParentState::Unresolved(m) => Some(("MERGE_INPUT_INVALID"@, m@)),
        ParentState::Resolved => if !state.has_file_name {
            refused_output("output filename is missing")
        } else if state.is_source {
            refused_output("SQL source and output alias the same file")
        } else if state.exists {
            refused_output("output already exists")
        } else if !state.is_utf8 {
            refused_output("output filename is not valid UTF-8")
        } else if state.sidecar_exists {
            refused_output("output sidecar path is already reserved")
        } else {
            None
        },
    }
}

/// Decides whether the output may be created.
pub fn check_output_path(state: OutputState) -> (r: Result<(), MergeError>)
    ensures
        match output_fault(state) {
            Some(fault) => r matches Err(e) && e.fault() == fault && e.details is Null,
            None => r is Ok,
        },
{
    match state.parent {
        ParentState::Missing => {
            return Err(MergeError::new("MERGE_OUTPUT_EXISTS", "output parent is missing"));
        },
        ParentState::NotDirectory => {
            return Err(MergeError::new("MERGE_OUTPUT_EXISTS", "output parent does not exist"));
        },
        ParentState::Unresolved(m) => {
            return Err(MergeError::with_message("MERGE_INPUT_INVALID", m));
        },
        ParentState::Resolved => {},
    }
    if !state.has_file_name {
        return Err(MergeError::new("MERGE_OUTPUT_EXISTS", "output filename is missing"));
    }
    if state.is_source {
        return Err(
            MergeError::new("MERGE_OUTPUT_EXISTS", "SQL source and output alias the same file"),
        );
    }
    if state.exists {
        return Err(MergeError::new("MERGE_OUTPUT_EXISTS", "output already exists"));
    }
    if !state.is_utf8 {
        return Err(MergeError::new("MERGE_OUTPUT_EXISTS", "output filename is not valid UTF-8"));
    }
    if state.sidecar_exists {
        return Err(
            MergeError::new("MERGE_OUTPUT_EXISTS", "output sidecar path is already reserved"),
        );
    }
    Ok(())
}

/// How often a workspace name is tried.
pub const WORKSPACE_ATTEMPTS: u8 = 16;

/// The outcome of creating a workspace directory.
#[derive(Debug)]
pub enum WorkspaceReply {
    /// It was created with these permission bits.
    Created(u32),
    /// The name is taken.
    Taken,
    /// It failed with this message.
    Failed(String),
}

/// What to do after an attempt to create a workspace.
#[derive(Debug)]
pub enum WorkspaceStep {
    /// Use the directory.
    Use,
    /// Try another name.
    Retry,
    /// Remove the directory and give up.
    Discard(MergeError),
    /// Give up.
    Fail(MergeError),
}

/// Decides what to do after the attempt with this number, counted from zero.
/// A directory that others may enter is not used.
pub fn workspace_step(attempt: u8, reply: WorkspaceReply) -> (r: WorkspaceStep)
    ensures
        match reply {
            WorkspaceReply::Created(mode) => if mode % 0o1000 == 0o700 {
                r is Use
            } else {
                r matches WorkspaceStep::Discard(e) && e.details is Null && e.fault() == (
                    "MERGE_INPUT_INVALID"@,
                    "temporary workspace is not private"@,
                )
            },
            WorkspaceReply::Taken => if attempt + 1 < WORKSPACE_ATTEMPTS {
                r is Retry
            } else {
                r matches WorkspaceStep::Fail(e) && e.details is Null && e.fault() == (
                    "MERGE_INPUT_INVALID"@,
                    "could not allocate a unique merge workspace"@,
                )
            },
            WorkspaceReply::Failed(m) => r matches WorkspaceStep::Fail(e) && e.details is Null
                && e.fault() == ("MERGE_INPUT_INVALID"@, m@),
        },
{
    match reply {
        WorkspaceReply::Created(mode) => if mode % 0o1000 == 0o700 {
            WorkspaceStep::Use
        } else {
            WorkspaceStep::Discard(
                MergeError::new("MERGE_INPUT_INVALID", "temporary workspace is not private"),
            )
        },
        WorkspaceReply::Taken => if attempt < WORKSPACE_ATTEMPTS - 1 {
            WorkspaceStep::Retry
        } else {
            WorkspaceStep::Fail(
                MergeError::new(
                    "MERGE_INPUT_INVALID",
                    "could not allocate a unique merge workspace",
                ),
            )
        },
        WorkspaceReply::Failed(m) => WorkspaceStep::Fail(
            MergeError::with_message("MERGE_INPUT_INVALID", m),
        ),
    }
}

/// The identity of a file that this process created.
#[derive(Debug)]
pub struct ExclusiveOutputOwner {
    pub identity: Option<[u64; 2]>,
}

/// Two identities are the same.
pub open spec fn identities_agree(a: Option<[u64; 2]>, b: Option<[u64; 2]>) -> bool {
    match (a, b) {
        (Some(x), Some(y)) => x@ == y@,
        (None, None) => true,
        _ => false,
    }
}

impl ExclusiveOutputOwner {
    /// Remembers the identity of a created file. `descriptor` is that of the open
    /// file, `target` that of what its path names.
    pub fn capture(descriptor: Option<[u64; 2]>, target: Option<[u64; 2]>) -> (r: Result<
        Self,
        String,
    >)
        ensures
            match r {
                Ok(owner) => identities_agree(descriptor, target) && owner.identity == descriptor,
                Err(m) => !identities_agree(descriptor, target) && m@
                    == "output identity changed during exclusive creation"@,
            },
    {
        if !same_identity(&descriptor, &target) {
            return Err("output identity changed during exclusive creation".to_owned());
        }
        Ok(ExclusiveOutputOwner { identity: descriptor })
    }

    /// Whether the path still names the created file. `found` is the identity of
    /// what it names, where it names anything, or why that could not be told.
    pub fn still_owned(&self, found: Result<Option<Option<[u64; 2]>>, String>) -> (r: Result<
        bool,
        String,
    >)
        ensures
            match found {
                Err(m) => r == Err::<bool, String>(m),
                Ok(named) => r == Ok::<bool, String>(
                    named matches Some(id) && identities_agree(id, self.identity),
                ),
            },
    {
        match found {
            Err(m) => Err(m),
            Ok(None) => Ok(false),
            Ok(Some(id)) => Ok(same_identity(&id, &self.identity)),
        }
    }

    /// Allows the removal of the created file, and of nothing else.
    pub fn remove_if_owned(&self, found: Result<Option<Option<[u64; 2]>>, String>) -> (r: Result<
        (),
        String,
    >)
        ensures
            match found {
                Err(m) => r == Err::<(), String>(m),
                Ok(named) => if named matches Some(id) && identities_agree(id, self.identity) {
                    r is Ok
                } else {
                    r matches Err(m) && m@ == "output identity changed or output disappeared"@
                },
            },
    {
        match self.still_owned(found) {
            Err(m) => Err(m),
            Ok(true) => Ok(()),
            Ok(false) => Err("output identity changed or output disappeared".to_owned()),
        }
    }
}

} // verus!
