//! Import of merge text into a new database file.
//!
//! [`plan_import`] reads the text, and an [`ImportRun`] decides every step of
//! the replay. The steps themselves touch the database and the file system;
//! whoever runs them hands each outcome back.
use crate::merge::baseline;
use crate::merge::baseline::{parse_baseline, validate_header, Baseline};
use crate::merge::error::{ImportDetails, MergeDetails, MergeError};
use crate::merge::results::{
    ForeignKeyCheck, ImportResult, ImportValidation, IntegrityCheck, SchemaSummary,
};
use crate::merge::statements;
use crate::merge::statements::{split_statements, statement_kind, StatementKind};
use crate::outside;
use crate::outside::debug_text_of;
use crate::policy::decision::MutationSignal;
use crate::policy::guard;
use crate::policy::guard::{check_stored_body, PolicyError};
use crate::text;
use crate::text::{chars_of, decimal_text, same_bytes, same_text, string_of};
use vstd::prelude::*;
use vstd::utf8::*;

verus! {

/// The statements of a merge text and the baseline that they are held to.
#[derive(Debug)]
pub struct ImportPlan {
    pub baseline: Baseline,
    pub statements: Vec<(usize, usize)>,
}

/// What a merge text holds: its baseline and its statements.
pub type PlanView = (Map<Seq<char>, Seq<u8>>, Seq<(usize, usize)>);

impl View for ImportPlan {
    type V = PlanView;

    open spec fn view(&self) -> PlanView {
        (self.baseline@, self.statements@)
    }
}

/// The plan of a merge text, or the first thing that is wrong with it.
pub open spec fn plan_of(text: Seq<char>, statement_limit: nat) -> Result<
    PlanView,
    (Seq<char>, Seq<char>),
> {
    let b = encode_utf8(text);
    if !baseline::valid_header(text) {
        Err(
            baseline::malformed(
                "merge text must begin with the exact LF-terminated format header",
            ),
        )
    } else {
        match baseline::baseline_of(b, baseline::ascii(baseline::FORMAT_HEADER).len() as int) {
            Err(fault) => Err(fault),
            Ok((map, at)) => match statements::split_result(b, at) {
                Err(fault) => Err(fault),
                Ok(ranges) => if ranges.len() > statement_limit {
                    Err(baseline::excessive("merge statement limit exceeded"))
                } else if (map == Map::<Seq<char>, Seq<u8>>::empty()) != (ranges.len() == 0) {
                    Err(
                        baseline::malformed(
                            "nonempty merge text requires exactly one closed schema baseline",
                        ),
                    )
                } else {
                    Ok((map, ranges))
                },
            },
        }
    }
}

/// The ranges of a plan are byte ranges of the text that start and end at
/// character boundaries.
pub open spec fn ranges_fit(text: Seq<char>, ranges: Seq<(usize, usize)>) -> bool {
    forall|k: int|
        0 <= k < ranges.len() ==> {
            &&& (#[trigger] ranges[k]).0 <= ranges[k].1 <= encode_utf8(text).len()
            &&& is_char_boundary(encode_utf8(text), ranges[k].0 as int)
            &&& is_char_boundary(encode_utf8(text), ranges[k].1 as int)
        }
}

proof fn lemma_header_boundary(text: Seq<char>)
    requires
        baseline::valid_header(text),
    ensures
        is_char_boundary(
            encode_utf8(text),
            baseline::ascii(baseline::FORMAT_HEADER).len() as int,
        ),
{
    let b = encode_utf8(text);
    let header = baseline::ascii(baseline::FORMAT_HEADER);
    encode_utf8_valid_utf8(text);
    reveal_strlit("-- sqlite-mcp merge-format: 1\n");
    is_ascii_chars_encode_utf8(baseline::FORMAT_HEADER@);
    let n = header.len();
    assert(b.subrange(0, n as int)[n - 1] == header[n - 1]);
    statements::lemma_boundary_after_ascii(b, n - 1);
}

proof fn lemma_ranges_fit(text: Seq<char>, from: int)
    requires
        is_char_boundary(encode_utf8(text), from),
        encode_utf8(text).len() <= usize::MAX,
    ensures
        ranges_fit(
            text,
            statements::statement_ranges(encode_utf8(text), from, encode_utf8(text).len() as int),
        ),
{
    let b = encode_utf8(text);
    let n = b.len() as int;
    encode_utf8_valid_utf8(text);
    baseline::lemma_boundary_in_range(b, from);
    statements::lemma_ranges_shape(b, from, n);
    let ranges = statements::statement_ranges(b, from, n);
    assert forall|k: int| 0 <= k < ranges.len() implies {
        &&& (#[trigger] ranges[k]).0 <= ranges[k].1 <= b.len()
        &&& is_char_boundary(b, ranges[k].0 as int)
        &&& is_char_boundary(b, ranges[k].1 as int)
    } by {
        statements::lemma_boundary_after_ascii(b, ranges[k].1 - 1);
        if k > 0 {
            assert(ranges[k - 1].1 == ranges[k].0);
            statements::lemma_boundary_after_ascii(b, ranges[k - 1].1 - 1);
        }
    }
}

/// Reads a merge text.
///
/// It must start with the format header. The baseline and the statements are
/// either both there or both missing, and there are at most `statement_limit`
/// statements.
pub fn plan_import(text: &str, statement_limit: usize) -> (r: Result<ImportPlan, MergeError>)
    ensures
        match plan_of(text@, statement_limit as nat) {
            Ok(view) => r matches Ok(plan) && plan@ == view && ranges_fit(text@, view.1),
            Err(fault) => r matches Err(e) && e.fault() == fault && e.details is Null,
        },
{
    let _total: usize = text.as_bytes().len();
    let offset: usize = match validate_header(text) {
        Ok(n) => n,
        Err(e) => return Err(e),
    };
    proof {
        lemma_header_boundary(text@);
    }
    let (found, body) = match parse_baseline(text, offset) {
        Ok(v) => v,
        Err(e) => return Err(e),
    };
    proof {
        lemma_ranges_fit(text@, body as int);
    }
    let ranges = match split_statements(text, body) {
        Ok(v) => v,
        Err(e) => return Err(e),
    };
    if ranges.len() > statement_limit {
        return Err(MergeError::new("MERGE_LIMIT_EXCEEDED", "merge statement limit exceeded"));
    }
    if found.is_empty() != (ranges.len() == 0) {
        return Err(
            MergeError::new(
                "MERGE_FORMAT_INVALID",
                "nonempty merge text requires exactly one closed schema baseline",
            ),
        );
    }
    Ok(ImportPlan { baseline: found, statements: ranges })
}

/// How many characters `s` starts with that are no white space.
pub open spec fn solid_len(s: Seq<char>) -> nat
    decreases s.len(),
{
    if s.len() > 0 && !text::is_space(s[0]) {
        1 + solid_len(s.skip(1))
    } else {
        0
    }
}

/// The `n`th of the words that white space separates, counted from zero.
pub open spec fn nth_word(s: Seq<char>, n: nat) -> Option<Seq<char>>
    decreases n,
{
    let t = text::trim_start(s);
    let k = solid_len(t) as int;
    if t.len() == 0 {
        None
    } else if n == 0 {
        Some(t.take(k))
    } else {
        nth_word(t.skip(k), (n - 1) as nat)
    }
}

/// A character that quotes an identifier.
pub open spec fn is_quote_mark(c: char) -> bool {
    c == '"' || c == '`' || c == '[' || c == ']'
}

pub open spec fn strip_marks_front(s: Seq<char>) -> Seq<char>
    decreases s.len(),
{
    if s.len() > 0 && is_quote_mark(s[0]) {
        strip_marks_front(s.skip(1))
    } else {
        s
    }
}

pub open spec fn strip_marks_back(s: Seq<char>) -> Seq<char>
    decreases s.len(),
{
    if s.len() > 0 && is_quote_mark(s.last()) {
        strip_marks_back(s.drop_last())
    } else {
        s
    }
}

/// The name that a `CREATE` statement gives its object, as far as its third
/// word tells.
pub open spec fn created_name(sql: Seq<char>) -> Option<Seq<char>> {
    match nth_word(text::trim(sql), 2) {
        Some(word) => Some(strip_marks_back(strip_marks_front(word))),
        None => None,
    }
}

/// A statement that creates an object otherwise than its baseline says.
pub open spec fn differs_from_baseline(map: Map<Seq<char>, Seq<u8>>, sql: Seq<char>) -> bool {
    &&& statements::kind_of(sql) is Create
    &&& created_name(sql) matches Some(name) && map.contains_key(name) && map[name] != encode_utf8(
        text::trim(sql),
    )
}

/// A fault against the merge policy.
pub open spec fn denied(message: Seq<char>) -> (Seq<char>, Seq<char>) {
    ("MERGE_POLICY_DENIED"@, message)
}

/// Why a statement may not be replayed, if it may not.
pub open spec fn admission_fault(
    map: Map<Seq<char>, Seq<u8>>,
    sql: Seq<char>,
    index: nat,
) -> Option<(Seq<char>, Seq<char>)> {
    if differs_from_baseline(map, sql) {
        Some(
            (
                "MERGE_FORMAT_INVALID"@,
                "schema statement "@ + outside::debug_text(created_name(sql)->0)
                    + " differs from its baseline"@,
            ),
        )
    } else {
        match statements::kind_of(sql) {
            StatementKind::Transaction => Some(
                denied("transaction control is not allowed in statement "@ + text::decimal(index)),
            ),
            StatementKind::Policy => Some(
                denied("statement "@ + text::decimal(index) + " is denied by merge policy"@),
            ),
            StatementKind::Other => Some(
                (
                    "MERGE_FORMAT_INVALID"@,
                    "statement "@ + text::decimal(index) + " is outside the merge grammar"@,
                ),
            ),
            _ => if guard::stored_body(sql) matches Some(body) && guard::calls_pragma(body) {
                Some(denied(statement_message(index, PolicyError::Denied.message())))
            } else {
                None
            },
        }
    }
}

/// A message about one statement.
pub open spec fn statement_message(index: nat, message: Seq<char>) -> Seq<char> {
    "statement "@ + text::decimal(index) + ": "@ + message
}

fn about_statement(index: u64, message: &str) -> (r: String)
    ensures
        r@ == statement_message(index as nat, message@),
{
    let mut m = "statement ".to_owned();
    m.append(decimal_text(index).as_str());
    m.append(": ");
    m.append(message);
    m
}

fn solid_end(cs: &Vec<char>, i: usize, hi: usize) -> (r: usize)
    requires
        i <= hi <= cs@.len(),
    ensures
        i <= r <= hi,
        r - i == solid_len(cs@.subrange(i as int, hi as int)),
{
    let mut p: usize = i;
    while p < hi && !text::is_space_char(cs[p])
        invariant
            i <= p <= hi <= cs@.len(),
            solid_len(cs@.subrange(i as int, hi as int)) == (p - i) + solid_len(
                cs@.subrange(p as int, hi as int),
            ),
        decreases hi - p,
    {
        assert(cs@.subrange(p as int, hi as int).skip(1) =~= cs@.subrange(p + 1, hi as int));
        p += 1;
    }
    p
}

fn space_end(cs: &Vec<char>, i: usize, hi: usize) -> (r: usize)
    requires
        i <= hi <= cs@.len(),
    ensures
        i <= r <= hi,
        cs@.subrange(r as int, hi as int) == text::trim_start(cs@.subrange(i as int, hi as int)),
{
    let mut p: usize = i;
    while p < hi && text::is_space_char(cs[p])
        invariant
            i <= p <= hi <= cs@.len(),
            text::trim_start(cs@.subrange(p as int, hi as int)) == text::trim_start(
                cs@.subrange(i as int, hi as int),
            ),
        decreases hi - p,
    {
        assert(cs@.subrange(p as int, hi as int).skip(1) =~= cs@.subrange(p + 1, hi as int));
        p += 1;
    }
    p
}

/// The bounds of a text without the white space at both ends.
fn trimmed_bounds(cs: &Vec<char>) -> (r: (usize, usize))
    ensures
        r.0 <= r.1 <= cs@.len(),
        cs@.subrange(r.0 as int, r.1 as int) == text::trim(cs@),
{
    let lo: usize = space_end(cs, 0, cs.len());
    assert(cs@.subrange(0, cs@.len() as int) =~= cs@);
    let ghost rest = cs@.subrange(lo as int, cs@.len() as int);
    let mut hi: usize = cs.len();
    while hi > lo && text::is_space_char(cs[hi - 1])
        invariant
            lo <= hi <= cs@.len(),
            text::trim_end(cs@.subrange(lo as int, hi as int)) == text::trim_end(rest),
        decreases hi,
    {
        assert(cs@.subrange(lo as int, hi as int).drop_last() =~= cs@.subrange(lo as int, hi - 1));
        hi -= 1;
    }
    (lo, hi)
}

/// The bounds of the `n`th word between two positions.
fn word_bounds(cs: &Vec<char>, lo: usize, hi: usize, n: usize) -> (r: Option<(usize, usize)>)
    requires
        lo <= hi <= cs@.len(),
    ensures
        match r {
            Some((a, b)) => lo <= a <= b <= hi && nth_word(
                cs@.subrange(lo as int, hi as int),
                n as nat,
            ) == Some(cs@.subrange(a as int, b as int)),
            None => nth_word(cs@.subrange(lo as int, hi as int), n as nat) is None,
        },
{
    let mut left: usize = n;
    let mut p: usize = lo;
    loop
        invariant
            lo <= p <= hi <= cs@.len(),
            nth_word(cs@.subrange(p as int, hi as int), left as nat) == nth_word(
                cs@.subrange(lo as int, hi as int),
                n as nat,
            ),
        decreases left,
    {
        let a: usize = space_end(cs, p, hi);
        if a == hi {
            return None;
        }
        let ghost t = cs@.subrange(a as int, hi as int);
        let b: usize = solid_end(cs, a, hi);
        assert(t.take(b - a) =~= cs@.subrange(a as int, b as int));
        assert(t.skip(b - a) =~= cs@.subrange(b as int, hi as int));
        if left == 0 {
            return Some((a, b));
        }
        p = b;
        left -= 1;
    }
}

fn is_quote_mark_char(c: char) -> (r: bool)
    ensures
        r == is_quote_mark(c),
{
    c == '"' || c == '`' || c == '[' || c == ']'
}

/// The bounds of a word without the quote marks at both ends.
fn unmarked_bounds(cs: &Vec<char>, lo: usize, hi: usize) -> (r: (usize, usize))
    requires
        lo <= hi <= cs@.len(),
    ensures
        lo <= r.0 <= r.1 <= hi,
        cs@.subrange(r.0 as int, r.1 as int) == strip_marks_back(
            strip_marks_front(cs@.subrange(lo as int, hi as int)),
        ),
{
    let mut a: usize = lo;
    while a < hi && is_quote_mark_char(cs[a])
        invariant
            lo <= a <= hi <= cs@.len(),
            strip_marks_front(cs@.subrange(a as int, hi as int)) == strip_marks_front(
                cs@.subrange(lo as int, hi as int),
            ),
        decreases hi - a,
    {
        assert(cs@.subrange(a as int, hi as int).skip(1) =~= cs@.subrange(a + 1, hi as int));
        a += 1;
    }
    let ghost front = cs@.subrange(a as int, hi as int);
    let mut b: usize = hi;
    while b > a && is_quote_mark_char(cs[b - 1])
        invariant
            lo <= a <= b <= hi <= cs@.len(),
            strip_marks_back(cs@.subrange(a as int, b as int)) == strip_marks_back(front),
        decreases b,
    {
        assert(cs@.subrange(a as int, b as int).drop_last() =~= cs@.subrange(a as int, b - 1));
        b -= 1;
    }
    (a, b)
}

/// The name of the object that a statement creates otherwise than its baseline
/// says, if it does.
fn contradicted_name(found: &Baseline, sql: &str) -> (r: Option<String>)
    requires
        statements::kind_of(sql@) is Create,
    ensures
        match r {
            Some(name) => differs_from_baseline(found@, sql@) && created_name(sql@) == Some(name@),
            None => !differs_from_baseline(found@, sql@),
        },
{
    let cs = chars_of(sql);
    let (lo, hi) = trimmed_bounds(&cs);
    let trimmed = string_of(&cs, lo, hi);
    match word_bounds(&cs, lo, hi, 2) {
        None => None,
        Some((a, b)) => {
            let (c, d) = unmarked_bounds(&cs, a, b);
            let name = string_of(&cs, c, d);
            match found.get(name.as_str()) {
                None => None,
                Some(expected) => if same_bytes(expected.as_slice(), trimmed.as_str().as_bytes()) {
                    None
                } else {
                    Some(name)
                },
            }
        },
    }
}

/// Decides whether a statement may be replayed.
///
/// Only `CREATE` and `INSERT` are part of the merge grammar. A `CREATE` whose
/// object has a baseline must be that baseline, byte for byte, and no view or
/// trigger may call a pragma table-valued function.
pub fn admit_statement(found: &Baseline, sql: &str, index: u64) -> (r: Result<(), MergeError>)
    ensures
        match admission_fault(found@, sql@, index as nat) {
            Some(fault) => r matches Err(e) && e.fault() == fault && e.details is Null,
            None => r is Ok,
        },
{
    let kind = statement_kind(sql);
    match kind {
        StatementKind::Create => {
            if let Some(name) = contradicted_name(found, sql) {
                let mut m = "schema statement ".to_owned();
                m.append(debug_text_of(name.as_str()).as_str());
                m.append(" differs from its baseline");
                return Err(MergeError::with_message("MERGE_FORMAT_INVALID", m));
            }
        },
        StatementKind::Transaction => {
            let mut m = "transaction control is not allowed in statement ".to_owned();
            m.append(decimal_text(index).as_str());
            return Err(MergeError::with_message("MERGE_POLICY_DENIED", m));
        },
        StatementKind::Policy => {
            let mut m = "statement ".to_owned();
            m.append(decimal_text(index).as_str());
            m.append(" is denied by merge policy");
            return Err(MergeError::with_message("MERGE_POLICY_DENIED", m));
        },
        StatementKind::Other => {
            let mut m = "statement ".to_owned();
            m.append(decimal_text(index).as_str());
            m.append(" is outside the merge grammar");
            return Err(MergeError::with_message("MERGE_FORMAT_INVALID", m));
        },
        StatementKind::Insert => {},
    }
    let mut signal = MutationSignal::new();
    match check_stored_body(sql, &mut signal) {
        Ok(()) => Ok(()),
        Err(e) => Err(
            MergeError::with_message("MERGE_POLICY_DENIED", about_statement(index, e.as_str())),
        ),
    }
}

/// A step of the replay.
#[derive(Debug, Clone, Copy, PartialEq, Eq, Structural)]
pub enum ImportStage {
    /// Open a database in memory.
    Open,
    /// Install the authorizer on it.
    Authorize,
    /// Switch foreign keys off.
    ForeignKeysOff,
    /// Begin the transaction.
    Begin,
    /// Run the statement with this number.
    Statement(usize),
    /// Commit the transaction.
    Commit,
    /// Switch foreign keys on.
    ForeignKeysOn,
    /// Count the violated foreign keys.
    ForeignKeyCheck,
    /// Ask for the integrity check's text.
    IntegrityCheck,
    /// Serialize the database and give the image's size.
    Serialize,
    /// Create the output file; it must not exist.
    Create,
    /// Remember the identity of the created file.
    Capture,
    /// Write the image.
    Write,
    /// Flush the file.
    Sync,
    /// Flush the file once more and close it.
    SyncAgain,
    /// Ask whether the path still names the created file.
    Owned,
    /// Open the file read-only.
    Reopen,
    /// Ask for its journal mode.
    JournalMode,
    /// Count its objects.
    ObjectCount,
    /// Count its tables.
    TableCount,
}

/// The outcome of a step.
#[derive(Debug)]
pub enum ImportReply {
    Done,
    /// It failed with this message.
    Failed(String),
    /// It failed with this message because the output exists.
    Exists(String),
    /// The text of a statement did not prepare as exactly one statement.
    Refused(PolicyError),
    Count(u64),
    Text(String),
    Size(usize),
    Owned(bool),
}

/// What to do next.
#[derive(Debug)]
pub enum ImportAction {
    /// Perform this step.
    Perform(ImportStage),
    /// Prepare and run this statement.
    Execute(String),
    /// The import is done.
    Finish(ImportResult),
    /// The import failed; see [`ImportRun::conclude`].
    Fail(MergeError),
}

/// The replay of a merge text.
#[derive(Debug)]
pub struct ImportRun {
    pub text: String,
    pub plan: ImportPlan,
    pub output: String,
    pub byte_count: u64,
    pub image_limit: usize,
    pub stage: ImportStage,
    /// How many statements ran.
    pub done: u64,
    /// The identity of the output file was captured.
    pub owner: bool,
    pub journal_mode: String,
    pub objects: u64,
}

/// The step after a successful one; none after the last.
pub open spec fn stage_after(stage: ImportStage, total: nat) -> Option<ImportStage> {
    match stage {
        ImportStage::Open => Some(ImportStage::Authorize),
        ImportStage::Authorize => Some(ImportStage::ForeignKeysOff),
        ImportStage::ForeignKeysOff => Some(ImportStage::Begin),
        ImportStage::Begin => Some(
            if total > 0 {
                ImportStage::Statement(0)
            } else {
                ImportStage::Commit
            },
        ),
        ImportStage::Statement(i) => Some(
            if i + 1 < total {
                ImportStage::Statement((i + 1) as usize)
            } else {
                ImportStage::Commit
            },
        ),
        ImportStage::Commit => Some(ImportStage::ForeignKeysOn),
        ImportStage::ForeignKeysOn => Some(ImportStage::ForeignKeyCheck),
        ImportStage::ForeignKeyCheck => Some(ImportStage::IntegrityCheck),
        ImportStage::IntegrityCheck => Some(ImportStage::Serialize),
        ImportStage::Serialize => Some(ImportStage::Create),
        ImportStage::Create => Some(ImportStage::Capture),
        ImportStage::Capture => Some(ImportStage::Write),
        ImportStage::Write => Some(ImportStage::Sync),
        ImportStage::Sync => Some(ImportStage::SyncAgain),
        ImportStage::SyncAgain => Some(ImportStage::Owned),
        ImportStage::Owned => Some(ImportStage::Reopen),
        ImportStage::Reopen => Some(ImportStage::JournalMode),
        ImportStage::JournalMode => Some(ImportStage::ObjectCount),
        ImportStage::ObjectCount => Some(ImportStage::TableCount),
        ImportStage::TableCount => None,
    }
}

/// The steps that have an output file to look after: its identity is known.
pub open spec fn is_owning(stage: ImportStage) -> bool {
    match stage {
        ImportStage::Write | ImportStage::Sync | ImportStage::SyncAgain | ImportStage::Owned
        | ImportStage::Reopen | ImportStage::JournalMode | ImportStage::ObjectCount
        | ImportStage::TableCount => true,
        _ => false,
    }
}

/// How far a step is from the start.
pub open spec fn step_number(stage: ImportStage, total: nat) -> nat {
    match stage {
        ImportStage::Open => 0,
        ImportStage::Authorize => 1,
        ImportStage::ForeignKeysOff => 2,
        ImportStage::Begin => 3,
        ImportStage::Statement(i) => 4 + i as nat,
        ImportStage::Commit => 4 + total,
        ImportStage::ForeignKeysOn => 5 + total,
        ImportStage::ForeignKeyCheck => 6 + total,
        ImportStage::IntegrityCheck => 7 + total,
        ImportStage::Serialize => 8 + total,
        ImportStage::Create => 9 + total,
        ImportStage::Capture => 10 + total,
        ImportStage::Write => 11 + total,
        ImportStage::Sync => 12 + total,
        ImportStage::SyncAgain => 13 + total,
        ImportStage::Owned => 14 + total,
        ImportStage::Reopen => 15 + total,
        ImportStage::JournalMode => 16 + total,
        ImportStage::ObjectCount => 17 + total,
        ImportStage::TableCount => 18 + total,
    }
}

/// An import takes its steps one after the other and leaves none out: the output
/// is created only once every statement ran, was committed and was checked.
pub proof fn steps_are_taken_in_order(stage: ImportStage, total: nat)
    requires
        total <= usize::MAX,
        stage matches ImportStage::Statement(i) ==> i < total,
    ensures
        match stage_after(stage, total) {
            Some(next) => step_number(next, total) == step_number(stage, total) + 1,
            None => stage is TableCount,
        },
        step_number(stage, total) <= 18 + total,
        is_owning(stage) ==> step_number(stage, total) > step_number(ImportStage::Capture, total),
{
}

/// The class of a step's failure.
pub open spec fn failure_class(stage: ImportStage) -> Seq<char> {
    match stage {
        ImportStage::Authorize | ImportStage::ForeignKeysOff | ImportStage::Statement(_) => {
            "MERGE_POLICY_DENIED"@
        },
        ImportStage::Create | ImportStage::Capture | ImportStage::Write | ImportStage::Sync
        | ImportStage::SyncAgain => { "MERGE_INPUT_INVALID"@ },
        _ => "MERGE_VALIDATION_FAILED"@,
    }
}

/// The message of a step's failure.
pub open spec fn failure_message(stage: ImportStage, message: Seq<char>) -> Seq<char> {
    match stage {
        ImportStage::Statement(i) => statement_message(i as nat, message),
        ImportStage::ForeignKeyCheck => "foreign_key_check: "@ + message,
        ImportStage::IntegrityCheck => "integrity_check: "@ + message,
        ImportStage::Serialize => "serialize: "@ + message,
        _ => message,
    }
}

/// What is wrong with the outcome of a step, if anything is.
pub open spec fn reply_fault(stage: ImportStage, reply: ImportReply, image_limit: nat) -> Option<
    (Seq<char>, Seq<char>),
> {
    match reply {
        ImportReply::Failed(m) => Some((failure_class(stage), failure_message(stage, m@))),
        ImportReply::Exists(m) => Some(("MERGE_OUTPUT_EXISTS"@, m@)),
        ImportReply::Refused(e) => Some(
            ("MERGE_FORMAT_INVALID"@, failure_message(stage, e.message())),
        ),
        ImportReply::Count(n) => if stage is ForeignKeyCheck && n != 0 {
            Some(("MERGE_VALIDATION_FAILED"@, "foreign_key_check reported violations"@))
        } else {
            None
        },
        ImportReply::Text(t) => if stage is IntegrityCheck && t@ != "ok"@ {
            Some(("MERGE_VALIDATION_FAILED"@, t@))
        } else {
            None
        },
        ImportReply::Size(n) => if n == 0 || n > image_limit {
            Some(("MERGE_LIMIT_EXCEEDED"@, "serialized SQLite image exceeds configured limit"@))
        } else {
            None
        },
        ImportReply::Owned(owned) => if !owned {
            Some(("MERGE_VALIDATION_FAILED"@, "output identity changed before validation"@))
        } else {
            None
        },
        ImportReply::Done => None,
    }
}

/// The outcomes that a step can have.
pub open spec fn reply_fits(stage: ImportStage, reply: ImportReply) -> bool {
    match reply {
        ImportReply::Failed(_) => !(stage is Owned),
        ImportReply::Exists(_) => stage is Create,
        ImportReply::Refused(_) => stage is Statement,
        ImportReply::Count(_) => stage is ForeignKeyCheck || stage is ObjectCount
            || stage is TableCount,
        ImportReply::Text(_) => stage is IntegrityCheck || stage is JournalMode,
        ImportReply::Size(_) => stage is Serialize,
        ImportReply::Owned(_) => stage is Owned,
        ImportReply::Done => !(stage is ForeignKeyCheck || stage is ObjectCount
            || stage is TableCount || stage is IntegrityCheck || stage is JournalMode
            || stage is Serialize || stage is Owned),
    }
}

/// The text of the statement with this number.
pub open spec fn statement_at(text: Seq<char>, ranges: Seq<(usize, usize)>, i: int) -> Seq<char> {
    decode_utf8(encode_utf8(text).subrange(ranges[i].0 as int, ranges[i].1 as int))
}

pub open spec fn cancelled_fault() -> (Seq<char>, Seq<char>) {
    ("MERGE_LIMIT_EXCEEDED"@, "merge operation cancelled"@)
}

proof fn lemma_boundary_in_tail(b: Seq<u8>, i: int, j: int)
    requires
        valid_utf8(b),
        is_char_boundary(b, i),
        is_char_boundary(b, j),
        0 <= i <= j <= b.len(),
    ensures
        is_char_boundary(b.subrange(i, b.len() as int), j - i),
    decreases b.len(),
{
    if i == 0 {
        assert(b.subrange(0, b.len() as int) =~= b);
    } else {
        let n = length_of_first_scalar(b);
        let rest = pop_first_scalar(b);
        assert(is_char_boundary(rest, i - n));
        baseline::lemma_boundary_in_range(rest, i - n);
        assert(is_char_boundary(rest, j - n));
        baseline::lemma_boundary_in_range(rest, j - n);
        lemma_boundary_in_tail(rest, i - n, j - n);
        assert(rest.subrange(i - n, rest.len() as int) =~= b.subrange(i, b.len() as int));
    }
}

/// The text between two character boundaries.
fn text_range(text: &str, start: usize, end: usize) -> (r: String)
    requires
        start <= end <= encode_utf8(text@).len(),
        is_char_boundary(encode_utf8(text@), start as int),
        is_char_boundary(encode_utf8(text@), end as int),
    ensures
        r@ == decode_utf8(encode_utf8(text@).subrange(start as int, end as int)),
{
    let ghost b = encode_utf8(text@);
    let (_head, tail) = text.split_at(start);
    proof {
        encode_utf8_valid_utf8(text@);
        lemma_boundary_in_tail(b, start as int, end as int);
    }
    let (part, _rest) = tail.split_at(end - start);
    proof {
        encode_utf8_decode_utf8(part@);
        assert(encode_utf8(part@) =~= b.subrange(start as int, end as int));
    }
    part.to_owned()
}

impl ImportRun {
    pub open spec fn wf(self) -> bool {
        &&& ranges_fit(self.text@, self.plan.statements@)
        &&& self.owner == is_owning(self.stage)
        &&& match self.stage {
            ImportStage::Statement(i) => i < self.plan.statements@.len() && self.done == i,
            _ => self.done == if self.is_opening() {
                0
            } else {
                self.plan.statements@.len()
            },
        }
    }

    /// What stays the same during the replay.
    pub open spec fn same_import(self, other: Self) -> bool {
        &&& self.text == other.text
        &&& self.plan == other.plan
        &&& self.output == other.output
        &&& self.byte_count == other.byte_count
        &&& self.image_limit == other.image_limit
    }

    /// Why the step after this one cannot be taken, if it cannot.
    pub open spec fn entry_fault(self, next: ImportStage, cancelled: bool) -> Option<
        (Seq<char>, Seq<char>),
    > {
        match next {
            ImportStage::Statement(i) => if cancelled {
                Some(cancelled_fault())
            } else {
                admission_fault(
                    self.plan.baseline@,
                    statement_at(self.text@, self.plan.statements@, i as int),
                    i as nat,
                )
            },
            _ => None,
        }
    }

    /// What an outcome leads to.
    pub open spec fn leads_to(
        self,
        reply: ImportReply,
        cancelled: bool,
        post: Self,
        action: ImportAction,
    ) -> bool {
        &&& post.same_import(self)
        &&& post.journal_mode == match reply {
            ImportReply::Text(mode) if self.stage is JournalMode => mode,
            _ => self.journal_mode,
        }
        &&& post.objects == match reply {
            ImportReply::Count(n) if self.stage is ObjectCount => n,
            _ => self.objects,
        }
        &&& post.done == self.done + if self.stage is Statement && reply is Done {
            1int
        } else {
            0int
        }
        &&& match reply_fault(self.stage, reply, self.image_limit as nat) {
            Some(fault) => action matches ImportAction::Fail(e) && e.fault() == fault && e.details is Null
                && post.stage == self.stage,
            None => match stage_after(self.stage, self.plan.statements@.len()) {
                None => action matches ImportAction::Finish(result) && is_import_result(
                    self,
                    reply,
                    result,
                ),
                Some(next) => match self.entry_fault(next, cancelled) {
                    Some(fault) => action matches ImportAction::Fail(e) && e.fault() == fault
                        && e.details is Null && post.stage == next,
                    None => post.stage == next && match next {
                        ImportStage::Statement(i) => action matches ImportAction::Execute(sql)
                            && sql@ == statement_at(self.text@, self.plan.statements@, i as int),
                        _ => action == ImportAction::Perform(next),
                    },
                },
            },
        }
    }

    /// Starts the replay of a planned text.
    pub fn start(
        text: String,
        plan: ImportPlan,
        output: String,
        byte_count: u64,
        image_limit: usize,
    ) -> (r: Self)
        requires
            ranges_fit(text@, plan.statements@),
        ensures
            r.wf(),
            r.stage is Open,
            r.done == 0,
            !r.owner,
            r.text == text,
            r.plan == plan,
            r.output == output,
            r.byte_count == byte_count,
            r.image_limit == image_limit,
    {
        ImportRun {
            text,
            plan,
            output,
            byte_count,
            image_limit,
            stage: ImportStage::Open,
            done: 0,
            owner: false,
            journal_mode: String::new(),
            objects: 0,
        }
    }

    /// Reads a merge text and starts its replay, unless the text is refused or
    /// the request is cancelled by then.
    pub fn prepare(
        text: String,
        output: String,
        byte_count: u64,
        statement_limit: usize,
        image_limit: usize,
        cancelled: bool,
    ) -> (r: Result<Self, MergeError>)
        ensures
            match plan_of(text@, statement_limit as nat) {
                Err(fault) => r matches Err(e) && e.fault() == fault && is_unstarted(
                    e,
                    Some(output),
                    byte_count,
                ),
                Ok(view) => if cancelled {
                    r matches Err(e) && e.fault() == cancelled_fault() && is_unstarted(
                        e,
                        Some(output),
                        byte_count,
                    )
                } else {
                    r matches Ok(run) && {
                        &&& run.wf()
                        &&& run.stage is Open
                        &&& run.done == 0
                        &&& !run.owner
                        &&& run.text == text
                        &&& run.plan@ == view
                        &&& run.output == output
                        &&& run.byte_count == byte_count
                        &&& run.image_limit == image_limit
                    }
                },
            },
    {
        let plan = match plan_import(text.as_str(), statement_limit) {
            Ok(plan) => plan,
            Err(e) => return Err(preflight_error(e, Some(output), byte_count)),
        };
        if cancelled {
            let e = MergeError::new("MERGE_LIMIT_EXCEEDED", "merge operation cancelled");
            return Err(preflight_error(e, Some(output), byte_count));
        }
        Ok(ImportRun::start(text, plan, output, byte_count, image_limit))
    }

    /// Takes the outcome of the current step and says what to do next.
    /// `cancelled` says whether the request is cancelled by now; it is looked at
    /// before each statement only.
    pub fn step(&mut self, reply: ImportReply, cancelled: bool) -> (r: ImportAction)
        requires
            old(self).wf(),
            reply_fits(old(self).stage, reply),
        ensures
            final(self).wf(),
            old(self).leads_to(reply, cancelled, *final(self), r),
            final(self).same_import(*old(self)),
            final(self).owner == (old(self).owner || (old(self).stage is Capture && reply is Done)),
            final(self).done == old(self).done + if old(self).stage is Statement && reply is Done {
                1int
            } else {
                0int
            },
            match reply_fault(old(self).stage, reply, old(self).image_limit as nat) {
                Some(fault) => r matches ImportAction::Fail(e) && e.fault() == fault && e.details is Null
                    && final(self).stage == old(self).stage,
                None => match stage_after(old(self).stage, old(self).plan.statements@.len()) {
                    None => r matches ImportAction::Finish(result) && is_import_result(
                        *old(self),
                        reply,
                        result,
                    ),
                    Some(next) => match old(self).entry_fault(next, cancelled) {
                        Some(fault) => r matches ImportAction::Fail(e) && e.fault() == fault
                            && e.details is Null && final(self).stage == next,
                        None => final(self).stage == next && match next {
                            ImportStage::Statement(i) => r matches ImportAction::Execute(sql)
                                && sql@ == statement_at(
                                old(self).text@,
                                old(self).plan.statements@,
                                i as int,
                            ),
                            _ => r == ImportAction::Perform(next),
                        },
                    },
                },
            },
            r matches ImportAction::Finish(result) ==> result.statement_count == old(
                self,
            ).plan.statements@.len(),
            old(self).stage is JournalMode ==> (reply matches ImportReply::Text(mode)
                ==> final(self).journal_mode == mode),
            !(old(self).stage is JournalMode) ==> final(self).journal_mode == old(
                self,
            ).journal_mode,
            old(self).stage is ObjectCount ==> (reply matches ImportReply::Count(n)
                ==> final(self).objects == n),
            !(old(self).stage is ObjectCount) ==> final(self).objects == old(self).objects,
    {
        let stage = self.stage;
        if let Some(error) = refusal(stage, &reply, self.image_limit) {
            return ImportAction::Fail(error);
        }
        let total: usize = self.plan.statements.len();
        let next = match stage {
            ImportStage::Open => ImportStage::Authorize,
            ImportStage::Authorize => ImportStage::ForeignKeysOff,
            ImportStage::ForeignKeysOff => ImportStage::Begin,
            ImportStage::Begin => if total > 0 {
                ImportStage::Statement(0)
            } else {
                ImportStage::Commit
            },
            ImportStage::Statement(i) => {
                self.done = self.done + 1;
                if i + 1 < total {
                    ImportStage::Statement(i + 1)
                } else {
                    ImportStage::Commit
                }
            },
            ImportStage::Commit => ImportStage::ForeignKeysOn,
            ImportStage::ForeignKeysOn => ImportStage::ForeignKeyCheck,
            ImportStage::ForeignKeyCheck => ImportStage::IntegrityCheck,
            ImportStage::IntegrityCheck => ImportStage::Serialize,
            ImportStage::Serialize => ImportStage::Create,
            ImportStage::Create => ImportStage::Capture,
            ImportStage::Capture => {
                self.owner = true;
                ImportStage::Write
            },
            ImportStage::Write => ImportStage::Sync,
            ImportStage::Sync => ImportStage::SyncAgain,
            ImportStage::SyncAgain => ImportStage::Owned,
            ImportStage::Owned => ImportStage::Reopen,
            ImportStage::Reopen => ImportStage::JournalMode,
            ImportStage::JournalMode => {
                if let ImportReply::Text(mode) = reply {
                    self.journal_mode = mode;
                }
                ImportStage::ObjectCount
            },
            ImportStage::ObjectCount => {
                if let ImportReply::Count(n) = reply {
                    self.objects = n;
                }
                ImportStage::TableCount
            },
            ImportStage::TableCount => {
                let tables: u64 = match reply {
                    ImportReply::Count(n) => n,
                    _ => 0,
                };
                return ImportAction::Finish(self.result(tables));
            },
        };
        self.stage = next;
        match next {
            ImportStage::Statement(i) => {
                if cancelled {
                    return ImportAction::Fail(
                        MergeError::new("MERGE_LIMIT_EXCEEDED", "merge operation cancelled"),
                    );
                }
                let (start, end) = self.plan.statements[i];
                let sql = text_range(self.text.as_str(), start, end);
                match admit_statement(&self.plan.baseline, sql.as_str(), i as u64) {
                    Err(e) => ImportAction::Fail(e),
                    Ok(()) => ImportAction::Execute(sql),
                }
            },
            _ => ImportAction::Perform(next),
        }
    }

    /// The result of a finished replay.
    fn result(&self, tables: u64) -> (r: ImportResult)
        ensures
            result_is(*self, tables, r),
    {
        ImportResult {
            output_path: self.output.clone(),
            output_state: "Committed".to_owned(),
            statement_count: self.done,
            byte_count: self.byte_count,
            validation: ImportValidation {
                journal_mode: self.journal_mode.clone(),
                schema_summary: SchemaSummary { object_count: self.objects, table_count: tables },
                foreign_key_check: ForeignKeyCheck { ok: true, violations: 0 },
                integrity_check: IntegrityCheck { ok: true, message: "ok".to_owned() },
            },
        }
    }

    /// The steps before the replay: nothing was created yet.
    pub open spec fn is_opening(self) -> bool {
        self.stage is Open || self.stage is Authorize || self.stage is ForeignKeysOff
            || self.stage is Begin
    }

    /// The error that a failed replay ends with. `cleanup` is the message of the
    /// failed attempt to remove the output, where there was one to remove and that
    /// failed.
    pub fn conclude(&self, error: MergeError, cleanup: Option<String>) -> (r: MergeError)
        requires
            cleanup is Some ==> self.owner,
        ensures
            r.details matches MergeDetails::Import(d) && {
                &&& d.output_path == Some(self.output)
                &&& d.byte_count == self.byte_count
                &&& match cleanup {
                    Some(m) => {
                        &&& r.class@ == "MERGE_CLEANUP_UNCERTAIN"@
                        &&& r.message == error.message
                        &&& d.output_state@ == "Uncertain"@
                        &&& d.statement_count == self.done
                        &&& d.cleanup_errors@ == seq![m]
                        &&& d.root_class == Some(error.class)
                    },
                    None => {
                        &&& r.class == error.class
                        &&& r.message == error.message
                        &&& d.output_state@ == if self.is_opening() {
                            "NotCreated"@
                        } else {
                            "Removed"@
                        }
                        &&& d.statement_count == if self.is_opening() {
                            0
                        } else {
                            self.done
                        }
                        &&& d.cleanup_errors@.len() == 0
                        &&& d.root_class is None
                    },
                }
            },
    {
        match cleanup {
            Some(m) => {
                let mut errors: Vec<String> = Vec::new();
                errors.push(m);
                assert(errors@ =~= seq![m]);
                MergeError {
                    class: "MERGE_CLEANUP_UNCERTAIN",
                    message: error.message,
                    details: MergeDetails::Import(
                        ImportDetails {
                            output_path: Some(self.output.clone()),
                            output_state: "Uncertain",
                            statement_count: self.done,
                            byte_count: self.byte_count,
                            cleanup_errors: errors,
                            root_class: Some(error.class),
                        },
                    ),
                }
            },
            None => {
                let opening = match self.stage {
                    ImportStage::Open | ImportStage::Authorize | ImportStage::ForeignKeysOff
                    | ImportStage::Begin => true,
                    _ => false,
                };
                MergeError {
                    class: error.class,
                    message: error.message,
                    details: MergeDetails::Import(
                        ImportDetails {
                            output_path: Some(self.output.clone()),
                            output_state: if opening {
                                "NotCreated"
                            } else {
                                "Removed"
                            },
                            statement_count: if opening {
                                0
                            } else {
                                self.done
                            },
                            byte_count: self.byte_count,
                            cleanup_errors: Vec::new(),
                            root_class: None,
                        },
                    ),
                }
            },
        }
    }
}

/// The result of a replay with this many tables.
pub open spec fn result_is(run: ImportRun, tables: u64, r: ImportResult) -> bool {
    &&& r.output_path == run.output
    &&& r.output_state@ == "Committed"@
    &&& r.statement_count == run.done
    &&& r.byte_count == run.byte_count
    &&& r.validation.journal_mode == run.journal_mode
    &&& r.validation.schema_summary == (SchemaSummary {
        object_count: run.objects,
        table_count: tables,
    })
    &&& r.validation.foreign_key_check == (ForeignKeyCheck { ok: true, violations: 0 })
    &&& r.validation.integrity_check.ok
    &&& r.validation.integrity_check.message@ == "ok"@
}

/// The result of a replay whose last step had this outcome.
pub open spec fn is_import_result(run: ImportRun, reply: ImportReply, r: ImportResult) -> bool {
    reply matches ImportReply::Count(n) && result_is(run, n, r)
}

fn class_of_failure(stage: ImportStage) -> (r: &'static str)
    ensures
        r@ == failure_class(stage),
{
    match stage {
        ImportStage::Authorize | ImportStage::ForeignKeysOff | ImportStage::Statement(_) => {
            "MERGE_POLICY_DENIED"
        },
        ImportStage::Create | ImportStage::Capture | ImportStage::Write | ImportStage::Sync
        | ImportStage::SyncAgain => { "MERGE_INPUT_INVALID" },
        _ => "MERGE_VALIDATION_FAILED",
    }
}

fn message_of_failure(stage: ImportStage, message: &str) -> (r: String)
    ensures
        r@ == failure_message(stage, message@),
{
    match stage {
        ImportStage::Statement(i) => about_statement(i as u64, message),
        ImportStage::ForeignKeyCheck => {
            let mut m = "foreign_key_check: ".to_owned();
            m.append(message);
            m
        },
        ImportStage::IntegrityCheck => {
            let mut m = "integrity_check: ".to_owned();
            m.append(message);
            m
        },
        ImportStage::Serialize => {
            let mut m = "serialize: ".to_owned();
            m.append(message);
            m
        },
        _ => message.to_owned(),
    }
}

/// What is wrong with the outcome of a step, if anything is.
fn refusal(stage: ImportStage, reply: &ImportReply, image_limit: usize) -> (r: Option<MergeError>)
    requires
        reply_fits(stage, *reply),
    ensures
        match reply_fault(stage, *reply, image_limit as nat) {
            Some(fault) => r matches Some(e) && e.fault() == fault && e.details is Null,
            None => r is None,
        },
{
    match reply {
        ImportReply::Failed(m) => Some(
            MergeError::with_message(class_of_failure(stage), message_of_failure(stage, m.as_str())),
        ),
        ImportReply::Exists(m) => Some(MergeError::new("MERGE_OUTPUT_EXISTS", m.as_str())),
        ImportReply::Refused(e) => Some(
            MergeError::with_message(
                "MERGE_FORMAT_INVALID",
                message_of_failure(stage, e.as_str()),
            ),
        ),
        ImportReply::Count(n) => if stage == ImportStage::ForeignKeyCheck && *n != 0 {
            Some(
                MergeError::new("MERGE_VALIDATION_FAILED", "foreign_key_check reported violations"),
            )
        } else {
            None
        },
        ImportReply::Text(t) => if stage == ImportStage::IntegrityCheck && !same_text(
            t.as_str(),
            "ok",
        ) {
            Some(MergeError::new("MERGE_VALIDATION_FAILED", t.as_str()))
        } else {
            None
        },
        ImportReply::Size(n) => if *n == 0 || *n > image_limit {
            Some(
                MergeError::new(
                    "MERGE_LIMIT_EXCEEDED",
                    "serialized SQLite image exceeds configured limit",
                ),
            )
        } else {
            None
        },
        ImportReply::Owned(owned) => if !*owned {
            Some(
                MergeError::new(
                    "MERGE_VALIDATION_FAILED",
                    "output identity changed before validation",
                ),
            )
        } else {
            None
        },
        ImportReply::Done => None,
    }
}

/// An error before the replay: nothing was created and no statement ran.
pub open spec fn is_unstarted(e: MergeError, output: Option<String>, byte_count: u64) -> bool {
    e.details matches MergeDetails::Import(d) && {
        &&& d.output_path == output
        &&& d.output_state@ == "NotCreated"@
        &&& d.statement_count == 0
        &&& d.byte_count == byte_count
        &&& d.cleanup_errors@.len() == 0
        &&& d.root_class is None
    }
}

/// The error of a text that was refused before its replay. `output` is the path
/// of the output, where it was looked at by then.
pub fn preflight_error(error: MergeError, output: Option<String>, byte_count: u64) -> (r: MergeError)
    ensures
        r.class == error.class,
        r.message == error.message,
        is_unstarted(r, output, byte_count),
{
    MergeError {
        class: error.class,
        message: error.message,
        details: MergeDetails::Import(
            ImportDetails {
                output_path: output,
                output_state: "NotCreated",
                statement_count: 0,
                byte_count,
                cleanup_errors: Vec::new(),
                root_class: None,
            },
        ),
    }
}

} // verus!
