//! What callers are told: the tools, their next moves and their errors.
use crate::handles::Handle;
use crate::merge::results::{ExtractionResult, ImportResult};
use crate::operation::TransactionMode;
use crate::operation;
use crate::outside;
use crate::outside::json_string_of;
use crate::server::error::CoreError;
use crate::sql::{Cell, CellView};
use crate::text;
use crate::text::{chars_of, contains_text, lowercase_text, same_text, string_of};
use vstd::prelude::*;

verus! {

/// The names of the tools, in the order in which they are advertised.
pub open spec fn tools() -> Seq<Seq<char>> {
    seq![
        "create_database"@,
        "open_database"@,
        "list_handles"@,
        "get_schema"@,
        "begin_transaction"@,
        "query"@,
        "commit"@,
        "rollback"@,
        "close_database"@,
        "extract_sqlite_merge"@,
        "import_sqlite_text"@,
    ]
}

pub open spec fn str_views(v: Seq<&'static str>) -> Seq<Seq<char>> {
    v.map_values(|s: &'static str| s@)
}

/// The names of the tools, in the order in which they are advertised.
pub fn advertised_tool_names() -> (r: Vec<&'static str>)
    ensures
        str_views(r@) == tools(),
{
    let names: Vec<&'static str> = vec![
        "create_database",
        "open_database",
        "list_handles",
        "get_schema",
        "begin_transaction",
        "query",
        "commit",
        "rollback",
        "close_database",
        "extract_sqlite_merge",
        "import_sqlite_text",
    ];
    assert(str_views(names@) =~= tools());
    names
}

/// A value as callers write it.
#[derive(Debug, Clone)]
pub enum TypedValue {
    Null,
    Integer(String),
    Real(String),
    Text(String),
    Blob(String),
}

impl TypedValue {
    /// The cell for the value.
    pub fn into_cell(self) -> (r: Cell)
        ensures
            r@ == match self {
                TypedValue::Null => CellView::Null,
                TypedValue::Integer(s) => CellView::Integer(s@),
                TypedValue::Real(s) => CellView::Real(s@),
                TypedValue::Text(s) => CellView::Text(s@),
                TypedValue::Blob(s) => CellView::Blob(s@),
            },
    {
        match self {
            TypedValue::Null => Cell::Null,
            TypedValue::Integer(s) => Cell::Integer(s),
            TypedValue::Real(s) => Cell::Real(s),
            TypedValue::Text(s) => Cell::Text(s),
            TypedValue::Blob(s) => Cell::Blob(s),
        }
    }
}

/// A mode that callers can ask for.
#[derive(Debug, Clone, Copy, PartialEq, Eq, Structural)]
pub enum TransactionModeArg {
    Deferred,
    Immediate,
}

impl Default for TransactionModeArg {
    fn default() -> (r: Self)
        ensures
            r is Deferred,
    {
        TransactionModeArg::Deferred
    }
}

impl TransactionModeArg {
    /// The word for the mode.
    pub fn as_str(&self) -> (r: &'static str)
        ensures
            r@ == operation::mode_word(
                match *self {
                    TransactionModeArg::Deferred => TransactionMode::Deferred,
                    TransactionModeArg::Immediate => TransactionMode::Immediate,
                },
            ),
    {
        match self {
            TransactionModeArg::Deferred => "deferred",
            TransactionModeArg::Immediate => "immediate",
        }
    }
}

/// What can sensibly follow a tool.
pub open spec fn moves_after(tool: Seq<char>) -> Seq<Seq<char>> {
    if tool == "create_database"@ || tool == "close_database"@ {
        seq!["open_database"@]
    } else if tool == "open_database"@ {
        seq!["get_schema"@, "list_handles"@, "close_database"@]
    } else if tool == "get_schema"@ {
        seq!["begin_transaction"@, "get_schema"@]
    } else if tool == "begin_transaction"@ || tool == "query"@ {
        seq!["query"@, "commit"@, "rollback"@]
    } else if tool == "commit"@ || tool == "rollback"@ {
        seq!["begin_transaction"@, "get_schema"@, "close_database"@]
    } else {
        seq!["open_database"@, "list_handles"@]
    }
}

fn one_move(a: &str) -> (r: Vec<String>)
    ensures
        text::views(r@) == seq![a@],
{
    let mut v: Vec<String> = Vec::new();
    v.push(a.to_owned());
    assert(text::views(v@) =~= seq![a@]);
    v
}

fn two_moves(a: &str, b: &str) -> (r: Vec<String>)
    ensures
        text::views(r@) == seq![a@, b@],
{
    let mut v: Vec<String> = Vec::new();
    v.push(a.to_owned());
    v.push(b.to_owned());
    assert(text::views(v@) =~= seq![a@, b@]);
    v
}

fn three_moves(a: &str, b: &str, c: &str) -> (r: Vec<String>)
    ensures
        text::views(r@) == seq![a@, b@, c@],
{
    let mut v: Vec<String> = Vec::new();
    v.push(a.to_owned());
    v.push(b.to_owned());
    v.push(c.to_owned());
    assert(text::views(v@) =~= seq![a@, b@, c@]);
    v
}

/// What can sensibly follow a tool.
pub fn next(name: &str) -> (r: Vec<String>)
    ensures
        text::views(r@) == moves_after(name@),
{
    if same_text(name, "create_database") || same_text(name, "close_database") {
        one_move("open_database")
    } else if same_text(name, "open_database") {
        three_moves("get_schema", "list_handles", "close_database")
    } else if same_text(name, "get_schema") {
        two_moves("begin_transaction", "get_schema")
    } else if same_text(name, "begin_transaction") || same_text(name, "query") {
        three_moves("query", "commit", "rollback")
    } else if same_text(name, "commit") || same_text(name, "rollback") {
        three_moves("begin_transaction", "get_schema", "close_database")
    } else {
        two_moves("open_database", "list_handles")
    }
}

/// A path that may be missing.
pub open spec fn shown_path(path: Option<String>) -> Seq<char> {
    outside::json_string(
        match path {
            Some(p) => p@,
            None => Seq::empty(),
        },
    )
}

fn quote_path(path: &str) -> (r: String)
    ensures
        r@ == outside::json_string(path@),
{
    json_string_of(path)
}

fn quote_optional(path: &Option<String>) -> (r: String)
    ensures
        r@ == shown_path(*path),
{
    match path {
        Some(p) => quote_path(p.as_str()),
        None => {
            let none = "";
            proof {
                reveal_strlit("");
                assert(none@ =~= Seq::empty());
            }
            quote_path(none)
        },
    }
}

/// What can sensibly follow an extraction.
pub fn merge_next_extract(result: &ExtractionResult) -> (r: Vec<String>)
    ensures
        text::views(r@) == seq![
            "Compare the three source snapshots with diff: "@ + shown_path(result.files.base_sql)
                + " "@ + shown_path(result.files.ours_sql) + " "@ + shown_path(
                result.files.theirs_sql,
            ),
            "Edit only the resolver copy with file tools: "@ + shown_path(result.files.resolved_sql),
            "Keep the resolver copy in SQLite merge-format version 1 and import it into a new output path with import_sqlite_text(sql_path="@
                + shown_path(result.files.resolved_sql)
                + ", output_path=<new absolute path>)."@,
        ],
{
    let files = &result.files;
    let mut compare = "Compare the three source snapshots with diff: ".to_owned();
    compare.append(quote_optional(&files.base_sql).as_str());
    compare.append(" ");
    compare.append(quote_optional(&files.ours_sql).as_str());
    compare.append(" ");
    compare.append(quote_optional(&files.theirs_sql).as_str());
    let mut edit = "Edit only the resolver copy with file tools: ".to_owned();
    edit.append(quote_optional(&files.resolved_sql).as_str());
    let mut keep =
        "Keep the resolver copy in SQLite merge-format version 1 and import it into a new output path with import_sqlite_text(sql_path=".to_owned();
    keep.append(quote_optional(&files.resolved_sql).as_str());
    keep.append(", output_path=<new absolute path>).");
    three_moves(compare.as_str(), edit.as_str(), keep.as_str())
}

/// What can sensibly follow an import.
pub fn merge_next_import(result: &ImportResult) -> (r: Vec<String>)
    ensures
        text::views(r@) == seq![
            "Verify the committed SQLite output and check it in or consume it as needed: "@
                + outside::json_string(result.output_path@),
        ],
{
    let mut verify =
        "Verify the committed SQLite output and check it in or consume it as needed: ".to_owned();
    verify.append(quote_path(result.output_path.as_str()).as_str());
    one_move(verify.as_str())
}

/// The class of an error that its text alone can tell.
pub open spec fn class_by_text(message: Seq<char>) -> Seq<char> {
    if text::contains(message, "no transaction"@) || text::contains(
        message,
        "transaction required"@,
    ) {
        "NO_TX_OPEN"@
    } else if text::contains(text::lowercase(message), "busy"@) {
        "BUSY"@
    } else {
        "INTERNAL"@
    }
}

/// The class of an error.
pub open spec fn error_class(err: CoreError) -> Seq<char> {
    match err {
        CoreError::UnknownHandle => "HANDLE_UNKNOWN"@,
        CoreError::TransactionOpen => "TX_ALREADY_OPEN"@,
        CoreError::SchemaRequired => "SCHEMA_REQUIRED"@,
        CoreError::SchemaStale => "SCHEMA_STALE"@,
        CoreError::TransactionExpired => "TX_EXPIRED"@,
        CoreError::AlreadyOpen => "DATABASE_ALREADY_OPEN"@,
        CoreError::SchemaTooLarge => "SCHEMA_TOO_LARGE"@,
        CoreError::Cancelled { .. } => "CANCELLED"@,
        CoreError::DeadlineExceeded { .. } => "DEADLINE_EXCEEDED"@,
        CoreError::Busy { .. } => "BUSY"@,
        CoreError::Locked { .. } => "BUSY"@,
        CoreError::BusySnapshot { .. } => "BUSY_SNAPSHOT"@,
        CoreError::InvalidTransactionMode => "INVALID_TRANSACTION_MODE"@,
        CoreError::HandleLimitReached => "HANDLE_LIMIT"@,
        CoreError::InvalidDatabase => "INVALID_DATABASE"@,
        CoreError::ServerShutdown => "SERVER_SHUTDOWN"@,
        CoreError::Merge(e) => e.class@,
        _ => class_by_text(err.text()),
    }
}

/// What an error itself says of the transaction: whether it is open, and whether
/// it can go on.
pub open spec fn explicit_lifecycle(err: CoreError) -> Option<(bool, bool)> {
    match err {
        CoreError::Cancelled { transaction_open, transaction_continuable } => Some(
            (transaction_open, transaction_continuable),
        ),
        CoreError::DeadlineExceeded { transaction_open, transaction_continuable } => Some(
            (transaction_open, transaction_continuable),
        ),
        CoreError::Busy { transaction_open, transaction_continuable, .. } => Some(
            (transaction_open, transaction_continuable),
        ),
        CoreError::BusySnapshot { transaction_open, transaction_continuable, .. } => Some(
            (transaction_open, transaction_continuable),
        ),
        CoreError::Locked { transaction_open, transaction_continuable, .. } => Some(
            (transaction_open, transaction_continuable),
        ),
        CoreError::PolicyDenied { transaction_open, transaction_continuable } => Some(
            (transaction_open, transaction_continuable),
        ),
        CoreError::CommitLifecycle { transaction_open, transaction_continuable, .. } => Some(
            (transaction_open, transaction_continuable),
        ),
        _ => None,
    }
}

/// Whether the transaction is open after an error. What the error says comes
/// before what the handle says.
pub open spec fn reported_open(err: CoreError, handle_open: bool) -> bool {
    match explicit_lifecycle(err) {
        Some((open, _)) => open,
        None => handle_open,
    }
}

/// Whether the transaction can go on after an error.
pub open spec fn reported_continuable(err: CoreError, handle_open: bool) -> bool {
    if text::contains(err.text(), "handle invalidated"@) || text::contains(
        err.text(),
        "outer transaction aborted"@,
    ) {
        false
    } else {
        match explicit_lifecycle(err) {
            Some((_, continuable)) => continuable,
            None => handle_open,
        }
    }
}

/// What can sensibly follow an error.
pub open spec fn moves_after_error(tool: Seq<char>, err: CoreError) -> Seq<Seq<char>> {
    if err is ServerShutdown || tool == "create_database"@ {
        Seq::empty()
    } else if tool == "close_database"@ && err is TransactionOpen {
        seq!["commit"@, "rollback"@]
    } else if err is UnknownHandle {
        Seq::empty()
    } else {
        moves_after(tool)
    }
}

/// An error as it is reported.
#[derive(Debug)]
pub struct ErrorReport {
    pub class: String,
    pub message: String,
    pub transaction_open: bool,
    pub transaction_continuable: bool,
    pub next_moves: Vec<String>,
    /// The report shows the handle.
    pub shows_handle: bool,
}

/// The report of an error. A shutdown is reported without regard to the handle.
pub open spec fn reports(
    r: ErrorReport,
    tool: Seq<char>,
    err: CoreError,
    handle: Option<&Handle>,
) -> bool {
    let handle_open = handle matches Some(h) && h.transaction_id is Some;
    &&& r.class@ == error_class(err)
    &&& text::views(r.next_moves@) == moves_after_error(tool, err)
    &&& r.message@ == err.text()
    &&& if err is ServerShutdown {
        !r.transaction_open && !r.transaction_continuable && !r.shows_handle
    } else {
        &&& r.transaction_open == reported_open(err, handle_open)
        &&& r.transaction_continuable == reported_continuable(err, handle_open)
        &&& r.shows_handle == (handle is Some)
    }
}

fn text_class(message: &str) -> (r: &'static str)
    ensures
        r@ == class_by_text(message@),
{
    if contains_text(message, "no transaction") || contains_text(message, "transaction required") {
        return "NO_TX_OPEN";
    }
    let low = lowercase_text(&chars_of(message));
    let lowered = string_of(&low, 0, low.len());
    assert(lowered@ =~= text::lowercase(message@));
    if contains_text(lowered.as_str(), "busy") {
        "BUSY"
    } else {
        "INTERNAL"
    }
}

fn class_of(err: &CoreError) -> (r: String)
    ensures
        r@ == error_class(*err),
{
    match err {
        CoreError::UnknownHandle => "HANDLE_UNKNOWN".to_owned(),
        CoreError::TransactionOpen => "TX_ALREADY_OPEN".to_owned(),
        CoreError::SchemaRequired => "SCHEMA_REQUIRED".to_owned(),
        CoreError::SchemaStale => "SCHEMA_STALE".to_owned(),
        CoreError::TransactionExpired => "TX_EXPIRED".to_owned(),
        CoreError::AlreadyOpen => "DATABASE_ALREADY_OPEN".to_owned(),
        CoreError::SchemaTooLarge => "SCHEMA_TOO_LARGE".to_owned(),
        CoreError::Cancelled { .. } => "CANCELLED".to_owned(),
        CoreError::DeadlineExceeded { .. } => "DEADLINE_EXCEEDED".to_owned(),
        CoreError::Busy { .. } => "BUSY".to_owned(),
        CoreError::Locked { .. } => "BUSY".to_owned(),
        CoreError::BusySnapshot { .. } => "BUSY_SNAPSHOT".to_owned(),
        CoreError::InvalidTransactionMode => "INVALID_TRANSACTION_MODE".to_owned(),
        CoreError::HandleLimitReached => "HANDLE_LIMIT".to_owned(),
        CoreError::InvalidDatabase => "INVALID_DATABASE".to_owned(),
        CoreError::ServerShutdown => "SERVER_SHUTDOWN".to_owned(),
        CoreError::Merge(e) => e.class.to_owned(),
        _ => {
            let message = err.message();
            text_class(message.as_str()).to_owned()
        },
    }
}

fn lifecycle_of(err: &CoreError) -> (r: Option<(bool, bool)>)
    ensures
        r == explicit_lifecycle(*err),
{
    match err {
        CoreError::Cancelled { transaction_open, transaction_continuable } => Some(
            (*transaction_open, *transaction_continuable),
        ),
        CoreError::DeadlineExceeded { transaction_open, transaction_continuable } => Some(
            (*transaction_open, *transaction_continuable),
        ),
        CoreError::Busy { transaction_open, transaction_continuable, .. } => Some(
            (*transaction_open, *transaction_continuable),
        ),
        CoreError::BusySnapshot { transaction_open, transaction_continuable, .. } => Some(
            (*transaction_open, *transaction_continuable),
        ),
        CoreError::Locked { transaction_open, transaction_continuable, .. } => Some(
            (*transaction_open, *transaction_continuable),
        ),
        CoreError::PolicyDenied { transaction_open, transaction_continuable } => Some(
            (*transaction_open, *transaction_continuable),
        ),
        CoreError::CommitLifecycle { transaction_open, transaction_continuable, .. } => Some(
            (*transaction_open, *transaction_continuable),
        ),
        _ => None,
    }
}

/// Reports an error of a tool. `handle` is the handle as it is now, if there is
/// one.
pub fn error(tool: &str, err: &CoreError, handle: Option<&Handle>) -> (r: ErrorReport)
    ensures
        reports(r, tool@, *err, handle),
{
    let class = class_of(err);
    let message = err.message();
    if let CoreError::ServerShutdown = err {
        let next_moves: Vec<String> = Vec::new();
        assert(text::views(next_moves@) =~= Seq::empty());
        return ErrorReport {
            class,
            message,
            transaction_open: false,
            transaction_continuable: false,
            next_moves,
            shows_handle: false,
        };
    }
    let handle_open = match handle {
        Some(h) => h.transaction_id.is_some(),
        None => false,
    };
    let lifecycle = lifecycle_of(err);
    let transaction_open = match lifecycle {
        Some((open, _)) => open,
        None => handle_open,
    };
    let transaction_continuable = if contains_text(message.as_str(), "handle invalidated")
        || contains_text(message.as_str(), "outer transaction aborted") {
        false
    } else {
        match lifecycle {
            Some((_, continuable)) => continuable,
            None => handle_open,
        }
    };
    let refused_close = match err {
        CoreError::TransactionOpen => same_text(tool, "close_database"),
        _ => false,
    };
    let unknown = match err {
        CoreError::UnknownHandle => true,
        _ => false,
    };
    let next_moves: Vec<String> = if same_text(tool, "create_database") {
        Vec::new()
    } else if refused_close {
        two_moves("commit", "rollback")
    } else if unknown {
        Vec::new()
    } else {
        next(tool)
    };
    assert(text::views(next_moves@) =~= moves_after_error(tool@, *err)) by {
        reveal_strlit("create_database");
        reveal_strlit("close_database");
        assert("create_database"@.len() != "close_database"@.len());
    }
    ErrorReport {
        class,
        message,
        transaction_open,
        transaction_continuable,
        next_moves,
        shows_handle: handle.is_some(),
    }
}

/// No error reports a transaction that can go on without being open, as long as
/// the error itself does not.
pub proof fn continuable_errors_are_open(err: CoreError, handle_open: bool)
    requires
        explicit_lifecycle(err) matches Some((open, continuable)) ==> (continuable ==> open),
    ensures
        reported_continuable(err, handle_open) ==> reported_open(err, handle_open),
{
}

/// Every error has the class that callers know it by, and its own text.
pub proof fn errors_have_their_class(
    tool: &str,
    err: &CoreError,
    handle: Option<&Handle>,
    r: ErrorReport,
)
    requires
        call_ensures(error, (tool, err, handle), r),
    ensures
        r.message@ == err.text(),
        err is UnknownHandle ==> r.class@ == "HANDLE_UNKNOWN"@,
        err is TransactionOpen ==> r.class@ == "TX_ALREADY_OPEN"@,
        err is SchemaRequired ==> r.class@ == "SCHEMA_REQUIRED"@,
        err is SchemaStale ==> r.class@ == "SCHEMA_STALE"@,
        err is TransactionExpired ==> r.class@ == "TX_EXPIRED"@,
        err is AlreadyOpen ==> r.class@ == "DATABASE_ALREADY_OPEN"@,
        err is SchemaTooLarge ==> r.class@ == "SCHEMA_TOO_LARGE"@,
        err is Cancelled ==> r.class@ == "CANCELLED"@,
        err is DeadlineExceeded ==> r.class@ == "DEADLINE_EXCEEDED"@,
        err is Busy || err is Locked ==> r.class@ == "BUSY"@,
        err is BusySnapshot ==> r.class@ == "BUSY_SNAPSHOT"@,
        err is InvalidTransactionMode ==> r.class@ == "INVALID_TRANSACTION_MODE"@,
        err is HandleLimitReached ==> r.class@ == "HANDLE_LIMIT"@,
        err is InvalidDatabase ==> r.class@ == "INVALID_DATABASE"@,
        err is ServerShutdown ==> r.class@ == "SERVER_SHUTDOWN"@,
        *err matches CoreError::Merge(e) ==> r.class@ == e.class@,
        err is Worker || err is Sqlite || err is Io || err is Path || err is PolicyDenied
            || err is CommitLifecycle || err is ReadonlyImmediate ==> r.class@ == if text::contains(
            err.text(),
            "no transaction"@,
        ) || text::contains(err.text(), "transaction required"@) {
            "NO_TX_OPEN"@
        } else if text::contains(text::lowercase(err.text()), "busy"@) {
            "BUSY"@
        } else {
            "INTERNAL"@
        },
{
}

/// What a report says of the transaction is what the error says of it, and what the
/// handle says where the error says nothing. Nothing goes on behind an error that
/// made the handle unusable or aborted the transaction.
pub proof fn errors_say_how_the_transaction_stands(
    tool: &str,
    err: &CoreError,
    handle: Option<&Handle>,
    r: ErrorReport,
)
    requires
        call_ensures(error, (tool, err, handle), r),
    ensures
        ({
            let open = handle matches Some(h) && h.transaction_id is Some;
            let unusable = text::contains(err.text(), "handle invalidated"@) || text::contains(
                err.text(),
                "outer transaction aborted"@,
            );
            let says_nothing = !(err is Cancelled || err is DeadlineExceeded || err is Busy
                || err is BusySnapshot || err is Locked || err is PolicyDenied
                || err is CommitLifecycle);
            &&& err is ServerShutdown ==> !r.transaction_open && !r.transaction_continuable
                && !r.shows_handle
            &&& !(err is ServerShutdown) ==> (r.shows_handle <==> handle is Some)
            &&& says_nothing && !(err is ServerShutdown) ==> r.transaction_open == open
                && r.transaction_continuable == (open && !unusable)
            &&& unusable ==> !r.transaction_continuable
            &&& *err matches CoreError::Cancelled {
                transaction_open,
                transaction_continuable,
            } ==> r.transaction_open == transaction_open && (!unusable ==> r.transaction_continuable
                == transaction_continuable)
            &&& *err matches CoreError::DeadlineExceeded {
                transaction_open,
                transaction_continuable,
            } ==> r.transaction_open == transaction_open && (!unusable ==> r.transaction_continuable
                == transaction_continuable)
            &&& *err matches CoreError::Busy {
                transaction_open,
                transaction_continuable,
                ..
            } ==> r.transaction_open == transaction_open && (!unusable ==> r.transaction_continuable
                == transaction_continuable)
            &&& *err matches CoreError::BusySnapshot {
                transaction_open,
                transaction_continuable,
                ..
            } ==> r.transaction_open == transaction_open && (!unusable ==> r.transaction_continuable
                == transaction_continuable)
            &&& *err matches CoreError::Locked {
                transaction_open,
                transaction_continuable,
                ..
            } ==> r.transaction_open == transaction_open && (!unusable ==> r.transaction_continuable
                == transaction_continuable)
            &&& *err matches CoreError::PolicyDenied {
                transaction_open,
                transaction_continuable,
            } ==> r.transaction_open == transaction_open && (!unusable ==> r.transaction_continuable
                == transaction_continuable)
            &&& *err matches CoreError::CommitLifecycle {
                transaction_open,
                transaction_continuable,
                ..
            } ==> r.transaction_open == transaction_open && (!unusable ==> r.transaction_continuable
                == transaction_continuable)
        }),
{
}

/// The names of the tools are of different lengths, so that none is another.
proof fn lemma_tool_lengths()
    ensures
        "create_database"@.len() == 15,
        "open_database"@.len() == 13,
        "list_handles"@.len() == 12,
        "get_schema"@.len() == 10,
        "begin_transaction"@.len() == 17,
        "query"@.len() == 5,
        "commit"@.len() == 6,
        "rollback"@.len() == 8,
        "close_database"@.len() == 14,
        "extract_sqlite_merge"@.len() == 20,
        "import_sqlite_text"@.len() == 18,
{
    reveal_strlit("create_database");
    reveal_strlit("open_database");
    reveal_strlit("list_handles");
    reveal_strlit("get_schema");
    reveal_strlit("begin_transaction");
    reveal_strlit("query");
    reveal_strlit("commit");
    reveal_strlit("rollback");
    reveal_strlit("close_database");
    reveal_strlit("extract_sqlite_merge");
    reveal_strlit("import_sqlite_text");
}

/// After each tool callers are pointed to what leads on: from a file to its handle,
/// to its schema, to a transaction, to its end, and to the close.
pub proof fn moves_lead_on(name: &str, r: Vec<String>)
    requires
        call_ensures(next, (name,), r),
    ensures
        name@ == "create_database"@ || name@ == "close_database"@ ==> text::views(r@) == seq![
            "open_database"@,
        ],
        name@ == "open_database"@ ==> text::views(r@) == seq![
            "get_schema"@,
            "list_handles"@,
            "close_database"@,
        ],
        name@ == "get_schema"@ ==> text::views(r@) == seq!["begin_transaction"@, "get_schema"@],
        name@ == "begin_transaction"@ || name@ == "query"@ ==> text::views(r@) == seq![
            "query"@,
            "commit"@,
            "rollback"@,
        ],
        name@ == "commit"@ || name@ == "rollback"@ ==> text::views(r@) == seq![
            "begin_transaction"@,
            "get_schema"@,
            "close_database"@,
        ],
        name@ == "list_handles"@ || name@ == "extract_sqlite_merge"@ || name@
            == "import_sqlite_text"@ ==> text::views(r@) == seq!["open_database"@, "list_handles"@],
{
    lemma_tool_lengths();
}

/// After an error callers are pointed nowhere where the server stops, the handle is
/// unknown or no file was created, to the end of the transaction where it kept a
/// handle from being closed, and else to what follows the tool.
pub proof fn errors_lead_on(
    tool: &str,
    err: &CoreError,
    handle: Option<&Handle>,
    r: ErrorReport,
    moves: Vec<String>,
)
    requires
        call_ensures(error, (tool, err, handle), r),
        call_ensures(next, (tool,), moves),
    ensures
        err is ServerShutdown || err is UnknownHandle || tool@ == "create_database"@ ==>
            r.next_moves@.len() == 0,
        err is TransactionOpen && tool@ == "close_database"@ ==> text::views(r.next_moves@) == seq![
            "commit"@,
            "rollback"@,
        ],
        !(err is ServerShutdown || err is UnknownHandle || tool@ == "create_database"@) && !(
        err is TransactionOpen && tool@ == "close_database"@) ==> text::views(r.next_moves@)
            == text::views(moves@),
{
    lemma_tool_lengths();
    assert(text::views(r.next_moves@).len() == r.next_moves@.len());
}

/// The tools are advertised in this order.
pub proof fn tools_are_advertised(r: Vec<&'static str>)
    requires
        call_ensures(advertised_tool_names, (), r),
    ensures
        r@.len() == 11,
        r@[0]@ == "create_database"@,
        r@[1]@ == "open_database"@,
        r@[2]@ == "list_handles"@,
        r@[3]@ == "get_schema"@,
        r@[4]@ == "begin_transaction"@,
        r@[5]@ == "query"@,
        r@[6]@ == "commit"@,
        r@[7]@ == "rollback"@,
        r@[8]@ == "close_database"@,
        r@[9]@ == "extract_sqlite_merge"@,
        r@[10]@ == "import_sqlite_text"@,
{
    assert(str_views(r@).len() == r@.len());
    assert forall|i: int| 0 <= i < r@.len() implies str_views(r@)[i] == (#[trigger] r@[i])@ by {}
}

/// A value becomes a cell of its own kind with the same text, and a mode its word.
pub proof fn arguments_keep_their_kind(
    value: TypedValue,
    cell: Cell,
    mode: &TransactionModeArg,
    word: &str,
)
    requires
        call_ensures(TypedValue::into_cell, (value,), cell),
        call_ensures(TransactionModeArg::as_str, (mode,), word),
    ensures
        value is Null ==> cell@ is Null,
        value matches TypedValue::Integer(s) ==> cell@ == CellView::Integer(s@),
        value matches TypedValue::Real(s) ==> cell@ == CellView::Real(s@),
        value matches TypedValue::Text(s) ==> cell@ == CellView::Text(s@),
        value matches TypedValue::Blob(s) ==> cell@ == CellView::Blob(s@),
        mode is Deferred ==> word@ == "deferred"@,
        mode is Immediate ==> word@ == "immediate"@,
{
}

/// Behind an extraction callers are told which three files to compare and which one
/// to edit and import, and behind an import which file to look at.
pub proof fn merges_name_their_files(
    extraction: &ExtractionResult,
    moves: Vec<String>,
    imported: &ImportResult,
    checks: Vec<String>,
)
    requires
        call_ensures(merge_next_extract, (extraction,), moves),
        call_ensures(merge_next_import, (imported,), checks),
        extraction.files.base_sql is Some,
        extraction.files.ours_sql is Some,
        extraction.files.theirs_sql is Some,
        extraction.files.resolved_sql is Some,
    ensures
        moves@.len() == 3,
        moves@[0]@ == "Compare the three source snapshots with diff: "@ + outside::json_string(
            extraction.files.base_sql->0@,
        ) + " "@ + outside::json_string(extraction.files.ours_sql->0@) + " "@
            + outside::json_string(extraction.files.theirs_sql->0@),
        moves@[1]@ == "Edit only the resolver copy with file tools: "@ + outside::json_string(
            extraction.files.resolved_sql->0@,
        ),
        checks@.len() == 1,
        checks@[0]@
            == "Verify the committed SQLite output and check it in or consume it as needed: "@
            + outside::json_string(imported.output_path@),
{
    assert(text::views(moves@).len() == moves@.len());
    assert(text::views(moves@)[0] == moves@[0]@);
    assert(text::views(moves@)[1] == moves@[1]@);
    assert(text::views(checks@).len() == checks@.len());
    assert(text::views(checks@)[0] == checks@[0]@);
}

} // verus!
