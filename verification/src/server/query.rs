//! Statements and what they return.
use crate::config::Config;
use crate::merge::values::contains_char;
use crate::outside;
use crate::outside::{json_payload_of, text_of_utf8};
use crate::server::error::CoreError;
use crate::sql;
use crate::sql::{validate_with_limit, Cell, CellView, RealReading, SqlValue};
use crate::text;
use crate::worker::error::{SqliteFailure, WorkerError};
use vstd::prelude::*;
use vstd::utf8::*;

verus! {

/// What one statement returned.
#[derive(Debug, Clone)]
pub struct QueryResult {
    pub columns: Vec<String>,
    pub rows: Vec<Vec<Cell>>,
    pub rows_returned: usize,
    /// There were more rows than are returned.
    pub truncated: bool,
    /// The statement ran to its end.
    pub execution_complete: bool,
    /// The number of rows that the statement changed.
    pub changes: u64,
}

/// Collects the rows of one statement.
#[derive(Debug)]
pub struct RowCollector {
    pub columns: Vec<String>,
    pub rows: Vec<Vec<Cell>>,
    pub truncated: bool,
    pub row_limit: usize,
}

/// The rows that are kept of all rows, and whether there were more.
pub open spec fn gathered(rows: Seq<Vec<Cell>>, limit: nat) -> (Seq<Vec<Cell>>, bool)
    decreases rows.len(),
{
    if rows.len() == 0 {
        (rows, false)
    } else {
        added(gathered(rows.drop_last(), limit), rows.last(), limit)
    }
}

/// What is kept once one more row has come.
pub open spec fn added(
    kept: (Seq<Vec<Cell>>, bool),
    row: Vec<Cell>,
    limit: nat,
) -> (Seq<Vec<Cell>>, bool) {
    if kept.0.len() < limit {
        (kept.0.push(row), kept.1)
    } else {
        (kept.0, true)
    }
}

/// All rows are drained, the first ones are kept, and it is told whether there
/// were more.
pub proof fn first_rows_are_kept(rows: Seq<Vec<Cell>>, limit: nat)
    ensures
        gathered(rows, limit) == if rows.len() <= limit {
            (rows, false)
        } else {
            (rows.take(limit as int), true)
        },
    decreases rows.len(),
{
    if rows.len() > 0 {
        first_rows_are_kept(rows.drop_last(), limit);
        assert(rows.drop_last().push(rows.last()) =~= rows);
        if rows.len() == limit + 1 {
            assert(rows.take(limit as int) =~= rows.drop_last());
        } else if rows.len() > limit + 1 {
            assert(rows.take(limit as int) =~= rows.drop_last().take(limit as int));
        }
    } else {
        assert(rows.take(0) =~= rows);
    }
}

impl RowCollector {
    /// Starts with the columns of a prepared statement.
    pub fn start(columns: Vec<String>, column_limit: usize, row_limit: usize) -> (r: Result<
        Self,
        SqliteFailure,
    >)
        ensures
            match r {
                Ok(c) => columns@.len() <= column_limit && c.columns == columns && c.rows@.len()
                    == 0 && !c.truncated && c.row_limit == row_limit,
                Err(e) => columns@.len() > column_limit && e.code is None && e.text@
                    == "Invalid parameter name: column limit exceeded"@,
            },
    {
        if columns.len() > column_limit {
            return Err(
                SqliteFailure {
                    code: None,
                    text: "Invalid parameter name: column limit exceeded".to_owned(),
                },
            );
        }
        Ok(RowCollector { columns, rows: Vec::new(), truncated: false, row_limit })
    }

    /// Takes one more row.
    pub fn push(&mut self, row: Vec<Cell>)
        ensures
            (final(self).rows@, final(self).truncated) == added(
                (old(self).rows@, old(self).truncated),
                row,
                old(self).row_limit as nat,
            ),
            final(self).columns == old(self).columns,
            final(self).row_limit == old(self).row_limit,
    {
        if self.rows.len() < self.row_limit {
            self.rows.push(row);
        } else {
            self.truncated = true;
        }
    }

    /// The result. The connection's count of changes belongs to this statement
    /// only if its total went up.
    pub fn finish(self, total_before: i32, total_after: i32, changes: u64) -> (r: QueryResult)
        ensures
            r.columns == self.columns,
            r.rows == self.rows,
            r.rows_returned == self.rows@.len(),
            r.truncated == self.truncated,
            r.execution_complete,
            r.changes == if total_after > total_before {
                changes
            } else {
                0
            },
    {
        QueryResult {
            columns: self.columns,
            rows_returned: self.rows.len(),
            rows: self.rows,
            truncated: self.truncated,
            execution_complete: true,
            changes: if total_after > total_before {
                changes
            } else {
                0
            },
        }
    }
}

/// The tag of a cell.
pub open spec fn cell_tag(cell: CellView) -> Seq<char> {
    match cell {
        CellView::Null => "null"@,
        CellView::Integer(_) => "integer"@,
        CellView::Real(_) => "real"@,
        CellView::Text(_) => "text"@,
        CellView::Blob(_) => "blob"@,
        CellView::TextBytes(_) => "textbytes"@,
    }
}

/// The members of a cell: its tag and, unless it is null, its value.
pub open spec fn cell_members(cell: CellView) -> Seq<(Seq<char>, Seq<char>)> {
    let tag = ("type"@, cell_tag(cell));
    match cell {
        CellView::Null => seq![tag],
        CellView::Integer(s) => seq![tag, ("value"@, s)],
        CellView::Real(s) => seq![tag, ("value"@, s)],
        CellView::Text(s) => seq![tag, ("value"@, s)],
        CellView::Blob(s) => seq![tag, ("value"@, s)],
        CellView::TextBytes(s) => seq![tag, ("value"@, s)],
    }
}

pub open spec fn row_members(row: Seq<Cell>) -> Seq<Seq<(Seq<char>, Seq<char>)>> {
    row.map_values(|c: Cell| cell_members(c@))
}

pub open spec fn rows_members(rows: Seq<Vec<Cell>>) -> Seq<Seq<Seq<(Seq<char>, Seq<char>)>>> {
    rows.map_values(|row: Vec<Cell>| row_members(row@))
}

/// What counts towards the size of a result: its columns and rows in JSON.
pub open spec fn payload(r: QueryResult) -> Seq<u8> {
    encode_utf8(
        outside::json_payload("columns"@, text::views(r.columns@), "rows"@, rows_members(r.rows@)),
    )
}

fn members_of(cell: &Cell) -> (r: Vec<(String, String)>)
    ensures
        outside::members_view(r@) == cell_members(cell@),
        outside::is_tagged(cell_members(cell@)),
{
    let tag = match cell {
        Cell::Null => "null",
        Cell::Integer(_) => "integer",
        Cell::Real(_) => "real",
        Cell::Text(_) => "text",
        Cell::Blob(_) => "blob",
        Cell::TextBytes(_) => "textbytes",
    };
    let mut members: Vec<(String, String)> = Vec::new();
    members.push(("type".to_owned(), tag.to_owned()));
    match cell {
        Cell::Null => {},
        Cell::Integer(s) | Cell::Real(s) | Cell::Text(s) | Cell::Blob(s) | Cell::TextBytes(s) => {
            members.push(("value".to_owned(), s.as_str().to_owned()));
        },
    }
    assert(outside::members_view(members@) =~= cell_members(cell@));
    members
}

fn row_members_of(row: &Vec<Cell>) -> (r: Vec<Vec<(String, String)>>)
    ensures
        outside::objects_view(r@) == row_members(row@),
        outside::all_tagged(row_members(row@)),
{
    let mut out: Vec<Vec<(String, String)>> = Vec::new();
    let mut i: usize = 0;
    while i < row.len()
        invariant
            i <= row@.len(),
            out@.len() == i,
            forall|j: int| 0 <= j < i ==> outside::is_tagged(cell_members((#[trigger] row@[j])@)),
            forall|j: int|
                0 <= j < i ==> outside::members_view((#[trigger] out@[j])@) == cell_members(row@[j]@),
        decreases row.len() - i,
    {
        out.push(members_of(&row[i]));
        i += 1;
    }
    assert(outside::objects_view(out@) =~= row_members(row@));
    out
}

/// The size of a result in bytes.
pub fn payload_len(result: &QueryResult) -> (r: usize)
    ensures
        r == payload(*result).len(),
{
    let mut rows: Vec<Vec<Vec<(String, String)>>> = Vec::new();
    let mut i: usize = 0;
    while i < result.rows.len()
        invariant
            i <= result.rows@.len(),
            rows@.len() == i,
            forall|j: int|
                0 <= j < i ==> outside::objects_view((#[trigger] rows@[j])@) == row_members(
                    result.rows@[j]@,
                ) && outside::all_tagged(row_members(result.rows@[j]@)),
        decreases result.rows.len() - i,
    {
        rows.push(row_members_of(&result.rows[i]));
        i += 1;
    }
    assert(outside::rows_view(rows@) =~= rows_members(result.rows@));
    proof {
        reveal_strlit("columns");
        reveal_strlit("rows");
    }
    json_payload_of("columns", &result.columns, "rows", &rows).len()
}

/// Checks one statement and its parameters before anything runs. `reals` holds
/// for each parameter what its text reads as, where it is a real number.
pub fn check_statement(
    statement: &str,
    params: &Vec<Cell>,
    reals: &Vec<RealReading>,
    config: &Config,
) -> (r: Result<Vec<SqlValue>, CoreError>)
    requires
        reals@.len() == params@.len(),
    ensures
        match r {
            Ok(found) => {
                &&& encode_utf8(statement@).len() <= config.sql_byte_limit
                &&& params@.len() <= config.parameter_limit
                &&& !statement@.contains('\0')
                &&& found@.len() == params@.len()
                &&& forall|i: int|
                    0 <= i < params@.len() ==> sql::value_of((#[trigger] params@[i])@, reals@[i])
                        == Ok::<sql::SqlValueView, Seq<char>>(found@[i]@)
            },
            Err(e) => if encode_utf8(statement@).len() > config.sql_byte_limit {
                e.is_worker_message("SQL exceeds configured byte limit"@)
            } else if params@.len() > config.parameter_limit {
                e.is_worker_message("too many parameters"@)
            } else if statement@.contains('\0') {
                e.is_worker_message("SQL contains NUL byte"@)
            } else {
                exists|i: int, m: Seq<char>| #[trigger]
                    sql::is_first_refused(params@, reals@, i) && sql::value_of(
                        params@[i]@,
                        reals@[i],
                    ) == Err::<sql::SqlValueView, Seq<char>>(m) && #[trigger] e.is_worker_message(m)
            },
        },
{
    if statement.as_bytes().len() > config.sql_byte_limit {
        return Err(CoreError::worker_message("SQL exceeds configured byte limit"));
    }
    if params.len() > config.parameter_limit {
        return Err(CoreError::worker_message("too many parameters"));
    }
    match validate_with_limit(statement, params, reals, config.parameter_limit) {
        Ok(found) => Ok(found),
        Err(m) => {
            let ghost shown = m@;
            let e = CoreError::Worker(WorkerError::Message(m));
            assert(e.is_worker_message(shown));
            Err(e)
        },
    }
}

/// Checks the text of a batch before anything runs.
pub fn validate_batch_sql(statements: &str, byte_limit: usize) -> (r: Result<(), CoreError>)
    ensures
        match r {
            Ok(()) => encode_utf8(statements@).len() <= byte_limit && !statements@.contains('\0'),
            Err(e) => if encode_utf8(statements@).len() > byte_limit {
                e.is_worker_message("batch SQL exceeds configured byte limit"@)
            } else {
                statements@.contains('\0') && e.is_worker_message("batch SQL contains NUL"@)
            },
        },
{
    if statements.as_bytes().len() > byte_limit {
        return Err(CoreError::worker_message("batch SQL exceeds configured byte limit"));
    }
    if contains_char(statements, '\0') {
        return Err(CoreError::worker_message("batch SQL contains NUL"));
    }
    Ok(())
}

/// The text of a batch that was read from a file. One byte more than the limit is
/// enough to read.
pub fn batch_text(bytes: Vec<u8>, byte_limit: usize) -> (r: Result<String, CoreError>)
    ensures
        match r {
            Ok(s) => bytes@.len() <= byte_limit && encode_utf8(s@) == bytes@ && !s@.contains('\0'),
            Err(e) => if bytes@.len() > byte_limit {
                e.is_worker_message("batch SQL exceeds configured byte limit"@)
            } else if !valid_utf8(bytes@) {
                e.is_worker_message("batch SQL file is not valid UTF-8"@)
            } else {
                e.is_worker_message("batch SQL contains NUL"@) && exists|t: Seq<char>|
                    encode_utf8(t) == bytes@ && #[trigger] t.contains('\0')
            },
        },
{
    if bytes.len() > byte_limit {
        return Err(CoreError::worker_message("batch SQL exceeds configured byte limit"));
    }
    match text_of_utf8(bytes) {
        None => Err(CoreError::worker_message("batch SQL file is not valid UTF-8")),
        Some(s) => {
            if let Err(e) = validate_batch_sql(s.as_str(), byte_limit) {
                assert(s@.contains('\0'));
                proof {
                    encode_utf8_valid_utf8(s@);
                }
                return Err(e);
            }
            Ok(s)
        },
    }
}

} // verus!
