//! What holds of the parameters of a statement and of what it returns.
use crate::config::Config;
use crate::merge::values;
use crate::outside;
use crate::server::error::CoreError;
use crate::server::query;
use crate::server::query::{
    batch_text, check_statement, validate_batch_sql, QueryResult, RowCollector,
};
use crate::sql;
use crate::sql::{Cell, CellView, ColumnValue, RealReading, SqlValue, SqlValueView};
use crate::text;
use crate::worker::error::SqliteFailure;
use vstd::prelude::*;
use vstd::utf8::*;

verus! {

/// A statement is let through exactly where its text and its parameters are within
/// their limits, it holds no NUL and every parameter stands for a value. Then every
/// parameter is bound, in its place: a null as null, text as that text, a real number
/// as what its text reads as, and an integer and a blob as what their text stands for.
pub proof fn parameters_are_bound_in_their_places(
    statement: &str,
    params: &Vec<Cell>,
    reals: &Vec<RealReading>,
    config: &Config,
    r: Result<Vec<SqlValue>, CoreError>,
    i: int,
)
    requires
        reals@.len() == params@.len(),
        call_ensures(check_statement, (statement, params, reals, config), r),
        0 <= i < params@.len(),
    ensures
        r is Ok ==> {
            let found = r->Ok_0@;
            &&& found.len() == params@.len()
            &&& match params@[i] {
                Cell::Null => found[i]@ is Null,
                Cell::Integer(s) => found[i]@ matches SqlValueView::Integer(n)
                    && sql::integer_value(s@) == Some(n),
                Cell::Real(_) => found[i]@ matches SqlValueView::Real(bits) && reals@[i]
                    == RealReading::Bits(bits) && !values::is_non_finite(bits),
                Cell::Text(s) => found[i]@ == SqlValueView::Text(s@),
                Cell::Blob(s) => found[i]@ matches SqlValueView::Blob(bytes)
                    && outside::plain_base64_decoded(s@) == Some(bytes),
                Cell::TextBytes(_) => false,
            }
        },
{
    if r is Ok {
        assert(sql::value_of(params@[i]@, reals@[i]) == Ok::<SqlValueView, Seq<char>>(
            r->Ok_0@[i]@,
        ));
    }
}

/// What decides whether a parameter is taken.
pub open spec fn is_taken(cell: Cell, reading: RealReading) -> bool {
    match cell {
        Cell::Null => true,
        Cell::Integer(s) => sql::integer_value(s@) is Some,
        Cell::Real(_) => reading matches RealReading::Bits(bits) && !values::is_non_finite(bits),
        Cell::Text(_) => true,
        Cell::Blob(s) => outside::plain_base64_decoded(s@) is Some,
        Cell::TextBytes(_) => false,
    }
}

/// The limits on statements: the text in bytes, the number of parameters, and no NUL.
pub proof fn statements_within_limits_are_let_through(
    statement: &str,
    params: &Vec<Cell>,
    reals: &Vec<RealReading>,
    config: &Config,
    r: Result<Vec<SqlValue>, CoreError>,
)
    requires
        reals@.len() == params@.len(),
        call_ensures(check_statement, (statement, params, reals, config), r),
    ensures
        r is Ok <==> {
            &&& encode_utf8(statement@).len() <= config.sql_byte_limit
            &&& params@.len() <= config.parameter_limit
            &&& !statement@.contains('\0')
            &&& forall|i: int| 0 <= i < params@.len() ==> is_taken(#[trigger] params@[i], reals@[i])
        },
        encode_utf8(statement@).len() > config.sql_byte_limit ==> (r matches Err(e)
            && e.is_worker_message("SQL exceeds configured byte limit"@)),
        encode_utf8(statement@).len() <= config.sql_byte_limit && params@.len()
            > config.parameter_limit ==> (r matches Err(e) && e.is_worker_message(
            "too many parameters"@,
        )),
{
    assert forall|i: int| 0 <= i < params@.len() implies is_taken(#[trigger] params@[i], reals@[i])
        == (sql::value_of(params@[i]@, reals@[i]) is Ok) by {}
    if r is Ok {
        assert forall|i: int| 0 <= i < params@.len() implies is_taken(
            #[trigger] params@[i],
            reals@[i],
        ) by {
            assert(sql::value_of(params@[i]@, reals@[i]) is Ok);
        }
    } else if encode_utf8(statement@).len() <= config.sql_byte_limit && params@.len()
        <= config.parameter_limit && !statement@.contains('\0') {
        let (i, m) = choose|i: int, m: Seq<char>| #[trigger]
            sql::is_first_refused(params@, reals@, i) && sql::value_of(params@[i]@, reals@[i])
                == Err::<SqlValueView, Seq<char>>(m) && #[trigger] (r->Err_0).is_worker_message(m);
        assert(!is_taken(params@[i], reals@[i]));
    }
}

/// An integer is digits with at most one sign before them, and it is in range; a plus
/// changes nothing, and a minus negates.
pub proof fn integers_are_signed_digits(s: Seq<char>, i: int, n: i64)
    requires
        sql::integer_value(s) == Some(n),
    ensures
        s.len() > 0,
        0 <= i < s.len() ==> '0' <= s[i] <= '9' || i == 0 && s.len() > 1 && (s[0] == '+' || s[0]
            == '-'),
        '0' <= s[0] <= '9' ==> n >= 0,
        '0' <= s[0] <= '9' ==> sql::integer_value(seq!['+'] + s) == Some(n),
        '0' <= s[0] <= '9' ==> sql::integer_value(seq!['-'] + s) == Some((-n) as i64),
        s[0] == '-' ==> n <= 0,
{
    let d = sql::without_sign(s);
    if 0 <= i < s.len() {
        if s[0] == '+' || s[0] == '-' {
            assert(d.len() == s.len() - 1);
            if i > 0 {
                assert(sql::is_digit_char(d[i - 1]));
            }
        } else {
            assert(sql::is_digit_char(d[i]));
        }
    }
    assert(s.len() > 0);
    assert((seq!['+'] + s).skip(1) =~= s);
    assert((seq!['-'] + s).skip(1) =~= s);
}

/// A number beyond 64 bits is no integer.
pub proof fn integers_have_64_bits(n: int)
    ensures
        sql::integer_value(text::signed_decimal(n)) == if -0x8000_0000_0000_0000 <= n
            <= 0x7fff_ffff_ffff_ffff {
            Some(n as i64)
        } else {
            None
        },
{
    let magnitude: nat = if n < 0 {
        (-n) as nat
    } else {
        n as nat
    };
    sql::lemma_decimal_digits(magnitude);
    let s = text::signed_decimal(n);
    if n < 0 {
        assert(s.skip(1) =~= text::decimal(magnitude));
    } else {
        assert(sql::is_digit_char(s[0]));
    }
}

/// Every value that SQLite gives out is shown for what it is: null as null, integers in
/// decimal, text as text with the same bytes, and blobs and text that is no UTF-8 in
/// base64. A real number is shown by the text that reads back as it, and one that is not
/// finite by its sign.
pub proof fn values_are_shown_as_they_are(v: ColumnValue, r: Cell)
    requires
        call_ensures(sql::cell, (v,), r),
    ensures
        match v {
            ColumnValue::Null => r is Null,
            ColumnValue::Integer(n) => r matches Cell::Integer(s) && s@ == text::signed_decimal(
                n as int,
            ) && sql::integer_value(s@) == Some(n),
            ColumnValue::Real { bits, display } => r matches Cell::Real(s) && {
                let exponent = (bits / 0x10_0000_0000_0000) % 0x800;
                &&& exponent != 0x7ff ==> s@ == display@
                &&& exponent == 0x7ff && bits < 0x8000_0000_0000_0000 ==> s@ == "Infinity"@
                &&& exponent == 0x7ff && bits >= 0x8000_0000_0000_0000 ==> s@ == "-Infinity"@
            },
            ColumnValue::Text(bytes) => if valid_utf8(bytes@) {
                r matches Cell::Text(s) && encode_utf8(s@) == bytes@
            } else {
                r matches Cell::TextBytes(s) && s@ == outside::plain_base64(bytes@)
            },
            ColumnValue::Blob(bytes) => r matches Cell::Blob(s) && s@ == outside::plain_base64(
                bytes@,
            ),
        },
{
    match v {
        ColumnValue::Integer(n) => {
            sql::integers_read_back(n);
        },
        ColumnValue::Text(_) => {
            if let Cell::Text(s) = r {
                encode_utf8_valid_utf8(s@);
            }
        },
        _ => {},
    }
}

/// A statement returns its columns and its first rows, in their order, up to the limit,
/// and says whether there were more. The rows are those that were pushed.
pub proof fn results_hold_the_first_rows(
    columns: Vec<String>,
    column_limit: usize,
    row_limit: usize,
    started: Result<RowCollector, SqliteFailure>,
    rows: Seq<Vec<Cell>>,
    last: RowCollector,
    before: i32,
    after: i32,
    changes: u64,
    r: QueryResult,
)
    requires
        call_ensures(RowCollector::start, (columns, column_limit, row_limit), started),
        started matches Ok(c) && last.columns == c.columns && last.row_limit == c.row_limit && (
        last.rows@,
        last.truncated,
    ) == query::gathered(c.rows@ + rows, c.row_limit as nat) || started is Err,
        call_ensures(RowCollector::finish, (last, before, after, changes), r),
    ensures
        started is Ok <==> columns@.len() <= column_limit,
        started is Ok ==> {
            &&& r.columns == columns
            &&& rows.len() <= row_limit ==> r.rows@ == rows && !r.truncated
            &&& rows.len() > row_limit ==> r.rows@ == rows.take(row_limit as int) && r.truncated
            &&& r.rows_returned == r.rows@.len()
            &&& r.execution_complete
            &&& after > before ==> r.changes == changes
            &&& after <= before ==> r.changes == 0
        },
{
    if let Ok(c) = started {
        assert(c.rows@ + rows =~= rows);
        query::first_rows_are_kept(rows, row_limit as nat);
    }
}

/// Taking one more row is gathering one more.
pub proof fn pushed_rows_are_gathered(
    collector: &mut RowCollector,
    row: Vec<Cell>,
    rows: Seq<Vec<Cell>>,
    r: (),
)
    requires
        call_ensures(RowCollector::push, (collector, row), r),
        (old(collector).rows@, old(collector).truncated) == query::gathered(
            rows,
            old(collector).row_limit as nat,
        ),
    ensures
        (final(collector).rows@, final(collector).truncated) == query::gathered(
            rows.push(row),
            old(collector).row_limit as nat,
        ),
        final(collector).columns == old(collector).columns,
        final(collector).row_limit == old(collector).row_limit,
{
    assert(rows.push(row).drop_last() =~= rows);
}

/// The text of a batch is let through exactly where it is within its limit and holds no
/// NUL.
pub proof fn batch_texts_are_bounded(
    statements: &str,
    byte_limit: usize,
    checked: Result<(), CoreError>,
)
    requires
        call_ensures(validate_batch_sql, (statements, byte_limit), checked),
    ensures
        checked is Ok <==> encode_utf8(statements@).len() <= byte_limit && !statements@.contains(
            '\0',
        ),
{
}

/// A cell is written with its type, and with its text unless it is null.
pub proof fn cells_are_written_with_their_type(c: CellView)
    ensures
        ({
            let members = query::cell_members(c);
            &&& members.len() == if c is Null {
                1int
            } else {
                2int
            }
            &&& members[0].0 == "type"@
            &&& c is Null ==> members[0].1 == "null"@
            &&& c matches CellView::Integer(s) ==> members[0].1 == "integer"@ && members[1] == (
                "value"@,
                s,
            )
            &&& c matches CellView::Real(s) ==> members[0].1 == "real"@ && members[1] == (
                "value"@,
                s,
            )
            &&& c matches CellView::Text(s) ==> members[0].1 == "text"@ && members[1] == (
                "value"@,
                s,
            )
            &&& c matches CellView::Blob(s) ==> members[0].1 == "blob"@ && members[1] == (
                "value"@,
                s,
            )
        }),
{
}

/// The text of a batch is what its file holds, where that is within the limit, is
/// UTF-8 and holds no NUL.
pub proof fn batch_files_are_read_whole(
    bytes: Vec<u8>,
    byte_limit: usize,
    r: Result<String, CoreError>,
)
    requires
        call_ensures(batch_text, (bytes, byte_limit), r),
    ensures
        r matches Ok(s) ==> bytes@.len() <= byte_limit && encode_utf8(s@) == bytes@ && !s@.contains(
            '\0',
        ),
        bytes@.len() > byte_limit ==> (r matches Err(e) && e.is_worker_message(
            "batch SQL exceeds configured byte limit"@,
        )),
        bytes@.len() <= byte_limit && !valid_utf8(bytes@) ==> (r matches Err(e)
            && e.is_worker_message("batch SQL file is not valid UTF-8"@)),
        bytes@.len() <= byte_limit && valid_utf8(bytes@) && r is Err ==> r->Err_0.is_worker_message(
            "batch SQL contains NUL"@,
        ) && exists|t: Seq<char>| encode_utf8(t) == bytes@ && #[trigger] t.contains('\0'),
{
    if let Ok(s) = r {
        encode_utf8_valid_utf8(s@);
    }
}

/// A result counts with its columns and rows as they are written: the names of the
/// columns, and every cell of every row with its type.
pub proof fn results_count_as_they_are_written(result: &QueryResult, r: usize, i: int, j: int)
    requires
        call_ensures(query::payload_len, (result,), r),
    ensures
        r == encode_utf8(
            outside::json_payload(
                "columns"@,
                text::views(result.columns@),
                "rows"@,
                query::rows_members(result.rows@),
            ),
        ).len(),
        query::rows_members(result.rows@).len() == result.rows@.len(),
        0 <= i < result.rows@.len() && 0 <= j < result.rows@[i]@.len() ==> query::rows_members(
            result.rows@,
        )[i][j] == query::cell_members(result.rows@[i]@[j]@),
{
}

} // verus!
