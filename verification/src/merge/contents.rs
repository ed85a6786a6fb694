//! What the text of a database holds.
use crate::merge::error::MergeError;
use crate::merge::schema;
use crate::merge::schema::{SchemaClass, SchemaStatement, StatementView, TableShape};
use crate::merge::snapshot;
use crate::merge::snapshot::{extract_one, TableSource};
use crate::merge::values;
use crate::merge::values::SourceValue;
use crate::outside;
use crate::text;
use vstd::prelude::*;
use vstd::utf8::*;

verus! {

/// What is written of a row: a line that says the table, the place of the row and its
/// values with their types, and the statement that inserts it.
pub open spec fn row_lines(
    name: Seq<char>,
    shape: TableShape,
    ordinal: nat,
    row: Seq<SourceValue>,
) -> Seq<char> {
    "-- sqlite-mcp typed-value: v1 table_b64="@ + outside::url_base64(encode_utf8(name)) + " row="@
        + text::decimal(ordinal) + " values_b64="@ + outside::url_base64(
        encode_utf8(
            outside::json_objects(
                row.map_values(|v: SourceValue| values::typed_members(v)->Ok_0),
            ),
        ),
    ) + "\n"@ + ("INSERT INTO "@ + values::quoted(name, '"') + " ("@ + text::join(
        snapshot::row_columns(shape),
        ","@,
    ) + ") VALUES ("@ + text::join(snapshot::row_literals(row)->Ok_0, ","@) + ");\n"@)
}

/// What is written of the first `n` rows of a table.
pub open spec fn rows_lines(
    name: Seq<char>,
    shape: TableShape,
    rows: Seq<Vec<SourceValue>>,
    n: nat,
) -> Seq<char>
    decreases n,
{
    if n == 0 {
        Seq::empty()
    } else {
        rows_lines(name, shape, rows, (n - 1) as nat) + row_lines(
            name,
            shape,
            (n - 1) as nat,
            rows[n - 1]@,
        )
    }
}

proof fn lemma_row_lines(name: Seq<char>, shape: TableShape, ordinal: nat, row: Seq<SourceValue>)
    ensures
        snapshot::row_text(name, shape, ordinal, row) == row_lines(name, shape, ordinal, row),
{
    assert(snapshot::row_members(row) =~= row.map_values(
        |v: SourceValue| values::typed_members(v)->Ok_0,
    ));
}

/// The rows of a table are written one behind the other, every one of them, and each
/// counts as a statement. They are refused only where there are more statements than
/// the limit, or a value has no literal.
pub proof fn rows_are_written_in_order(
    label: Seq<char>,
    name: Seq<char>,
    shape: TableShape,
    rows: Seq<Vec<SourceValue>>,
    n: nat,
    count: nat,
    limit: nat,
)
    requires
        n <= rows.len(),
    ensures
        match snapshot::rows_text(label, name, shape, rows, n, count, limit) {
            Ok((t, c)) => t == rows_lines(name, shape, rows, n) && c == count + n && (n > 0 ==> c
                <= limit),
            Err(fault) => (fault == ("MERGE_LIMIT_EXCEEDED"@, "merge statement limit exceeded"@)
                && count + n > limit) || (fault.0 == "MERGE_UNREPRESENTABLE_CONTENT"@ && exists|j: int|
                0 <= j < n && snapshot::row_literals((#[trigger] rows[j])@) is Err),
        },
        (n > 0 && count + n > limit) || (exists|j: int|
            0 <= j < n && snapshot::row_literals((#[trigger] rows[j])@) is Err) ==>
            snapshot::rows_text(label, name, shape, rows, n, count, limit) is Err,
    decreases n,
{
    if n > 0 {
        let m = (n - 1) as nat;
        rows_are_written_in_order(label, name, shape, rows, m, count, limit);
        lemma_row_lines(name, shape, m, rows[n - 1]@);
        if exists|j: int| 0 <= j < n && snapshot::row_literals((#[trigger] rows[j])@) is Err {
            let j = choose|j: int|
                0 <= j < n && snapshot::row_literals((#[trigger] rows[j])@) is Err;
            if j < m {
                assert(snapshot::rows_text(label, name, shape, rows, m, count, limit) is Err);
            }
        }
        if snapshot::rows_text(label, name, shape, rows, m, count, limit) is Ok {
            if snapshot::row_literals(rows[n - 1]@) is Err {
                assert(snapshot::row_literals(rows[m as int]@) is Err);
            }
        }
    }
}

/// A table is written as its statement and all its rows, where it could be described
/// and read to its end and its rows have an order.
pub proof fn tables_are_written_with_their_rows(
    label: Seq<char>,
    statement: StatementView,
    source: TableSource,
    count: nat,
    limit: nat,
)
    ensures
        match snapshot::table_text(label, statement, source, count, limit) {
            Ok((t, c)) => {
                let shape = snapshot::source_shape(statement.1, source);
                let rows = source.rows.rows@;
                &&& t == statement.2 + "\n"@ + rows_lines(statement.1, shape, rows, rows.len())
                &&& c == count + rows.len()
                &&& rows.len() > 0 ==> c <= limit
                &&& source.rows.failure is None
                &&& schema::metadata_fault(statement.1, source.list, source.columns) is None
                &&& shape.0 ==> shape.3.len() > 0
            },
            Err(_) => true,
        },
        source.rows.failure is Some ==> snapshot::table_text(
            label,
            statement,
            source,
            count,
            limit,
        ) is Err,
{
    let shape = snapshot::source_shape(statement.1, source);
    let rows = source.rows.rows@;
    rows_are_written_in_order(label, statement.1, shape, rows, rows.len(), count, limit);
}

/// The tables among the first `n` statements, with their rows.
pub open spec fn tables_lines(
    statements: Seq<StatementView>,
    sources: Seq<TableSource>,
    n: nat,
) -> Seq<char>
    decreases n,
{
    if n == 0 {
        Seq::empty()
    } else {
        let before = tables_lines(statements, sources, (n - 1) as nat);
        let s = statements[n - 1];
        if s.0 is Table {
            let source = sources[tables_before(statements, (n - 1) as nat) as int];
            before + (s.2 + "\n"@ + rows_lines(
                s.1,
                snapshot::source_shape(s.1, source),
                source.rows.rows@,
                source.rows.rows@.len(),
            ))
        } else {
            before
        }
    }
}

/// How many of the first `n` statements create tables.
pub open spec fn tables_before(statements: Seq<StatementView>, n: nat) -> nat
    decreases n,
{
    if n == 0 {
        0
    } else {
        tables_before(statements, (n - 1) as nat) + if statements[n - 1].0 == SchemaClass::Table {
            1nat
        } else {
            0nat
        }
    }
}

/// How many rows the tables among the first `n` statements have.
pub open spec fn rows_before(
    statements: Seq<StatementView>,
    sources: Seq<TableSource>,
    n: nat,
) -> nat
    decreases n,
{
    if n == 0 {
        0
    } else {
        rows_before(statements, sources, (n - 1) as nat) + if statements[n - 1].0 is Table {
            sources[tables_before(statements, (n - 1) as nat) as int].rows.rows@.len()
        } else {
            0
        }
    }
}

/// The statements among the first `n` that create no tables.
pub open spec fn others_lines(statements: Seq<StatementView>, n: nat) -> Seq<char>
    decreases n,
{
    if n == 0 {
        Seq::empty()
    } else {
        let before = others_lines(statements, (n - 1) as nat);
        if statements[n - 1].0 is Table {
            before
        } else {
            before + statements[n - 1].2 + "\n"@
        }
    }
}

proof fn lemma_tables_before(statements: Seq<StatementView>, n: nat)
    requires
        n <= statements.len(),
    ensures
        snapshot::table_count(statements.take(n as int)) == tables_before(statements, n),
    decreases n,
{
    if n > 0 {
        lemma_tables_before(statements, (n - 1) as nat);
        assert(statements.take(n as int).drop_last() =~= statements.take(n - 1));
    } else {
        assert(statements.take(0) =~= Seq::<StatementView>::empty());
    }
}

proof fn lemma_tables(
    label: Seq<char>,
    statements: Seq<StatementView>,
    sources: Seq<TableSource>,
    n: nat,
    limit: nat,
)
    requires
        n <= statements.len(),
    ensures
        snapshot::tables_text(label, statements, sources, n, limit) matches Ok((t, c)) ==> t
            == tables_lines(statements, sources, n) && c == statements.len() + rows_before(
            statements,
            sources,
            n,
        ) && (rows_before(statements, sources, n) > 0 ==> c <= limit),
    decreases n,
{
    if n > 0 {
        lemma_tables(label, statements, sources, (n - 1) as nat, limit);
        lemma_tables_before(statements, (n - 1) as nat);
        if snapshot::tables_text(label, statements, sources, n, limit) is Ok
            && statements[n - 1].0 is Table {
            let k = tables_before(statements, (n - 1) as nat) as int;
            let c = snapshot::tables_text(
                label,
                statements,
                sources,
                (n - 1) as nat,
                limit,
            )->Ok_0.1;
            tables_are_written_with_their_rows(label, statements[n - 1], sources[k], c, limit);
        }
    }
}

proof fn lemma_others(statements: Seq<StatementView>, n: nat, count: nat, limit: nat)
    requires
        n <= statements.len(),
    ensures
        snapshot::others_text(statements, n, count, limit) matches Ok((t, c)) ==> t
            == others_lines(statements, n) && c == count + (n - tables_before(statements, n)) && (c
            > count ==> c <= limit),
        tables_before(statements, n) <= n,
    decreases n,
{
    if n > 0 {
        lemma_others(statements, (n - 1) as nat, count, limit);
    }
}

/// The text of a database is the header, the baseline of its schema, every table with
/// every row, and everything else, each once and in this order. An empty schema gives
/// the header alone. The number of statements counts the schema, every row, and once
/// more what creates no table.
pub proof fn texts_hold_everything(
    label: &str,
    statements: &Vec<SchemaStatement>,
    sources: &Vec<TableSource>,
    out: &mut String,
    limit: usize,
    r: Result<u64, MergeError>,
)
    requires
        sources@.len() == snapshot::table_count(schema::statement_views(statements@)),
        forall|k: int| 0 <= k < sources@.len() ==> snapshot::names_fit(#[trigger] sources@[k]),
        call_ensures(extract_one, (label, statements, sources, out, limit), r),
        r is Ok,
    ensures
        ({
            let views = schema::statement_views(statements@);
            let n = views.len();
            let header = "-- sqlite-mcp merge-format: 1\n"@;
            &&& n == 0 ==> final(out)@ == old(out)@ + header && r->Ok_0 == 0
            &&& n > 0 ==> final(out)@ == old(out)@ + (header + baseline_lines(views)
                + tables_lines(views, sources@, n) + others_lines(views, n))
            &&& n > 0 ==> r->Ok_0 == n + rows_before(views, sources@, n) + (n - tables_before(
                views,
                n,
            ))
            &&& rows_before(views, sources@, n) > 0 || tables_before(views, n) < n ==> r->Ok_0
                <= limit
        }),
{
    let views = schema::statement_views(statements@);
    let n = views.len();
    lemma_tables(label@, views, sources@, n, limit as nat);
    if n > 0 {
        let c = snapshot::tables_text(label@, views, sources@, n, limit as nat)->Ok_0.1;
        lemma_others(views, n, c, limit as nat);
        lemma_baseline(views);
    }
}

/// The records of the first `n` statements.
pub open spec fn records_lines(statements: Seq<StatementView>, n: nat) -> Seq<char>
    decreases n,
{
    if n == 0 {
        Seq::empty()
    } else {
        let s = statements[n - 1];
        records_lines(statements, (n - 1) as nat) + ("-- sqlite-mcp schema-hash: v1 kind="@ + (
        match s.0 {
            SchemaClass::Table => "table"@,
            SchemaClass::Index => "index"@,
            SchemaClass::View => "view"@,
            SchemaClass::Trigger => "trigger"@,
        }) + " name_b64="@ + outside::url_base64(encode_utf8(s.1)) + " sql_sha256="@
            + outside::sha256_hex(encode_utf8(s.2)) + " sql_bytes="@ + outside::url_base64(
            encode_utf8(s.2),
        ) + "\n"@)
    }
}

/// The baseline: a line that counts the records, the records, and a line that closes
/// them.
pub open spec fn baseline_lines(statements: Seq<StatementView>) -> Seq<char> {
    "-- sqlite-mcp schema-baseline: v1 count="@ + text::decimal(statements.len()) + "\n"@
        + records_lines(statements, statements.len()) + "-- sqlite-mcp schema-baseline-end: v1\n"@
}

proof fn lemma_records(statements: Seq<StatementView>, n: nat)
    requires
        n <= statements.len(),
    ensures
        snapshot::records_text(statements.take(n as int)) == records_lines(statements, n),
    decreases n,
{
    if n > 0 {
        lemma_records(statements, (n - 1) as nat);
        assert(statements.take(n as int).drop_last() =~= statements.take(n - 1));
    }
}

proof fn lemma_baseline(statements: Seq<StatementView>)
    ensures
        snapshot::baseline_text(statements) == baseline_lines(statements),
{
    lemma_records(statements, statements.len());
    assert(statements.take(statements.len() as int) =~= statements);
}

/// The kinds of schema objects go by the words of the schema table, and are written
/// tables first, then indexes, views and triggers.
pub proof fn kinds_go_by_their_words(class: SchemaClass, r: &'static str)
    requires
        call_ensures(SchemaClass::as_str, (class,), r),
    ensures
        class is Table ==> r@ == "table"@ && class.rank() == 0,
        class is Index ==> r@ == "index"@ && class.rank() == 1,
        class is View ==> r@ == "view"@ && class.rank() == 2,
        class is Trigger ==> r@ == "trigger"@ && class.rank() == 3,
{
}

} // verus!
