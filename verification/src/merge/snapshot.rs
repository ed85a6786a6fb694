//! The merge text of one database.
use crate::merge::baseline;
use crate::merge::baseline::FORMAT_HEADER;
use crate::merge::error::MergeError;
use crate::merge::import;
use crate::merge::inert;
use crate::merge::replay;
use crate::merge::roundtrip;
use crate::merge::schema;
use crate::merge::schema::{
    table_metadata, ColumnRow, RowStream, SchemaClass, SchemaStatement, StatementView, TableListRow,
    TableMetadata, TableShape,
};
use crate::merge::values;
use crate::merge::values::{quoted_identifier, typed_value, value_literal, SourceValue};
use crate::outside;
use crate::outside::{
    debug_text_of, digest_sha256_hex, encode_url_base64, json_text_of_objects,
};
use crate::text;
use crate::text::{decimal_text, join_texts};
use vstd::prelude::*;
use vstd::utf8::*;

verus! {

/// What was read of one table: the table list, the table's columns and its
/// rows.
#[derive(Debug)]
pub struct TableSource {
    pub list: RowStream<TableListRow>,
    pub columns: RowStream<ColumnRow>,
    pub rows: RowStream<Vec<SourceValue>>,
}

/// One line of the schema baseline.
pub open spec fn record_text(s: StatementView) -> Seq<char> {
    "-- sqlite-mcp schema-hash: v1 kind="@ + s.0.word() + " name_b64="@ + outside::url_base64(
        encode_utf8(s.1),
    ) + " sql_sha256="@ + outside::sha256_hex(encode_utf8(s.2)) + " sql_bytes="@
        + outside::url_base64(encode_utf8(s.2)) + "\n"@
}

/// The lines of the schema baseline between its first and its last.
pub open spec fn records_text(statements: Seq<StatementView>) -> Seq<char>
    decreases statements.len(),
{
    if statements.len() == 0 {
        Seq::empty()
    } else {
        records_text(statements.drop_last()) + record_text(statements.last())
    }
}

/// The schema baseline.
pub open spec fn baseline_text(statements: Seq<StatementView>) -> Seq<char> {
    "-- sqlite-mcp schema-baseline: v1 count="@ + text::decimal(statements.len()) + "\n"@
        + records_text(statements) + "-- sqlite-mcp schema-baseline-end: v1\n"@
}

/// A column in double quotes. A name that holds NUL has no such form and leaves
/// an empty one.
pub open spec fn column_text(c: Seq<char>) -> Seq<char> {
    if values::has_nul(c) {
        "\"\""@
    } else {
        values::quoted(c, '"')
    }
}

/// Each column in double quotes.
pub open spec fn columns_text(names: Seq<Seq<char>>) -> Seq<Seq<char>> {
    names.map_values(|c: Seq<char>| column_text(c))
}

/// The columns that a row of the table is written with.
pub open spec fn row_columns(shape: TableShape) -> Seq<Seq<char>> {
    let names = columns_text(shape.1);
    if shape.0 || shape.2 {
        names
    } else {
        seq!["rowid"@] + names
    }
}

/// The query that gives the rows of a table in a fixed order.
pub open spec fn query_text(name: Seq<char>, shape: TableShape) -> Seq<char> {
    "SELECT "@ + text::join(row_columns(shape), ","@) + " FROM "@ + values::quoted(name, '"')
        + " ORDER BY "@ + if shape.0 {
        text::join(columns_text(shape.3), ","@)
    } else {
        "rowid"@
    }
}

/// The columns that rows were read of have names without NUL: no other name can
/// be written down.
pub open spec fn names_fit(source: TableSource) -> bool {
    source.rows.rows@.len() > 0 ==> forall|i: int|
        0 <= i < source.columns.rows@.len() && source.columns.rows@[i].hidden == 0
            ==> !values::has_nul((#[trigger] source.columns.rows@[i]).name@)
}

/// The literals of a row, or why one of its values has none.
pub open spec fn row_literals(row: Seq<SourceValue>) -> Result<Seq<Seq<char>>, Seq<char>>
    decreases row.len(),
{
    if row.len() == 0 {
        Ok(Seq::empty())
    } else {
        match row_literals(row.drop_last()) {
            Err(m) => Err(m),
            Ok(before) => match values::literal_of(row.last()) {
                Err(m) => Err(m),
                Ok(s) => Ok(before.push(s)),
            },
        }
    }
}

/// The typed annotations of a row whose values have one each.
pub open spec fn row_members(row: Seq<SourceValue>) -> Seq<Seq<(Seq<char>, Seq<char>)>> {
    row.map_values(|v: SourceValue| values::typed_members(v)->Ok_0)
}

/// The two lines of one row: its annotation and its statement.
pub open spec fn row_text(
    name: Seq<char>,
    shape: TableShape,
    ordinal: nat,
    row: Seq<SourceValue>,
) -> Seq<char> {
    "-- sqlite-mcp typed-value: v1 table_b64="@ + outside::url_base64(encode_utf8(name))
        + " row="@ + text::decimal(ordinal) + " values_b64="@ + outside::url_base64(
        encode_utf8(outside::json_objects(row_members(row))),
    ) + "\n"@ + insert_text(name, shape, row_literals(row)->Ok_0)
}

/// The statement that inserts one row.
pub open spec fn insert_text(
    name: Seq<char>,
    shape: TableShape,
    literals: Seq<Seq<char>>,
) -> Seq<char> {
    "INSERT INTO "@ + values::quoted(name, '"') + " ("@ + text::join(row_columns(shape), ","@)
        + ") VALUES ("@ + text::join(literals, ","@) + ");\n"@
}

pub open spec fn statement_limit_fault() -> (Seq<char>, Seq<char>) {
    ("MERGE_LIMIT_EXCEEDED"@, "merge statement limit exceeded"@)
}

/// The fault of a row with a value that has no literal.
pub open spec fn row_fault(
    label: Seq<char>,
    name: Seq<char>,
    ordinal: nat,
    message: Seq<char>,
) -> (Seq<char>, Seq<char>) {
    (
        "MERGE_UNREPRESENTABLE_CONTENT"@,
        label + "."@ + name + " row "@ + text::decimal(ordinal) + ": "@ + message,
    )
}

/// The text of the first `n` rows of a table and the number of statements
/// counted so far, starting from `count`.
pub open spec fn rows_text(
    label: Seq<char>,
    name: Seq<char>,
    shape: TableShape,
    rows: Seq<Vec<SourceValue>>,
    n: nat,
    count: nat,
    limit: nat,
) -> Result<(Seq<char>, nat), (Seq<char>, Seq<char>)>
    decreases n,
{
    if n == 0 {
        Ok((Seq::empty(), count))
    } else {
        match rows_text(label, name, shape, rows, (n - 1) as nat, count, limit) {
            Err(fault) => Err(fault),
            Ok((before, c)) => if c >= limit {
                Err(statement_limit_fault())
            } else {
                match row_literals(rows[n - 1]@) {
                    Err(m) => Err(row_fault(label, name, (n - 1) as nat, m)),
                    Ok(_) => Ok(
                        (before + row_text(name, shape, (n - 1) as nat, rows[n - 1]@), c + 1),
                    ),
                }
            },
        }
    }
}

/// The fault of a table without row ids that has no primary key.
pub open spec fn keyless_fault(name: Seq<char>) -> (Seq<char>, Seq<char>) {
    (
        "MERGE_UNREPRESENTABLE_CONTENT"@,
        "WITHOUT ROWID table "@ + outside::debug_text(name)
            + " has no deterministic primary key"@,
    )
}

/// The shape of a table that could be described.
pub open spec fn source_shape(name: Seq<char>, source: TableSource) -> TableShape {
    schema::shape_of(schema::find_table(source.list.rows@, name)->0, source.columns.rows@)
}

/// The text of one table and the number of statements counted so far.
pub open spec fn table_text(
    label: Seq<char>,
    statement: StatementView,
    source: TableSource,
    count: nat,
    limit: nat,
) -> Result<(Seq<char>, nat), (Seq<char>, Seq<char>)> {
    let shape = source_shape(statement.1, source);
    match schema::metadata_fault(statement.1, source.list, source.columns) {
        Some(fault) => Err(fault),
        None => if shape.0 && shape.3.len() == 0 {
            Err(keyless_fault(statement.1))
        } else {
            match rows_text(
                label,
                statement.1,
                shape,
                source.rows.rows@,
                source.rows.rows@.len(),
                count,
                limit,
            ) {
                Err(fault) => Err(fault),
                Ok((rows, c)) => match source.rows.failure {
                    Some(m) => Err(("MERGE_INPUT_INVALID"@, m@)),
                    None => Ok((statement.2 + "\n"@ + rows, c)),
                },
            }
        },
    }
}

/// How many of the statements create tables.
pub open spec fn table_count(statements: Seq<StatementView>) -> nat
    decreases statements.len(),
{
    if statements.len() == 0 {
        0
    } else {
        table_count(statements.drop_last()) + if statements.last().0 is Table {
            1nat
        } else {
            0nat
        }
    }
}

/// The text of the tables among the first `n` statements.
pub open spec fn tables_text(
    label: Seq<char>,
    statements: Seq<StatementView>,
    sources: Seq<TableSource>,
    n: nat,
    limit: nat,
) -> Result<(Seq<char>, nat), (Seq<char>, Seq<char>)>
    decreases n,
{
    if n == 0 {
        Ok((Seq::empty(), statements.len()))
    } else {
        match tables_text(label, statements, sources, (n - 1) as nat, limit) {
            Err(fault) => Err(fault),
            Ok((before, c)) => if statements[n - 1].0 is Table {
                let k = table_count(statements.take(n - 1)) as int;
                match table_text(label, statements[n - 1], sources[k], c, limit) {
                    Err(fault) => Err(fault),
                    Ok((t, d)) => Ok((before + t, d)),
                }
            } else {
                Ok((before, c))
            },
        }
    }
}

/// The text of the other statements among the first `n`.
pub open spec fn others_text(
    statements: Seq<StatementView>,
    n: nat,
    count: nat,
    limit: nat,
) -> Result<(Seq<char>, nat), (Seq<char>, Seq<char>)>
    decreases n,
{
    if n == 0 {
        Ok((Seq::empty(), count))
    } else {
        match others_text(statements, (n - 1) as nat, count, limit) {
            Err(fault) => Err(fault),
            Ok((before, c)) => if statements[n - 1].0 is Table {
                Ok((before, c))
            } else if c >= limit {
                Err(statement_limit_fault())
            } else {
                Ok((before + statements[n - 1].2 + "\n"@, c + 1))
            },
        }
    }
}

/// The merge text of a database and the number of statements that it was
/// counted with, or the first thing that stands against it.
pub open spec fn snapshot_text(
    label: Seq<char>,
    statements: Seq<StatementView>,
    sources: Seq<TableSource>,
    limit: nat,
) -> Result<(Seq<char>, nat), (Seq<char>, Seq<char>)> {
    let n = statements.len();
    if n == 0 {
        Ok((FORMAT_HEADER@, 0))
    } else {
        match tables_text(label, statements, sources, n, limit) {
            Err(fault) => Err(fault),
            Ok((tables, c)) => match others_text(statements, n, c, limit) {
                Err(fault) => Err(fault),
                Ok((others, d)) => Ok(
                    (FORMAT_HEADER@ + baseline_text(statements) + tables + others, d),
                ),
            },
        }
    }
}

/// Each column in double quotes.
fn quoted_columns(names: &Vec<String>) -> (r: Vec<String>)
    ensures
        text::views(r@) == columns_text(text::views(names@)),
{
    let mut out: Vec<String> = Vec::new();
    let mut i: usize = 0;
    while i < names.len()
        invariant
            i <= names@.len(),
            text::views(out@) == columns_text(text::views(names@.take(i as int))),
        decreases names.len() - i,
    {
        let column = match quoted_identifier(names[i].as_str()) {
            Ok(q) => q,
            Err(_) => "\"\"".to_owned(),
        };
        let ghost prior = text::views(out@);
        assert(column@ == column_text(names@[i as int]@));
        out.push(column);
        assert(text::views(out@) =~= prior.push(column@));
        assert(columns_text(text::views(names@.take(i + 1))) =~= prior.push(column@));
        i += 1;
    }
    assert(names@.take(names@.len() as int) =~= names@);
    out
}

/// The columns that a row of the table is written with.
fn row_column_texts(meta: &TableMetadata) -> (r: Vec<String>)
    ensures
        text::views(r@) == row_columns(meta@),
{
    let names = quoted_columns(&meta.columns);
    if meta.without_rowid || meta.integer_primary_key {
        names
    } else {
        let mut out = names;
        let ghost prior = text::views(out@);
        out.insert(0, "rowid".to_owned());
        assert(text::views(out@) =~= seq!["rowid"@] + prior);
        out
    }
}

/// The query that gives the rows of a table in a fixed order: by its primary
/// key where it has no row ids, else by row id.
pub fn row_query(name: &str, meta: &TableMetadata) -> (r: Result<String, MergeError>)
    ensures
        match r {
            Ok(q) => !values::has_nul(name@) && !(meta@.0 && meta@.3.len() == 0) && q@
                == query_text(name@, meta@),
            Err(e) => e.details is Null && e.fault() == if values::has_nul(name@) {
                values::nul_identifier(name@)
            } else {
                keyless_fault(name@)
            } && (values::has_nul(name@) || (meta@.0 && meta@.3.len() == 0)),
        },
{
    let quoted_name = match quoted_identifier(name) {
        Ok(q) => q,
        Err(e) => return Err(e),
    };
    let mut query = "SELECT ".to_owned();
    query.append(join_texts(&row_column_texts(meta), ",").as_str());
    query.append(" FROM ");
    query.append(quoted_name.as_str());
    if meta.without_rowid {
        assert(meta@.3.len() == meta.primary_key@.len());
        if meta.primary_key.len() == 0 {
            return Err(keyless(name));
        }
        query.append(" ORDER BY ");
        query.append(join_texts(&quoted_columns(&meta.primary_key), ",").as_str());
    } else {
        query.append(" ORDER BY ");
        query.append("rowid");
    }
    Ok(query)
}

fn keyless(name: &str) -> (r: MergeError)
    ensures
        r.fault() == keyless_fault(name@),
        r.details is Null,
{
    let mut message = "WITHOUT ROWID table ".to_owned();
    message.append(debug_text_of(name).as_str());
    message.append(" has no deterministic primary key");
    MergeError::with_message("MERGE_UNREPRESENTABLE_CONTENT", message)
}

fn over_limit() -> (r: MergeError)
    ensures
        r.fault() == statement_limit_fault(),
        r.details is Null,
{
    MergeError::new("MERGE_LIMIT_EXCEEDED", "merge statement limit exceeded")
}

fn bad_row(label: &str, name: &str, ordinal: u64, message: &str) -> (r: MergeError)
    ensures
        r.fault() == row_fault(label@, name@, ordinal as nat, message@),
        r.details is Null,
{
    let mut m = label.to_owned();
    m.append(".");
    m.append(name);
    m.append(" row ");
    m.append(decimal_text(ordinal).as_str());
    m.append(": ");
    m.append(message);
    MergeError::with_message("MERGE_UNREPRESENTABLE_CONTENT", m)
}

/// The literals and the typed annotations of a row.
fn row_parts(row: &Vec<SourceValue>) -> (r: Result<
    (Vec<String>, Vec<Vec<(String, String)>>),
    String,
>)
    ensures
        match row_literals(row@) {
            Ok(literals) => r matches Ok(v) && text::views(v.0@) == literals
                && outside::objects_view(v.1@) == row_members(row@) && outside::all_tagged(
                outside::objects_view(v.1@),
            ),
            Err(m) => r matches Err(e) && e@ == m,
        },
{
    let mut literals: Vec<String> = Vec::new();
    let mut typed: Vec<Vec<(String, String)>> = Vec::new();
    let mut i: usize = 0;
    assert(text::views(literals@) =~= Seq::<Seq<char>>::empty());
    assert(outside::objects_view(typed@) =~= row_members(row@.take(0)));
    while i < row.len()
        invariant
            i <= row@.len(),
            row_literals(row@.take(i as int)) == Ok::<Seq<Seq<char>>, Seq<char>>(
                text::views(literals@),
            ),
            outside::objects_view(typed@) == row_members(row@.take(i as int)),
            outside::all_tagged(outside::objects_view(typed@)),
        decreases row.len() - i,
    {
        assert(row@.take(i + 1).drop_last() =~= row@.take(i as int));
        match value_literal(&row[i]) {
            Err(m) => {
                proof {
                    lemma_row_literals_error(row@, i + 1);
                }
                return Err(m);
            },
            Ok(s) => {
                let ghost prior = text::views(literals@);
                literals.push(s);
                assert(text::views(literals@) =~= prior.push(s@));
            },
        }
        match typed_value(&row[i]) {
            Err(m) => {
                assert(false);
                return Err(m);
            },
            Ok(members) => {
                let ghost prior = outside::objects_view(typed@);
                typed.push(members);
                assert(outside::objects_view(typed@) =~= prior.push(
                    outside::members_view(members@),
                ));
                assert(row_members(row@.take(i + 1)) =~= prior.push(
                    values::typed_members(row@[i as int])->Ok_0,
                ));
            },
        }
        i += 1;
    }
    assert(row@.take(row@.len() as int) =~= row@);
    Ok((literals, typed))
}

proof fn lemma_row_literals_error(row: Seq<SourceValue>, n: int)
    requires
        0 <= n <= row.len(),
        row_literals(row.take(n)) is Err,
    ensures
        row_literals(row) == row_literals(row.take(n)),
    decreases row.len(),
{
    if n < row.len() {
        assert(row.drop_last().take(n) =~= row.take(n));
        lemma_row_literals_error(row.drop_last(), n);
    } else {
        assert(row.take(n) =~= row);
    }
}

proof fn lemma_rows_error(
    label: Seq<char>,
    name: Seq<char>,
    shape: TableShape,
    rows: Seq<Vec<SourceValue>>,
    n: nat,
    m: nat,
    count: nat,
    limit: nat,
)
    requires
        n <= m,
        rows_text(label, name, shape, rows, n, count, limit) is Err,
    ensures
        rows_text(label, name, shape, rows, m, count, limit) == rows_text(
            label,
            name,
            shape,
            rows,
            n,
            count,
            limit,
        ),
    decreases m,
{
    if n < m {
        lemma_rows_error(label, name, shape, rows, n, (m - 1) as nat, count, limit);
    }
}

/// Appends the two lines of one row.
#[verifier::spinoff_prover]
#[verifier::rlimit(40)]
fn push_row(
    out: &mut String,
    name: &str,
    quoted_name: &str,
    columns: &str,
    ordinal: u64,
    literals: &Vec<String>,
    typed: &Vec<Vec<(String, String)>>,
)
    requires
        outside::all_tagged(outside::objects_view(typed@)),
    ensures
        final(out)@ == old(out)@ + ("-- sqlite-mcp typed-value: v1 table_b64="@
            + outside::url_base64(encode_utf8(name@)) + " row="@ + text::decimal(ordinal as nat)
            + " values_b64="@ + outside::url_base64(
            encode_utf8(outside::json_objects(outside::objects_view(typed@))),
        ) + "\n"@ + ("INSERT INTO "@ + quoted_name@ + " ("@ + columns@ + ") VALUES ("@ + text::join(
            text::views(literals@),
            ","@,
        ) + ");\n"@)),
        roundtrip::code_reads_back(encode_utf8(name@)),
        roundtrip::code_reads_back(
            encode_utf8(outside::json_objects(outside::objects_view(typed@))),
        ),
{
    let ghost start = out@;
    out.append("-- sqlite-mcp typed-value: v1 table_b64=");
    let name_code = encode_url_base64(name.as_bytes());
    out.append(name_code.as_str());
    out.append(" row=");
    let ordinal_text = decimal_text(ordinal);
    out.append(ordinal_text.as_str());
    out.append(" values_b64=");
    let json = json_text_of_objects(typed);
    let code = encode_url_base64(json.as_str().as_bytes());
    out.append(code.as_str());
    out.append("\n");
    out.append("INSERT INTO ");
    out.append(quoted_name);
    out.append(" (");
    out.append(columns);
    out.append(") VALUES (");
    let joined = join_texts(literals, ",");
    out.append(joined.as_str());
    out.append(");\n");
    assert(out@ =~= start + ("-- sqlite-mcp typed-value: v1 table_b64="@ + name_code@ + " row="@
        + ordinal_text@ + " values_b64="@ + code@ + "\n"@ + ("INSERT INTO "@ + quoted_name@ + " ("@
        + columns@ + ") VALUES ("@ + joined@ + ");\n"@)));
}

/// Appends the lines of the rows of one table.
fn append_rows(
    label: &str,
    name: &str,
    meta: &TableMetadata,
    rows: &Vec<Vec<SourceValue>>,
    out: &mut String,
    count: u64,
    limit: usize,
) -> (r: Result<u64, MergeError>)
    requires
        !values::has_nul(name@),
    ensures
        old(out)@.is_prefix_of(final(out)@),
        match rows_text(
            label@,
            name@,
            meta@,
            rows@,
            rows@.len(),
            count as nat,
            limit as nat,
        ) {
            Ok((t, c)) => {
                &&& r matches Ok(n) && n == c
                &&& final(out)@ == old(out)@ + t
                &&& forall|k: int|
                    0 <= k < rows@.len() ==> inert::row_codes_read_back(
                        name@,
                        (#[trigger] rows@[k])@,
                    )
            },
            Err(fault) => r matches Err(e) && e.fault() == fault && e.details is Null,
        },
{
    let ghost start = out@;
    let quoted_name = match quoted_identifier(name) {
        Ok(q) => q,
        Err(e) => {
            assert(false);
            return Err(e);
        },
    };
    let columns = join_texts(&row_column_texts(meta), ",");
    let mut total: u64 = count;
    let mut i: usize = 0;
    assert(start + Seq::<char>::empty() =~= start);
    while i < rows.len()
        invariant
            i <= rows@.len(),
            !values::has_nul(name@),
            quoted_name@ == values::quoted(name@, '"'),
            columns@ == text::join(row_columns(meta@), ","@),
            start == old(out)@,
            start.is_prefix_of(out@),
            rows_text(label@, name@, meta@, rows@, i as nat, count as nat, limit as nat) matches Ok(
                v,
            ) && v.1 == total && out@ == start + v.0,
            forall|k: int|
                0 <= k < i ==> inert::row_codes_read_back(name@, (#[trigger] rows@[k])@),
        decreases rows.len() - i,
    {
        let ghost prior = rows_text(
            label@,
            name@,
            meta@,
            rows@,
            i as nat,
            count as nat,
            limit as nat,
        )->Ok_0.0;
        if total >= limit as u64 {
            proof {
                lemma_rows_error(
                    label@,
                    name@,
                    meta@,
                    rows@,
                    (i + 1) as nat,
                    rows@.len(),
                    count as nat,
                    limit as nat,
                );
            }
            return Err(over_limit());
        }
        match row_parts(&rows[i]) {
            Err(m) => {
                proof {
                    lemma_rows_error(
                        label@,
                        name@,
                        meta@,
                        rows@,
                        (i + 1) as nat,
                        rows@.len(),
                        count as nat,
                        limit as nat,
                    );
                }
                return Err(bad_row(label, name, i as u64, m.as_str()));
            },
            Ok((literals, typed)) => {
                push_row(
                    out,
                    name,
                    quoted_name.as_str(),
                    columns.as_str(),
                    i as u64,
                    &literals,
                    &typed,
                );
                assert(out@ =~= start + (prior + row_text(name@, meta@, i as nat, rows@[i as int]@)));
            },
        }
        total = total + 1;
        i += 1;
    }
    Ok(total)
}

/// Appends the text of one table.
fn append_table(
    label: &str,
    statement: &SchemaStatement,
    source: &TableSource,
    out: &mut String,
    count: u64,
    limit: usize,
) -> (r: Result<u64, MergeError>)
    ensures
        old(out)@.is_prefix_of(final(out)@),
        match table_text(label@, statement@, *source, count as nat, limit as nat) {
            Ok((t, c)) => {
                &&& r matches Ok(n) && n == c
                &&& final(out)@ == old(out)@ + t
                &&& replay::source_codes_read_back(statement@.1, *source)
            },
            Err(fault) => r matches Err(e) && e.fault() == fault && e.details is Null,
        },
{
    let ghost start = out@;
    out.append(statement.sql.as_str());
    out.append("\n");
    let ghost opened = out@;
    assert(start.is_prefix_of(opened));
    let name = statement.name.as_str();
    let meta = match table_metadata(name, &source.list, &source.columns) {
        Ok(m) => m,
        Err(e) => return Err(e),
    };
    if meta.without_rowid && meta.primary_key.len() == 0 {
        assert(meta@.3.len() == 0);
        return Err(keyless(name));
    }
    assert(meta@.3.len() == meta.primary_key@.len());
    let total: u64 = match append_rows(label, name, &meta, &source.rows.rows, out, count, limit) {
        Ok(n) => n,
        Err(e) => {
            assert(start.is_prefix_of(out@));
            return Err(e);
        },
    };
    proof {
        let rows = rows_text(
            label@,
            name@,
            meta@,
            source.rows.rows@,
            source.rows.rows@.len(),
            count as nat,
            limit as nat,
        )->Ok_0.0;
        assert(opened + rows =~= start + (statement.sql@ + "\n"@ + rows));
    }
    match &source.rows.failure {
        Some(m) => Err(MergeError::new("MERGE_INPUT_INVALID", m.as_str())),
        None => Ok(total),
    }
}

/// Appends the schema baseline.
fn push_baseline(statements: &Vec<SchemaStatement>, out: &mut String)
    ensures
        final(out)@ == old(out)@ + baseline_text(schema::statement_views(statements@)),
        forall|k: int|
            0 <= k < statements@.len() ==> roundtrip::codes_read_back(
                #[trigger] schema::statement_views(statements@)[k],
            ),
{
    let ghost start = out@;
    let ghost views = schema::statement_views(statements@);
    out.append("-- sqlite-mcp schema-baseline: v1 count=");
    let count = decimal_text(statements.len() as u64);
    out.append(count.as_str());
    out.append("\n");
    let ghost head = out@;
    let mut i: usize = 0;
    assert(head + records_text(views.take(0)) =~= head);
    while i < statements.len()
        invariant
            i <= statements@.len(),
            views == schema::statement_views(statements@),
            out@ == head + records_text(views.take(i as int)),
            forall|k: int| 0 <= k < i ==> roundtrip::codes_read_back(#[trigger] views[k]),
        decreases statements.len() - i,
    {
        let ghost before = out@;
        let s = &statements[i];
        assert(views.take(i + 1).drop_last() =~= views.take(i as int));
        assert(views[i as int] == s@);
        out.append("-- sqlite-mcp schema-hash: v1 kind=");
        out.append(s.class.as_str());
        out.append(" name_b64=");
        let name_code = encode_url_base64(s.name.as_str().as_bytes());
        out.append(name_code.as_str());
        out.append(" sql_sha256=");
        let digest = digest_sha256_hex(s.sql.as_str().as_bytes());
        out.append(digest.as_str());
        out.append(" sql_bytes=");
        let sql_code = encode_url_base64(s.sql.as_str().as_bytes());
        out.append(sql_code.as_str());
        out.append("\n");
        assert(roundtrip::codes_read_back(s@));
        assert(out@ =~= before + record_text(s@));
        assert(before + record_text(s@) =~= head + (records_text(views.take(i as int))
            + record_text(s@)));
        i += 1;
    }
    assert(views.take(views.len() as int) =~= views);
    out.append("-- sqlite-mcp schema-baseline-end: v1\n");
    assert(out@ =~= start + baseline_text(views));
}

/// An importer reads from this text the baseline of these statements: every
/// name with the bytes of its statement.
pub open spec fn baseline_is_kept(text: Seq<char>, statements: Seq<StatementView>) -> bool {
    baseline::baseline_of(encode_utf8(text), baseline::ascii(FORMAT_HEADER).len() as int) matches Ok(
        v,
    ) && v.0 == roundtrip::add_all(Map::empty(), statements)
}

proof fn lemma_tables_error(
    label: Seq<char>,
    statements: Seq<StatementView>,
    sources: Seq<TableSource>,
    n: nat,
    m: nat,
    limit: nat,
)
    requires
        n <= m,
        tables_text(label, statements, sources, n, limit) is Err,
    ensures
        tables_text(label, statements, sources, m, limit) == tables_text(
            label,
            statements,
            sources,
            n,
            limit,
        ),
    decreases m,
{
    if n < m {
        lemma_tables_error(label, statements, sources, n, (m - 1) as nat, limit);
    }
}

proof fn lemma_others_error(
    statements: Seq<StatementView>,
    n: nat,
    m: nat,
    count: nat,
    limit: nat,
)
    requires
        n <= m,
        others_text(statements, n, count, limit) is Err,
    ensures
        others_text(statements, m, count, limit) == others_text(statements, n, count, limit),
    decreases m,
{
    if n < m {
        lemma_others_error(statements, n, (m - 1) as nat, count, limit);
    }
}

pub proof fn lemma_table_count_monotone(statements: Seq<StatementView>, i: int)
    requires
        0 <= i <= statements.len(),
    ensures
        table_count(statements.take(i)) <= table_count(statements),
    decreases statements.len(),
{
    if i < statements.len() {
        lemma_table_count_monotone(statements.drop_last(), i);
        assert(statements.drop_last().take(i) =~= statements.take(i));
    } else {
        assert(statements.take(i) =~= statements);
    }
}

/// Appends the statements that create no table.
fn append_others(
    statements: &Vec<SchemaStatement>,
    out: &mut String,
    counted: u64,
    limit: usize,
) -> (r: Result<u64, MergeError>)
    ensures
        old(out)@.is_prefix_of(final(out)@),
        match others_text(
            schema::statement_views(statements@),
            statements@.len(),
            counted as nat,
            limit as nat,
        ) {
            Ok((t, c)) => r matches Ok(n) && n == c && final(out)@ == old(out)@ + t,
            Err(fault) => r matches Err(e) && e.fault() == fault && e.details is Null,
        },
{
    let ghost start = out@;
    let ghost views = schema::statement_views(statements@);
    let mut count: u64 = counted;
    let mut j: usize = 0;
    assert(start + Seq::<char>::empty() =~= start);
    while j < statements.len()
        invariant
            j <= statements@.len(),
            views == schema::statement_views(statements@),
            start == old(out)@,
            start.is_prefix_of(out@),
            others_text(views, j as nat, counted as nat, limit as nat) matches Ok(v) && v.1 == count
                && out@ == start + v.0,
        decreases statements.len() - j,
    {
        let s = &statements[j];
        assert(views[j as int] == s@);
        if s.class != SchemaClass::Table {
            let ghost prior = others_text(views, j as nat, counted as nat, limit as nat)->Ok_0.0;
            if count >= limit as u64 {
                proof {
                    lemma_others_error(
                        views,
                        (j + 1) as nat,
                        views.len(),
                        counted as nat,
                        limit as nat,
                    );
                }
                return Err(over_limit());
            }
            out.append(s.sql.as_str());
            out.append("\n");
            assert(out@ =~= start + (prior + s.sql@ + "\n"@));
            count = count + 1;
        }
        j += 1;
    }
    Ok(count)
}

/// Appends the tables and their rows.
#[verifier::spinoff_prover]
#[verifier::rlimit(80)]
fn append_tables(
    label: &str,
    statements: &Vec<SchemaStatement>,
    sources: &Vec<TableSource>,
    out: &mut String,
    limit: usize,
) -> (r: Result<u64, MergeError>)
    requires
        sources@.len() == table_count(schema::statement_views(statements@)),
    ensures
        old(out)@.is_prefix_of(final(out)@),
        match tables_text(
            label@,
            schema::statement_views(statements@),
            sources@,
            statements@.len(),
            limit as nat,
        ) {
            Ok((t, c)) => {
                &&& r matches Ok(n) && n == c
                &&& final(out)@ == old(out)@ + t
                &&& replay::all_codes_read_back(
                    schema::statement_views(statements@),
                    sources@,
                    statements@.len(),
                )
            },
            Err(fault) => r matches Err(e) && e.fault() == fault && e.details is Null,
        },
{
    let ghost start = out@;
    let ghost views = schema::statement_views(statements@);
    let mut count: u64 = statements.len() as u64;
    let mut i: usize = 0;
    let mut k: usize = 0;
    let source_count: usize = sources.len();
    assert(views.take(0) =~= Seq::<StatementView>::empty());
    assert(start + Seq::<char>::empty() =~= start);
    while i < statements.len()
        invariant
            i <= statements@.len(),
            views == schema::statement_views(statements@),
            source_count == sources@.len() == table_count(views),
            k == table_count(views.take(i as int)),
            start == old(out)@,
            start.is_prefix_of(out@),
            tables_text(label@, views, sources@, i as nat, limit as nat) matches Ok(v) && v.1
                == count && out@ == start + v.0,
            replay::all_codes_read_back(views, sources@, i as nat),
        decreases statements.len() - i,
    {
        let s = &statements[i];
        assert(views[i as int] == s@);
        assert(views.take(i + 1).drop_last() =~= views.take(i as int));
        proof {
            lemma_table_count_monotone(views, i + 1);
        }
        if s.class == SchemaClass::Table {
            let ghost prior = tables_text(label@, views, sources@, i as nat, limit as nat)->Ok_0;
            match append_table(label, s, &sources[k], out, count, limit) {
                Ok(n) => {
                    count = n;
                    proof {
                        let t = table_text(
                            label@,
                            s@,
                            sources@[k as int],
                            prior.1,
                            limit as nat,
                        )->Ok_0.0;
                        assert((start + prior.0) + t =~= start + (prior.0 + t));
                    }
                },
                Err(e) => {
                    proof {
                        lemma_tables_error(
                            label@,
                            views,
                            sources@,
                            (i + 1) as nat,
                            views.len(),
                            limit as nat,
                        );
                        assert(start.is_prefix_of(out@));
                    }
                    return Err(e);
                },
            }
            k += 1;
        }
        i += 1;
    }
    Ok(count)
}

/// Importing the text of a snapshot reads the baseline of its schema statements,
/// plans to run exactly its statements, and admits each of them where it admits the
/// schema statements by themselves. Left out are a text with a carriage return
/// before a line feed, which importing refuses, and a schema statement with a
/// semicolon inside, which importing splits. The text of a database without schema
/// plans nothing.
pub open spec fn is_kept(
    text: Seq<char>,
    statements: Seq<StatementView>,
    sources: Seq<TableSource>,
) -> bool {
    &&& statements.len() == 0 ==> replay::plans_nothing(text)
    &&& 0 < statements.len() <= baseline::BASELINE_COUNT_LIMIT ==> {
        &&& baseline_is_kept(text, statements)
        &&& !baseline::contains_crlf(encode_utf8(text)) && replay::all_single(statements)
            && replay::all_calm(sources) ==> replay::replays(text, statements, sources) && (
        replay::all_admissible(statements) ==> replay::is_admitted(text, statements, sources))
    }
}

proof fn lemma_snapshot_is_kept(
    label: Seq<char>,
    statements: Seq<StatementView>,
    sources: Seq<TableSource>,
    limit: nat,
)
    requires
        sources.len() == table_count(statements),
        replay::all_codes_read_back(statements, sources, statements.len()),
        forall|k: int|
            0 <= k < statements.len() ==> roundtrip::codes_read_back(#[trigger] statements[k]),
        snapshot_text(label, statements, sources, limit) matches Ok(v) && encode_utf8(v.0).len()
            <= usize::MAX,
    ensures
        is_kept(
            snapshot_text(label, statements, sources, limit)->Ok_0.0,
            statements,
            sources,
        ),
{
    let n = statements.len();
    if 0 < n <= baseline::BASELINE_COUNT_LIMIT {
        let t = snapshot_text(label, statements, sources, limit)->Ok_0.0;
        let (tables, c) = tables_text(label, statements, sources, n, limit)->Ok_0;
        let others = others_text(statements, n, c, limit)->Ok_0.0;
        roundtrip::baseline_reads_back(statements, tables + others);
        assert(FORMAT_HEADER@ + baseline_text(statements) + (tables + others) =~= t);
        if !baseline::contains_crlf(encode_utf8(t)) && replay::all_single(statements)
            && replay::all_calm(sources) {
            replay::extraction_replays(label, statements, sources, limit);
            if replay::all_admissible(statements) {
                replay::extracted_statements_are_admitted(label, statements, sources, limit);
            }
        }
    } else if n == 0 {
        lemma_empty_is_kept(label, statements, sources, limit);
    }
}

proof fn lemma_empty_is_kept(
    label: Seq<char>,
    statements: Seq<StatementView>,
    sources: Seq<TableSource>,
    limit: nat,
)
    requires
        statements.len() == 0,
        sources.len() == table_count(statements),
        snapshot_text(label, statements, sources, limit) is Ok,
    ensures
        is_kept(
            snapshot_text(label, statements, sources, limit)->Ok_0.0,
            statements,
            sources,
        ),
{
    assert(statements =~= Seq::empty());
    assert(sources =~= Seq::empty());
    assert forall|import_limit: nat| #[trigger] import::plan_of(FORMAT_HEADER@, import_limit) == Ok::<
        import::PlanView,
        (Seq<char>, Seq<char>),
    >((Map::empty(), Seq::empty())) by {
        replay::empty_extraction_replays(label, limit, import_limit);
    }
    replay::empty_extraction_replays(label, limit, 0);
}

/// Appends the merge text of a database to `out` and gives the number of
/// statements that it was counted with.
///
/// `statements` are its schema statements in canonical order, and `sources` what
/// was read of its tables, in that order. The text holds the format header, the
/// schema baseline, then each table with its rows, then all other statements. A
/// database without schema is the header alone. Importing the text plans to run
/// exactly these statements, except where a carriage return stands before a line
/// feed or a schema statement holds a semicolon.
pub fn extract_one(
    label: &str,
    statements: &Vec<SchemaStatement>,
    sources: &Vec<TableSource>,
    out: &mut String,
    statement_limit: usize,
) -> (r: Result<u64, MergeError>)
    requires
        sources@.len() == table_count(schema::statement_views(statements@)),
        forall|k: int| 0 <= k < sources@.len() ==> names_fit(#[trigger] sources@[k]),
    ensures
        old(out)@.is_prefix_of(final(out)@),
        match snapshot_text(
            label@,
            schema::statement_views(statements@),
            sources@,
            statement_limit as nat,
        ) {
            Ok((t, c)) => {
                &&& r matches Ok(n) && n == c
                &&& final(out)@ == old(out)@ + t
                &&& is_kept(t, schema::statement_views(statements@), sources@)
            },
            Err(fault) => r matches Err(e) && e.fault() == fault && e.details is Null,
        },
{
    let ghost start = out@;
    let ghost views = schema::statement_views(statements@);
    out.append(FORMAT_HEADER);
    if statements.len() == 0 {
        proof {
            lemma_empty_is_kept(label@, views, sources@, statement_limit as nat);
        }
        return Ok(0);
    }
    push_baseline(statements, out);
    let ghost head = out@;
    assert(head =~= start + (FORMAT_HEADER@ + baseline_text(views)));
    let counted: u64 = match append_tables(label, statements, sources, out, statement_limit) {
        Ok(n) => n,
        Err(e) => {
            assert(start.is_prefix_of(out@));
            return Err(e);
        },
    };
    let ghost middle = out@;
    assert(start.is_prefix_of(middle));
    let count: u64 = match append_others(statements, out, counted, statement_limit) {
        Ok(n) => n,
        Err(e) => {
            assert(start.is_prefix_of(out@));
            return Err(e);
        },
    };
    let ghost t = snapshot_text(label@, views, sources@, statement_limit as nat)->Ok_0.0;
    assert(out@ =~= start + t);
    let total: usize = out.as_str().as_bytes().len();
    proof {
        roundtrip::lemma_encode_concat(start, t);
        assert(encode_utf8(t).len() <= total);
        lemma_snapshot_is_kept(label@, views, sources@, statement_limit as nat);
    }
    Ok(count)
}

} // verus!
