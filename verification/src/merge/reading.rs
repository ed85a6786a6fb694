//! What is asked of a database when it is extracted, and what is kept of it.
use crate::merge::error::MergeError;
use crate::merge::order;
use crate::merge::schema;
use crate::merge::schema::{
    ColumnRow, RowStream, SchemaRow, StatementView, TableListRow, TableMetadata,
};
use crate::merge::snapshot;
use crate::merge::snapshot::row_query;
use crate::merge::values;
use crate::merge::values::SourceValue;
use crate::text;
use vstd::multiset::*;
use vstd::prelude::*;
use vstd::seq_lib::*;

verus! {

/// The names in double quotes; one that holds NUL has no such form.
pub open spec fn names_in_quotes(names: Seq<String>) -> Seq<Seq<char>> {
    Seq::new(
        names.len(),
        |i: int|
            if names[i]@.contains('\0') {
                "\"\""@
            } else {
                values::quoted(names[i]@, '"')
            },
    )
}

/// Every row of a table is asked for, with every column: the query names the columns,
/// behind the row id where no column stands for it, and the table, and it orders by
/// row id, or by the primary key where there are no row ids. It ends there, so that it
/// leaves no row out.
pub proof fn queries_ask_for_every_row(
    name: &str,
    meta: &TableMetadata,
    r: Result<String, MergeError>,
)
    requires
        call_ensures(row_query, (name, meta), r),
    ensures
        ({
            let names = names_in_quotes(meta.columns@);
            let own = text::join(names, ","@);
            let with_id = text::join(seq!["rowid"@] + names, ","@);
            let table = values::quoted(name@, '"');
            let key = text::join(names_in_quotes(meta.primary_key@), ","@);
            &&& r is Ok <==> !name@.contains('\0') && (meta.without_rowid
                ==> meta.primary_key@.len() > 0)
            &&& r is Ok && meta.without_rowid ==> r->Ok_0@ == "SELECT "@ + own + " FROM "@ + table
                + " ORDER BY "@ + key
            &&& r is Ok && !meta.without_rowid && meta.integer_primary_key ==> r->Ok_0@
                == "SELECT "@ + own + " FROM "@ + table + " ORDER BY "@ + "rowid"@
            &&& r is Ok && !meta.without_rowid && !meta.integer_primary_key ==> r->Ok_0@
                == "SELECT "@ + with_id + " FROM "@ + table + " ORDER BY "@ + "rowid"@
        }),
{
    assert(snapshot::columns_text(text::views(meta.columns@)) =~= names_in_quotes(meta.columns@));
    assert(snapshot::columns_text(text::views(meta.primary_key@)) =~= names_in_quotes(meta.primary_key@));
}

/// A row is inserted with the columns that it was read with, and with one literal for
/// each of them.
pub proof fn inserts_name_the_columns_read(
    name: Seq<char>,
    meta: TableMetadata,
    literals: Seq<Seq<char>>,
)
    ensures
        ({
            let names = names_in_quotes(meta.columns@);
            let columns = if meta.without_rowid || meta.integer_primary_key {
                names
            } else {
                seq!["rowid"@] + names
            };
            snapshot::insert_text(name, meta@, literals) == "INSERT INTO "@ + values::quoted(name, '"')
                + " ("@ + text::join(columns, ","@) + ") VALUES ("@ + text::join(literals, ","@)
                + ");\n"@
        }),
{
    assert(snapshot::columns_text(text::views(meta.columns@)) =~= names_in_quotes(meta.columns@));
}

/// Every value of a row has its literal, in its place, or the row has none.
pub proof fn every_value_is_written(row: Seq<SourceValue>, i: int)
    requires
        0 <= i < row.len(),
    ensures
        match snapshot::row_literals(row) {
            Ok(literals) => literals.len() == row.len() && values::literal_of(row[i]) == Ok::<
                Seq<char>,
                Seq<char>,
            >(literals[i]),
            Err(_) => exists|j: int|
                0 <= j < row.len() && values::literal_of(#[trigger] row[j]) is Err,
        },
    decreases row.len(),
{
    if row.len() > 0 {
        let before = row.drop_last();
        if i < before.len() {
            every_value_is_written(before, i);
        } else if before.len() > 0 {
            every_value_is_written(before, 0);
        }
        if snapshot::row_literals(before) is Err {
            let j = choose|j: int|
                0 <= j < before.len() && values::literal_of(#[trigger] before[j]) is Err;
            assert(row[j] == before[j]);
        } else if snapshot::row_literals(row) is Err {
            assert(values::literal_of(row[row.len() - 1]) is Err);
        } else {
            if i < before.len() {
                assert(before[i] == row[i]);
            }
        }
    }
}

/// A row of the schema that merge text carries.
pub open spec fn is_carried(row: SchemaRow) -> bool {
    row.kind@ == "table"@ || row.kind@ == "index"@ || row.kind@ == "view"@ || row.kind@
        == "trigger"@
}

/// Tables, indexes, views and triggers are all kept, and nothing else is: each under
/// its kind and its name, with its own text, which ends with exactly one semicolon.
pub proof fn every_object_is_kept(row: SchemaRow)
    ensures
        schema::statement_of(row) is Some <==> is_carried(row),
        schema::statement_of(row) matches Some(s) ==> {
            &&& s.0 is Table <==> row.kind@ == "table"@
            &&& s.0 is Index <==> row.kind@ == "index"@
            &&& s.0 is View <==> row.kind@ == "view"@
            &&& s.0 is Trigger <==> row.kind@ == "trigger"@
            &&& s.1 == row.name@
            &&& s.2.len() > 0 && s.2.last() == ';'
            &&& s.2.len() <= row.sql@.len() + 1
            &&& s.2.drop_last() == row.sql@.take(s.2.len() - 1)
            &&& s.2.len() > 1 ==> s.2[s.2.len() - 2] != ';'
            &&& forall|i: int| s.2.len() - 1 <= i < row.sql@.len() ==> #[trigger] row.sql@[i] == ';'
        },
{
    reveal_strlit("table");
    reveal_strlit("index");
    reveal_strlit("view");
    reveal_strlit("trigger");
    assert("table"@[0] == 't' && "index"@[0] == 'i' && "view"@[0] == 'v' && "trigger"@[1] == 'r');
    assert("table"@[1] == 'a');
    lemma_without_semicolons(row.sql@);
    if let Some(s) = schema::statement_of(row) {
        assert(s.2.drop_last() =~= schema::without_semicolons(row.sql@));
    }
}

proof fn lemma_without_semicolons(s: Seq<char>)
    ensures
        ({
            let r = schema::without_semicolons(s);
            &&& r.len() <= s.len()
            &&& r == s.take(r.len() as int)
            &&& r.len() > 0 ==> r.last() != ';'
            &&& forall|i: int| r.len() <= i < s.len() ==> #[trigger] s[i] == ';'
        }),
    decreases s.len(),
{
    let r = schema::without_semicolons(s);
    if s.len() > 0 && s.last() == ';' {
        let init = s.drop_last();
        lemma_without_semicolons(init);
        assert(init.take(r.len() as int) =~= s.take(r.len() as int));
        assert forall|i: int| r.len() <= i < s.len() implies #[trigger] s[i] == ';' by {
            if i < init.len() {
                assert(init[i] == s[i]);
            }
        }
    } else {
        assert(s.take(s.len() as int) =~= s);
    }
}

/// Every object of the schema is among the canonical statements, and there is one
/// statement for each.
pub proof fn every_row_of_the_schema_is_written(rows: Seq<SchemaRow>, i: int)
    requires
        0 <= i < rows.len(),
        is_carried(rows[i]),
    ensures
        schema::statement_of(rows[i]) matches Some(s) && schema::canonical(rows).contains(s),
{
    broadcast use group_to_multiset_ensures;

    every_object_is_kept(rows[i]);
    order::canonical_is_ordered(rows);
    lemma_statement_is_counted(rows, i);
    let s = schema::statement_of(rows[i])->0;
    assert(schema::canonical(rows).to_multiset().count(s) > 0);
}

proof fn lemma_statement_is_counted(rows: Seq<SchemaRow>, i: int)
    requires
        0 <= i < rows.len(),
        schema::statement_of(rows[i]) is Some,
    ensures
        order::statements_of(rows).count(schema::statement_of(rows[i])->0) > 0,
    decreases rows.len(),
{
    if i < rows.len() - 1 {
        lemma_statement_is_counted(rows.drop_last(), i);
        assert(rows.drop_last()[i] == rows[i]);
    }
}

/// How many rows merge text carries.
pub open spec fn carried_count(rows: Seq<SchemaRow>) -> nat
    decreases rows.len(),
{
    if rows.len() == 0 {
        0
    } else {
        carried_count(rows.drop_last()) + if is_carried(rows.last()) {
            1nat
        } else {
            0nat
        }
    }
}

/// There are as many canonical statements as objects.
pub proof fn no_statement_is_made_up(rows: Seq<SchemaRow>)
    ensures
        schema::canonical(rows).len() == carried_count(rows),
    decreases rows.len(),
{
    if rows.len() > 0 {
        no_statement_is_made_up(rows.drop_last());
        every_object_is_kept(rows.last());
        if let Some(x) = schema::statement_of(rows.last()) {
            lemma_insert_len(schema::canonical(rows.drop_last()), x);
        }
    }
}

proof fn lemma_insert_len(s: Seq<StatementView>, x: StatementView)
    ensures
        schema::insert_statement(s, x).len() == s.len() + 1,
    decreases s.len(),
{
    if s.len() > 0 && !schema::statement_leq(s.last(), x) {
        lemma_insert_len(s.drop_last(), x);
    }
}

/// The canonical order: tables, then indexes, then views, then triggers, and within a
/// kind by the bytes of the name.
pub proof fn tables_come_first(rows: Seq<SchemaRow>, i: int, j: int)
    requires
        0 <= i < j < schema::canonical(rows).len(),
    ensures
        ({
            let a = schema::canonical(rows)[i];
            let b = schema::canonical(rows)[j];
            &&& b.0 is Table ==> a.0 is Table
            &&& b.0 is Index ==> a.0 is Table || a.0 is Index
            &&& b.0 is View ==> !(a.0 is Trigger)
            &&& a.0 == b.0 && a.1 != b.1 ==> schema::bytes_leq(
                vstd::utf8::encode_utf8(a.1),
                vstd::utf8::encode_utf8(b.1),
            )
        }),
{
    order::canonical_is_ordered(rows);
    assert(schema::statement_leq(schema::canonical(rows)[i], schema::canonical(rows)[j]));
}

/// Bytes are ordered by the first place where they differ; a beginning comes before
/// the whole.
pub proof fn bytes_are_ordered_by_the_first_difference(a: Seq<u8>, b: Seq<u8>, k: int)
    requires
        0 <= k <= a.len(),
        k < b.len(),
        a.take(k) == b.take(k),
        k < a.len() ==> a[k] < b[k],
    ensures
        schema::bytes_leq(a, b),
        !schema::bytes_leq(b, a),
    decreases k,
{
    if k > 0 {
        assert(a.take(k)[0] == a[0] && b.take(k)[0] == b[0]);
        assert(a.skip(1).take(k - 1) =~= a.take(k).skip(1));
        assert(b.skip(1).take(k - 1) =~= b.take(k).skip(1));
        bytes_are_ordered_by_the_first_difference(a.skip(1), b.skip(1), k - 1);
    }
}

/// Every column that is not hidden is written, in its place, and no hidden one is.
pub proof fn every_visible_column_is_written(a: Seq<ColumnRow>, b: Seq<ColumnRow>, c: ColumnRow)
    ensures
        schema::visible_names(a + b) == schema::visible_names(a) + schema::visible_names(b),
        c.hidden == 0 ==> schema::visible_names(seq![c]) == seq![c.name@],
        c.hidden != 0 ==> schema::visible_names(seq![c]).len() == 0,
    decreases b.len(),
{
    reveal_with_fuel(schema::visible_names, 2);
    assert(seq![c].drop_last() =~= Seq::<ColumnRow>::empty());
    assert(c.hidden == 0 ==> schema::visible_names(seq![c]) =~= seq![c.name@]);
    if b.len() == 0 {
        assert(a + b =~= a);
        assert(schema::visible_names(a) + schema::visible_names(b) =~= schema::visible_names(a));
    } else {
        every_visible_column_is_written(a, b.drop_last(), c);
        assert((a + b).drop_last() =~= a + b.drop_last());
        assert(schema::visible_names(a + b) =~= schema::visible_names(a) + schema::visible_names(
            b,
        ));
    }
}

/// The primary key holds exactly the columns that have a place in it, each once.
pub proof fn keys_hold_their_columns(cols: Seq<ColumnRow>, n: int, i: int)
    requires
        0 <= n <= cols.len(),
    ensures
        schema::key_order(cols, n).contains(i) <==> 0 <= i < n && cols[i].pk > 0,
        schema::key_order(cols, n).no_duplicates(),
    decreases n,
{
    let order = schema::key_order(cols, n);
    if n > 0 {
        let before = schema::key_order(cols, n - 1);
        keys_hold_their_columns(cols, n - 1, i);
        keys_hold_their_columns(cols, n - 1, n - 1);
        if cols[n - 1].pk > 0 {
            lemma_key_is_inserted(before, cols, n - 1, i);
            lemma_key_is_inserted(before, cols, n - 1, n - 1);
        }
    }
}

proof fn lemma_key_is_inserted(order: Seq<int>, cols: Seq<ColumnRow>, x: int, i: int)
    requires
        order.no_duplicates(),
        !order.contains(x),
    ensures
        schema::insert_key(order, cols, x).contains(i) <==> order.contains(i) || i == x,
        schema::insert_key(order, cols, x).no_duplicates(),
    decreases order.len(),
{
    broadcast use vstd::seq_lib::group_seq_properties;

    let r = schema::insert_key(order, cols, x);
    if order.len() > 0 && cols[order.last()].pk > cols[x].pk {
        let init = order.drop_last();
        let last = order.last();
        assert(order =~= init.push(last));
        assert(!init.contains(last)) by {
            if init.contains(last) {
                let k = choose|k: int| 0 <= k < init.len() && init[k] == last;
                assert(order[k] == order[order.len() - 1]);
            }
        }
        assert(!init.contains(x));
        lemma_key_is_inserted(init, cols, x, i);
        lemma_key_is_inserted(init, cols, x, last);
        let inner = schema::insert_key(init, cols, x);
        assert(last != x);
        assert(!inner.contains(last));
        assert(r == inner.push(last));
    } else {
        assert(r == order.push(x));
    }
}

/// A table is described by its own row of the list, and described whenever it is a
/// plain table whose columns could be read.
pub proof fn plain_tables_are_described(
    table: &str,
    list: &RowStream<TableListRow>,
    columns: &RowStream<ColumnRow>,
    r: Result<TableMetadata, MergeError>,
)
    requires
        call_ensures(schema::table_metadata, (table, list, columns), r),
    ensures
        r is Ok ==> exists|k: int|
            0 <= k < list.rows@.len() && (#[trigger] list.rows@[k]).name@ == table@
                && list.rows@[k].kind@ == "table"@ && r->Ok_0.without_rowid == (
            list.rows@[k].without_rowid != 0),
        r is Ok ==> columns.failure is None && text::views(r->Ok_0.columns@)
            == schema::visible_names(columns.rows@),
        (exists|k: int|
            0 <= k < list.rows@.len() && (#[trigger] list.rows@[k]).name@ == table@) && (forall|
            k: int,
        |
            0 <= k < list.rows@.len() && (#[trigger] list.rows@[k]).name@ == table@
                ==> list.rows@[k].kind@ == "table"@) && !table@.contains('\0')
            && columns.failure is None ==> r is Ok,
{
    lemma_find_table(list.rows@, table@);
}

proof fn lemma_find_table(rows: Seq<TableListRow>, table: Seq<char>)
    ensures
        match schema::find_table(rows, table) {
            Some(row) => exists|k: int|
                0 <= k < rows.len() && #[trigger] rows[k] == row && row.name@ == table,
            None => forall|k: int| 0 <= k < rows.len() ==> (#[trigger] rows[k]).name@ != table,
        },
    decreases rows.len(),
{
    if rows.len() > 0 {
        if rows[0].name@ != table {
            let rest = rows.skip(1);
            lemma_find_table(rest, table);
            match schema::find_table(rest, table) {
                Some(row) => {
                    let k = choose|k: int|
                        0 <= k < rest.len() && #[trigger] rest[k] == row && row.name@ == table;
                    assert(rows[k + 1] == row);
                },
                None => {
                    assert forall|k: int| 0 <= k < rows.len() implies (#[trigger] rows[k]).name@
                        != table by {
                        if k > 0 {
                            assert(rest[k - 1] == rows[k]);
                        }
                    }
                },
            }
        } else {
            assert(rows[0].name@ == table);
        }
    }
}

/// A column stands for the row id only where it is the visible first column of the key
/// and is declared as an integer.
pub proof fn row_ids_are_integer_keys(cols: Seq<ColumnRow>, i: int)
    ensures
        (forall|k: int| 0 <= k < cols.len() ==> (#[trigger] cols[k]).pk != 1 || cols[k].hidden != 0)
            ==> !schema::has_integer_key(cols),
        0 <= i < cols.len() && cols[i].pk == 1 && cols[i].hidden == 0 && text::lowercase(
            text::trim(cols[i].declared_type@),
        ) == "integer"@ ==> schema::has_integer_key(cols),
        schema::has_integer_key(cols) ==> exists|k: int|
            0 <= k < cols.len() && text::lowercase(text::trim((#[trigger] cols[k]).declared_type@))
                == "integer"@,
{
    if 0 <= i < cols.len() && cols[i].pk == 1 && cols[i].hidden == 0 && text::lowercase(
        text::trim(cols[i].declared_type@),
    ) == "integer"@ {
        assert(schema::is_integer_key(cols[i]));
    }
}

} // verus!
