//! How the schema of a database is read.
//!
//! Outside a transaction the schema is read in one of its own, so that all its
//! parts are of one state of the database.
use crate::merge::values;
use crate::merge::values::quote_text;
use crate::schema::{
    SchemaColumn, SchemaForeignKey, SchemaIndex, SchemaTable,
};
use crate::worker::error::{SqliteFailure, WorkerError};
use vstd::prelude::*;

verus! {

/// What is asked about a table or an index.
#[derive(Debug, Clone, Copy, PartialEq, Eq, Structural)]
pub enum SchemaPragma {
    TableColumns,
    TableIndexes,
    IndexColumns,
    ForeignKeys,
}

/// The word for a question.
pub open spec fn pragma_word(pragma: SchemaPragma) -> Seq<char> {
    match pragma {
        SchemaPragma::TableColumns => "table_xinfo"@,
        SchemaPragma::TableIndexes => "index_list"@,
        SchemaPragma::IndexColumns => "index_xinfo"@,
        SchemaPragma::ForeignKeys => "foreign_key_list"@,
    }
}

/// The statement that asks about a table or an index by its name.
pub fn schema_query(pragma: SchemaPragma, name: &str) -> (r: String)
    ensures
        r@ == "PRAGMA "@ + pragma_word(pragma) + "("@ + values::quoted(name@, '\'') + ")"@,
{
    let mut s = "PRAGMA ".to_owned();
    s.append(
        match pragma {
            SchemaPragma::TableColumns => "table_xinfo",
            SchemaPragma::TableIndexes => "index_list",
            SchemaPragma::IndexColumns => "index_xinfo",
            SchemaPragma::ForeignKeys => "foreign_key_list",
        },
    );
    s.append("(");
    s.append(quote_text(name, '\'').as_str());
    s.append(")");
    s
}

/// The user version: exactly one row of exactly one column. `first` is the value
/// of the first row, `more` tells whether there is another.
pub fn user_version(columns: usize, first: Option<i64>, more: bool) -> (r: Result<i64, WorkerError>)
    ensures
        match r {
            Ok(v) => columns == 1 && first == Some(v) && !more,
            Err(e) => e matches WorkerError::Sqlite(f) && f.code is None && if columns == 1
                && first is None {
                f.text@ == "Query returned no rows"@
            } else {
                (columns != 1 || more) && f.text@ == "Query is not read-only"@
            },
        },
{
    if columns != 1 {
        return Err(
            WorkerError::Sqlite(
                SqliteFailure { code: None, text: "Query is not read-only".to_owned() },
            ),
        );
    }
    match first {
        None => Err(
            WorkerError::Sqlite(
                SqliteFailure { code: None, text: "Query returned no rows".to_owned() },
            ),
        ),
        Some(v) => if more {
            Err(
                WorkerError::Sqlite(
                    SqliteFailure { code: None, text: "Query is not read-only".to_owned() },
                ),
            )
        } else {
            Ok(v)
        },
    }
}

/// A row about a column.
#[derive(Debug)]
pub struct ColumnInfo {
    pub name: String,
    pub declared_type: Option<String>,
    pub not_null: i64,
    pub default_value: Option<String>,
    pub primary_key_position: i64,
    pub hidden: i64,
}

/// Rows about an index. A column without a name is an expression or the row id.
#[derive(Debug)]
pub struct IndexInfo {
    pub name: String,
    pub unique: i64,
    pub origin: String,
    pub columns: Vec<Option<String>>,
}

/// A column as it is reported.
pub open spec fn reports_column(c: SchemaColumn, row: ColumnInfo) -> bool {
    &&& c.name == row.name
    &&& c.declared_type == row.declared_type
    &&& c.not_null == (row.not_null != 0)
    &&& c.default_value == row.default_value
    &&& c.primary_key_position == row.primary_key_position
    &&& c.hidden == row.hidden
}

/// The names among optional names.
pub open spec fn named(columns: Seq<Option<String>>) -> Seq<String>
    decreases columns.len(),
{
    if columns.len() == 0 {
        Seq::empty()
    } else {
        match columns.last() {
            Some(s) => named(columns.drop_last()).push(s),
            None => named(columns.drop_last()),
        }
    }
}

/// An index as it is reported.
pub open spec fn reports_index(i: SchemaIndex, row: IndexInfo) -> bool {
    &&& i.name == row.name
    &&& i.unique == (row.unique != 0)
    &&& i.origin == row.origin
    &&& i.columns@ == named(row.columns@)
}

pub fn schema_column(row: ColumnInfo) -> (r: SchemaColumn)
    ensures
        reports_column(r, row),
{
    SchemaColumn {
        name: row.name,
        declared_type: row.declared_type,
        not_null: row.not_null != 0,
        default_value: row.default_value,
        primary_key_position: row.primary_key_position,
        hidden: row.hidden,
    }
}

pub fn schema_index(row: IndexInfo) -> (r: SchemaIndex)
    ensures
        reports_index(r, row),
{
    let mut given = row.columns;
    let ghost all = given@;
    let mut reversed: Vec<String> = Vec::new();
    assert(all.take(all.len() as int) =~= all);
    assert(named(all) =~= named(given@) + reversed@.reverse());
    while given.len() > 0
        invariant
            named(all) == named(given@) + reversed@.reverse(),
        decreases given.len(),
    {
        let ghost before = given@;
        let ghost tail = reversed@;
        let last = given.pop();
        assert(given@ =~= before.drop_last());
        if let Some(Some(name)) = last {
            let ghost moved = name;
            reversed.push(name);
            assert(reversed@.reverse() =~= seq![moved] + tail.reverse());
            assert(named(given@) + reversed@.reverse() =~= named(before) + tail.reverse());
        }
    }
    let mut columns: Vec<String> = Vec::new();
    let ghost back = reversed@;
    assert(back.reverse() =~= columns@ + reversed@.reverse());
    while reversed.len() > 0
        invariant
            back.reverse() == columns@ + reversed@.reverse(),
        decreases reversed.len(),
    {
        let ghost before = reversed@;
        let ghost done = columns@;
        if let Some(name) = reversed.pop() {
            let ghost moved = name;
            columns.push(name);
            assert(before.reverse() =~= seq![moved] + reversed@.reverse());
            assert(columns@ + reversed@.reverse() =~= done + before.reverse());
        }
    }
    assert(columns@ =~= back.reverse());
    assert(named(given@) =~= Seq::empty());
    assert(columns@ =~= named(all));
    SchemaIndex { name: row.name, unique: row.unique != 0, origin: row.origin, columns }
}

/// A table with all its parts.
pub fn schema_table(
    name: String,
    without_rowid: i64,
    strict: i64,
    columns: Vec<SchemaColumn>,
    indexes: Vec<SchemaIndex>,
    foreign_keys: Vec<SchemaForeignKey>,
) -> (r: SchemaTable)
    ensures
        r.name == name,
        r.strict == (strict != 0),
        r.without_rowid == (without_rowid != 0),
        r.columns == columns,
        r.indexes == indexes,
        r.foreign_keys == foreign_keys,
{
    SchemaTable {
        name,
        strict: strict != 0,
        without_rowid: without_rowid != 0,
        columns,
        indexes,
        foreign_keys,
    }
}

/// How a transaction that was begun for the reading ends.
#[derive(Debug, Clone, Copy, PartialEq, Eq, Structural)]
pub enum SchemaCleanup {
    Nothing,
    Commit,
    Rollback,
}

/// The transaction that was begun for the reading is committed after a success
/// and rolled back after a failure. One that was open before is left alone.
pub fn schema_cleanup(managed: bool, succeeded: bool) -> (r: SchemaCleanup)
    ensures
        r == if !managed {
            SchemaCleanup::Nothing
        } else if succeeded {
            SchemaCleanup::Commit
        } else {
            SchemaCleanup::Rollback
        },
{
    if !managed {
        SchemaCleanup::Nothing
    } else if succeeded {
        SchemaCleanup::Commit
    } else {
        SchemaCleanup::Rollback
    }
}

/// The answer after the cleanup. A cleanup that failed makes the handle
/// unusable, whatever was read.
pub fn settle_schema<T>(
    managed: bool,
    result: Result<T, WorkerError>,
    cleaned_up: bool,
    autocommit: bool,
) -> (r: Result<T, WorkerError>)
    ensures
        if !managed {
            r == result
        } else if cleaned_up && (result is Ok || autocommit) {
            r == result
        } else {
            r matches Err(e) && e.is_message("managed schema cleanup failed; handle invalidated"@)
        },
{
    if !managed {
        return result;
    }
    if !cleaned_up || (result.is_err() && !autocommit) {
        return Err(WorkerError::because("managed schema cleanup failed; handle invalidated"));
    }
    result
}

/// Every name is kept, in its place, and nothing else is.
pub proof fn names_are_kept(a: Seq<Option<String>>, b: Seq<Option<String>>, name: String)
    ensures
        named(a + b) == named(a) + named(b),
        named(seq![Some(name)]) == seq![name],
        named(seq![None::<String>]).len() == 0,
    decreases b.len(),
{
    let one = seq![Some(name)];
    assert(one.drop_last() =~= Seq::<Option<String>>::empty());
    reveal_with_fuel(named, 2);
    assert(named(one) =~= seq![name]);
    let none = seq![None::<String>];
    assert(none.drop_last() =~= Seq::<Option<String>>::empty());
    if b.len() == 0 {
        assert(a + b =~= a);
        assert(named(a) + named(b) =~= named(a));
    } else {
        names_are_kept(a, b.drop_last(), name);
        assert((a + b).drop_last() =~= a + b.drop_last());
        assert(named(a + b) =~= named(a) + named(b));
    }
}

/// Columns, indexes and tables are reported as they were read.
pub proof fn rows_are_reported_as_read(
    column: ColumnInfo,
    reported: SchemaColumn,
    index: IndexInfo,
    reported_index: SchemaIndex,
)
    requires
        call_ensures(schema_column, (column,), reported),
        call_ensures(schema_index, (index,), reported_index),
    ensures
        reported.name == column.name,
        reported.declared_type == column.declared_type,
        reported.not_null <==> column.not_null != 0,
        reported.default_value == column.default_value,
        reported.primary_key_position == column.primary_key_position,
        reported.hidden == column.hidden,
        reported_index.name == index.name,
        reported_index.unique <==> index.unique != 0,
        reported_index.origin == index.origin,
        reported_index.columns@ == named(index.columns@),
{
}

/// A user version is exactly one value, and nothing else is one.
pub proof fn user_versions_are_single_values(
    columns: usize,
    first: Option<i64>,
    more: bool,
    r: Result<i64, WorkerError>,
)
    requires
        call_ensures(user_version, (columns, first, more), r),
    ensures
        r is Ok <==> columns == 1 && first is Some && !more,
        r is Ok ==> first == Some(r->Ok_0),
{
}

/// What is asked names its table or index in single quotes, so that two names are
/// never asked for by the same text.
pub proof fn questions_name_their_object(
    pragma: SchemaPragma,
    name: &str,
    r: String,
)
    requires
        call_ensures(schema_query, (pragma, name), r),
    ensures
        r@ == "PRAGMA "@ + match pragma {
            SchemaPragma::TableColumns => "table_xinfo"@,
            SchemaPragma::TableIndexes => "index_list"@,
            SchemaPragma::IndexColumns => "index_xinfo"@,
            SchemaPragma::ForeignKeys => "foreign_key_list"@,
        } + "("@ + values::quoted(name@, '\'') + ")"@,
{
}

} // verus!
