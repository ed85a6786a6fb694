//! What the text of a schema says.
use crate::json;
use crate::outside;
use crate::schema::{
    SchemaColumn, SchemaForeignKey, SchemaIndex, SchemaInfo, SchemaObject, SchemaTable,
};
use crate::server::schema_text;
use crate::text;
use vstd::prelude::*;

verus! {

/// An optional text.
pub open spec fn text_or_null(o: Option<String>) -> Seq<char> {
    match o {
        Some(s) => outside::json_string(s@),
        None => "null"@,
    }
}

/// A truth value.
pub open spec fn truth(b: bool) -> Seq<char> {
    if b {
        "true"@
    } else {
        "false"@
    }
}

/// All that is said of a column.
pub open spec fn column_members(c: SchemaColumn) -> Seq<(Seq<char>, Seq<char>)> {
    seq![
        ("name"@, outside::json_string(c.name@)),
        ("declared_type"@, text_or_null(c.declared_type)),
        ("not_null"@, truth(c.not_null)),
        ("default_value"@, text_or_null(c.default_value)),
        ("primary_key_position"@, text::signed_decimal(c.primary_key_position as int)),
        ("hidden"@, text::signed_decimal(c.hidden as int)),
    ]
}

/// All that is said of an index.
pub open spec fn index_members(x: SchemaIndex) -> Seq<(Seq<char>, Seq<char>)> {
    seq![
        ("name"@, outside::json_string(x.name@)),
        ("unique"@, truth(x.unique)),
        ("origin"@, outside::json_string(x.origin@)),
        ("columns"@, json::strings_json(text::views(x.columns@))),
    ]
}

/// All that is said of a foreign key.
pub open spec fn key_members(k: SchemaForeignKey) -> Seq<(Seq<char>, Seq<char>)> {
    seq![
        ("id"@, text::signed_decimal(k.id as int)),
        ("sequence"@, text::signed_decimal(k.sequence as int)),
        ("table"@, outside::json_string(k.table@)),
        ("from"@, outside::json_string(k.from@)),
        ("to"@, outside::json_string(k.to@)),
        ("on_update"@, outside::json_string(k.on_update@)),
        ("on_delete"@, outside::json_string(k.on_delete@)),
        ("match_clause"@, outside::json_string(k.match_clause@)),
    ]
}

/// All that is said of an object.
pub open spec fn object_members(o: SchemaObject) -> Seq<(Seq<char>, Seq<char>)> {
    seq![
        ("object_type"@, outside::json_string(o.object_type@)),
        ("name"@, outside::json_string(o.name@)),
        ("table_name"@, text_or_null(o.table_name)),
        ("sql"@, text_or_null(o.sql)),
    ]
}

/// All that is said of a table.
pub open spec fn table_members(t: SchemaTable) -> Seq<(Seq<char>, Seq<char>)> {
    seq![
        ("name"@, outside::json_string(t.name@)),
        ("strict"@, truth(t.strict)),
        ("without_rowid"@, truth(t.without_rowid)),
        (
            "columns"@,
            outside::json_array(
                Seq::new(t.columns@.len(), |i: int| json::record(column_members(t.columns@[i]))),
            ),
        ),
        (
            "indexes"@,
            outside::json_array(
                Seq::new(t.indexes@.len(), |i: int| json::record(index_members(t.indexes@[i]))),
            ),
        ),
        (
            "foreign_keys"@,
            outside::json_array(
                Seq::new(
                    t.foreign_keys@.len(),
                    |i: int| json::record(key_members(t.foreign_keys@[i])),
                ),
            ),
        ),
    ]
}

/// All that is said of a schema.
pub open spec fn schema_members(s: SchemaInfo) -> Seq<(Seq<char>, Seq<char>)> {
    seq![
        ("schema_version"@, text::signed_decimal(s.schema_version as int)),
        ("user_version"@, text::signed_decimal(s.user_version as int)),
        ("identity"@, outside::json_string(s.identity@)),
        (
            "objects"@,
            outside::json_array(
                Seq::new(s.objects@.len(), |i: int| json::record(object_members(s.objects@[i]))),
            ),
        ),
        (
            "tables"@,
            outside::json_array(
                Seq::new(s.tables@.len(), |i: int| json::record(table_members(s.tables@[i]))),
            ),
        ),
    ]
}

proof fn lemma_column(c: SchemaColumn)
    ensures
        schema_text::column_json(c) == json::record(column_members(c)),
{
    assert(column_members(c) =~= seq![
        ("name"@, outside::json_string(c.name@)),
        ("declared_type"@, json::optional_string(c.declared_type)),
        ("not_null"@, json::boolean(c.not_null)),
        ("default_value"@, json::optional_string(c.default_value)),
        ("primary_key_position"@, text::signed_decimal(c.primary_key_position as int)),
        ("hidden"@, text::signed_decimal(c.hidden as int)),
    ]);
}

proof fn lemma_index(x: SchemaIndex)
    ensures
        schema_text::index_json(x) == json::record(index_members(x)),
{
    assert(index_members(x) =~= seq![
        ("name"@, outside::json_string(x.name@)),
        ("unique"@, json::boolean(x.unique)),
        ("origin"@, outside::json_string(x.origin@)),
        ("columns"@, json::strings_json(text::views(x.columns@))),
    ]);
}

proof fn lemma_object(o: SchemaObject)
    ensures
        schema_text::object_json(o) == json::record(object_members(o)),
{
    assert(object_members(o) =~= seq![
        ("object_type"@, outside::json_string(o.object_type@)),
        ("name"@, outside::json_string(o.name@)),
        ("table_name"@, json::optional_string(o.table_name)),
        ("sql"@, json::optional_string(o.sql)),
    ]);
}

proof fn lemma_key(k: SchemaForeignKey)
    ensures
        schema_text::key_json(k) == json::record(key_members(k)),
{
}

#[verifier::spinoff_prover]
#[verifier::rlimit(60)]
proof fn lemma_table(t: SchemaTable)
    ensures
        schema_text::table_json(t) == json::record(table_members(t)),
{
    let columns = t.columns@.map_values(|e: SchemaColumn| schema_text::column_json(e));
    let indexes = t.indexes@.map_values(|e: SchemaIndex| schema_text::index_json(e));
    let keys = t.foreign_keys@.map_values(|e: SchemaForeignKey| schema_text::key_json(e));
    assert forall|i: int| 0 <= i < columns.len() implies #[trigger] columns[i] == json::record(
        column_members(t.columns@[i]),
    ) by {
        lemma_column(t.columns@[i]);
    }
    assert forall|i: int| 0 <= i < indexes.len() implies #[trigger] indexes[i] == json::record(
        index_members(t.indexes@[i]),
    ) by {
        lemma_index(t.indexes@[i]);
    }
    assert forall|i: int| 0 <= i < keys.len() implies #[trigger] keys[i] == json::record(
        key_members(t.foreign_keys@[i]),
    ) by {
        lemma_key(t.foreign_keys@[i]);
    }
    assert(columns =~= Seq::new(
        t.columns@.len(),
        |i: int| json::record(column_members(t.columns@[i])),
    ));
    assert(indexes =~= Seq::new(
        t.indexes@.len(),
        |i: int| json::record(index_members(t.indexes@[i])),
    ));
    assert(keys =~= Seq::new(
        t.foreign_keys@.len(),
        |i: int| json::record(key_members(t.foreign_keys@[i])),
    ));
    let members = seq![
        ("name"@, outside::json_string(t.name@)),
        ("strict"@, json::boolean(t.strict)),
        ("without_rowid"@, json::boolean(t.without_rowid)),
        ("columns"@, outside::json_array(columns)),
        ("indexes"@, outside::json_array(indexes)),
        ("foreign_keys"@, outside::json_array(keys)),
    ];
    assert(members =~= table_members(t));
}

/// The text of a schema says everything that was read: its versions and identity,
/// every object, and of every table every column, index and foreign key, each part
/// under its own name and in its order.
#[verifier::spinoff_prover]
#[verifier::rlimit(60)]
pub proof fn schemas_are_told_in_full(s: &SchemaInfo, r: String)
    requires
        call_ensures(schema_text::schema_text, (s,), r),
    ensures
        r@ == json::record(schema_members(*s)),
{
    let objects = s.objects@.map_values(|e: SchemaObject| schema_text::object_json(e));
    let tables = s.tables@.map_values(|e: SchemaTable| schema_text::table_json(e));
    assert forall|i: int| 0 <= i < objects.len() implies #[trigger] objects[i] == json::record(
        object_members(s.objects@[i]),
    ) by {
        lemma_object(s.objects@[i]);
    }
    assert forall|i: int| 0 <= i < tables.len() implies #[trigger] tables[i] == json::record(
        table_members(s.tables@[i]),
    ) by {
        lemma_table(s.tables@[i]);
    }
    assert(objects =~= Seq::new(
        s.objects@.len(),
        |i: int| json::record(object_members(s.objects@[i])),
    ));
    assert(tables =~= Seq::new(
        s.tables@.len(),
        |i: int| json::record(table_members(s.tables@[i])),
    ));
    let members = seq![
        ("schema_version"@, text::signed_decimal(s.schema_version as int)),
        ("user_version"@, text::signed_decimal(s.user_version as int)),
        ("identity"@, outside::json_string(s.identity@)),
        ("objects"@, outside::json_array(objects)),
        ("tables"@, outside::json_array(tables)),
    ];
    assert(members =~= schema_members(*s));
}

} // verus!
