//! The schema of a database in JSON, as its size is measured.
use crate::json;
use crate::json::{
    array_text, boolean_text, optional_string_text, record_text, strings_text, Part,
};
use crate::outside;
use crate::outside::json_string_of;
use crate::schema::{
    SchemaColumn, SchemaForeignKey, SchemaIndex, SchemaInfo, SchemaObject, SchemaTable,
};
use crate::text;
use crate::text::signed_decimal_text;
use vstd::prelude::*;

verus! {

/// What is known of a column.
pub open spec fn column_json(c: SchemaColumn) -> Seq<char> {
    json::record(
        seq![
            ("name"@, outside::json_string(c.name@)),
            ("declared_type"@, json::optional_string(c.declared_type)),
            ("not_null"@, json::boolean(c.not_null)),
            ("default_value"@, json::optional_string(c.default_value)),
            ("primary_key_position"@, text::signed_decimal(c.primary_key_position as int)),
            ("hidden"@, text::signed_decimal(c.hidden as int)),
        ],
    )
}

/// What is known of an index.
pub open spec fn index_json(x: SchemaIndex) -> Seq<char> {
    json::record(
        seq![
            ("name"@, outside::json_string(x.name@)),
            ("unique"@, json::boolean(x.unique)),
            ("origin"@, outside::json_string(x.origin@)),
            ("columns"@, json::strings_json(text::views(x.columns@))),
        ],
    )
}

/// What is known of a foreign key.
pub open spec fn key_json(k: SchemaForeignKey) -> Seq<char> {
    json::record(
        seq![
            ("id"@, text::signed_decimal(k.id as int)),
            ("sequence"@, text::signed_decimal(k.sequence as int)),
            ("table"@, outside::json_string(k.table@)),
            ("from"@, outside::json_string(k.from@)),
            ("to"@, outside::json_string(k.to@)),
            ("on_update"@, outside::json_string(k.on_update@)),
            ("on_delete"@, outside::json_string(k.on_delete@)),
            ("match_clause"@, outside::json_string(k.match_clause@)),
        ],
    )
}

/// What is known of an object.
pub open spec fn object_json(o: SchemaObject) -> Seq<char> {
    json::record(
        seq![
            ("object_type"@, outside::json_string(o.object_type@)),
            ("name"@, outside::json_string(o.name@)),
            ("table_name"@, json::optional_string(o.table_name)),
            ("sql"@, json::optional_string(o.sql)),
        ],
    )
}

/// What is known of a table.
pub open spec fn table_json(t: SchemaTable) -> Seq<char> {
    json::record(
        seq![
            ("name"@, outside::json_string(t.name@)),
            ("strict"@, json::boolean(t.strict)),
            ("without_rowid"@, json::boolean(t.without_rowid)),
            (
                "columns"@,
                outside::json_array(t.columns@.map_values(|e: SchemaColumn| column_json(e))),
            ),
            (
                "indexes"@,
                outside::json_array(t.indexes@.map_values(|e: SchemaIndex| index_json(e))),
            ),
            (
                "foreign_keys"@,
                outside::json_array(t.foreign_keys@.map_values(|e: SchemaForeignKey| key_json(e))),
            ),
        ],
    )
}

/// The schema of a database in JSON.
pub open spec fn schema_json(s: SchemaInfo) -> Seq<char> {
    json::record(
        seq![
            ("schema_version"@, text::signed_decimal(s.schema_version as int)),
            ("user_version"@, text::signed_decimal(s.user_version as int)),
            ("identity"@, outside::json_string(s.identity@)),
            (
                "objects"@,
                outside::json_array(s.objects@.map_values(|e: SchemaObject| object_json(e))),
            ),
            ("tables"@, outside::json_array(s.tables@.map_values(|e: SchemaTable| table_json(e)))),
        ],
    )
}

fn column_text(c: &SchemaColumn) -> (r: String)
    ensures
        r@ == column_json(*c),
{
    let parts: Vec<Part> = vec![
        ("name", json_string_of(c.name.as_str())),
        ("declared_type", optional_string_text(&c.declared_type)),
        ("not_null", boolean_text(c.not_null)),
        ("default_value", optional_string_text(&c.default_value)),
        ("primary_key_position", signed_decimal_text(c.primary_key_position)),
        ("hidden", signed_decimal_text(c.hidden)),
    ];
    let ghost members = seq![
        ("name"@, outside::json_string(c.name@)),
        ("declared_type"@, json::optional_string(c.declared_type)),
        ("not_null"@, json::boolean(c.not_null)),
        ("default_value"@, json::optional_string(c.default_value)),
        ("primary_key_position"@, text::signed_decimal(c.primary_key_position as int)),
        ("hidden"@, text::signed_decimal(c.hidden as int)),
    ];
    assert(json::members_of(parts@) =~= members);
    record_text(&parts)
}

fn columns_text(list: &Vec<SchemaColumn>) -> (r: String)
    ensures
        r@ == outside::json_array(list@.map_values(|e: SchemaColumn| column_json(e))),
{
    let mut items: Vec<String> = Vec::new();
    let mut i: usize = 0;
    while i < list.len()
        invariant
            i <= list@.len(),
            items@.len() == i,
            forall|j: int| 0 <= j < i ==> (#[trigger] items@[j])@ == column_json(list@[j]),
        decreases list.len() - i,
    {
        items.push(column_text(&list[i]));
        i += 1;
    }
    assert(text::views(items@) =~= list@.map_values(|e: SchemaColumn| column_json(e)));
    array_text(&items)
}

fn index_text(x: &SchemaIndex) -> (r: String)
    ensures
        r@ == index_json(*x),
{
    let parts: Vec<Part> = vec![
        ("name", json_string_of(x.name.as_str())),
        ("unique", boolean_text(x.unique)),
        ("origin", json_string_of(x.origin.as_str())),
        ("columns", strings_text(&x.columns)),
    ];
    let ghost members = seq![
        ("name"@, outside::json_string(x.name@)),
        ("unique"@, json::boolean(x.unique)),
        ("origin"@, outside::json_string(x.origin@)),
        ("columns"@, json::strings_json(text::views(x.columns@))),
    ];
    assert(json::members_of(parts@) =~= members);
    record_text(&parts)
}

fn indexes_text(list: &Vec<SchemaIndex>) -> (r: String)
    ensures
        r@ == outside::json_array(list@.map_values(|e: SchemaIndex| index_json(e))),
{
    let mut items: Vec<String> = Vec::new();
    let mut i: usize = 0;
    while i < list.len()
        invariant
            i <= list@.len(),
            items@.len() == i,
            forall|j: int| 0 <= j < i ==> (#[trigger] items@[j])@ == index_json(list@[j]),
        decreases list.len() - i,
    {
        items.push(index_text(&list[i]));
        i += 1;
    }
    assert(text::views(items@) =~= list@.map_values(|e: SchemaIndex| index_json(e)));
    array_text(&items)
}

fn key_text(k: &SchemaForeignKey) -> (r: String)
    ensures
        r@ == key_json(*k),
{
    let parts: Vec<Part> = vec![
        ("id", signed_decimal_text(k.id)),
        ("sequence", signed_decimal_text(k.sequence)),
        ("table", json_string_of(k.table.as_str())),
        ("from", json_string_of(k.from.as_str())),
        ("to", json_string_of(k.to.as_str())),
        ("on_update", json_string_of(k.on_update.as_str())),
        ("on_delete", json_string_of(k.on_delete.as_str())),
        ("match_clause", json_string_of(k.match_clause.as_str())),
    ];
    let ghost members = seq![
        ("id"@, text::signed_decimal(k.id as int)),
        ("sequence"@, text::signed_decimal(k.sequence as int)),
        ("table"@, outside::json_string(k.table@)),
        ("from"@, outside::json_string(k.from@)),
        ("to"@, outside::json_string(k.to@)),
        ("on_update"@, outside::json_string(k.on_update@)),
        ("on_delete"@, outside::json_string(k.on_delete@)),
        ("match_clause"@, outside::json_string(k.match_clause@)),
    ];
    assert(json::members_of(parts@) =~= members);
    record_text(&parts)
}

fn foreign_keys_text(list: &Vec<SchemaForeignKey>) -> (r: String)
    ensures
        r@ == outside::json_array(list@.map_values(|e: SchemaForeignKey| key_json(e))),
{
    let mut items: Vec<String> = Vec::new();
    let mut i: usize = 0;
    while i < list.len()
        invariant
            i <= list@.len(),
            items@.len() == i,
            forall|j: int| 0 <= j < i ==> (#[trigger] items@[j])@ == key_json(list@[j]),
        decreases list.len() - i,
    {
        items.push(key_text(&list[i]));
        i += 1;
    }
    assert(text::views(items@) =~= list@.map_values(|e: SchemaForeignKey| key_json(e)));
    array_text(&items)
}

fn object_text(o: &SchemaObject) -> (r: String)
    ensures
        r@ == object_json(*o),
{
    let parts: Vec<Part> = vec![
        ("object_type", json_string_of(o.object_type.as_str())),
        ("name", json_string_of(o.name.as_str())),
        ("table_name", optional_string_text(&o.table_name)),
        ("sql", optional_string_text(&o.sql)),
    ];
    let ghost members = seq![
        ("object_type"@, outside::json_string(o.object_type@)),
        ("name"@, outside::json_string(o.name@)),
        ("table_name"@, json::optional_string(o.table_name)),
        ("sql"@, json::optional_string(o.sql)),
    ];
    assert(json::members_of(parts@) =~= members);
    record_text(&parts)
}

fn objects_text(list: &Vec<SchemaObject>) -> (r: String)
    ensures
        r@ == outside::json_array(list@.map_values(|e: SchemaObject| object_json(e))),
{
    let mut items: Vec<String> = Vec::new();
    let mut i: usize = 0;
    while i < list.len()
        invariant
            i <= list@.len(),
            items@.len() == i,
            forall|j: int| 0 <= j < i ==> (#[trigger] items@[j])@ == object_json(list@[j]),
        decreases list.len() - i,
    {
        items.push(object_text(&list[i]));
        i += 1;
    }
    assert(text::views(items@) =~= list@.map_values(|e: SchemaObject| object_json(e)));
    array_text(&items)
}

fn table_text(t: &SchemaTable) -> (r: String)
    ensures
        r@ == table_json(*t),
{
    let parts: Vec<Part> = vec![
        ("name", json_string_of(t.name.as_str())),
        ("strict", boolean_text(t.strict)),
        ("without_rowid", boolean_text(t.without_rowid)),
        ("columns", columns_text(&t.columns)),
        ("indexes", indexes_text(&t.indexes)),
        ("foreign_keys", foreign_keys_text(&t.foreign_keys)),
    ];
    let ghost members = seq![
        ("name"@, outside::json_string(t.name@)),
        ("strict"@, json::boolean(t.strict)),
        ("without_rowid"@, json::boolean(t.without_rowid)),
        ("columns"@, outside::json_array(t.columns@.map_values(|e: SchemaColumn| column_json(e)))),
        ("indexes"@, outside::json_array(t.indexes@.map_values(|e: SchemaIndex| index_json(e)))),
        (
            "foreign_keys"@,
            outside::json_array(t.foreign_keys@.map_values(|e: SchemaForeignKey| key_json(e))),
        ),
    ];
    assert(json::members_of(parts@) =~= members);
    record_text(&parts)
}

fn tables_text(list: &Vec<SchemaTable>) -> (r: String)
    ensures
        r@ == outside::json_array(list@.map_values(|e: SchemaTable| table_json(e))),
{
    let mut items: Vec<String> = Vec::new();
    let mut i: usize = 0;
    while i < list.len()
        invariant
            i <= list@.len(),
            items@.len() == i,
            forall|j: int| 0 <= j < i ==> (#[trigger] items@[j])@ == table_json(list@[j]),
        decreases list.len() - i,
    {
        items.push(table_text(&list[i]));
        i += 1;
    }
    assert(text::views(items@) =~= list@.map_values(|e: SchemaTable| table_json(e)));
    array_text(&items)
}

/// The schema of a database in JSON.
pub fn schema_text(s: &SchemaInfo) -> (r: String)
    ensures
        r@ == schema_json(*s),
{
    let parts: Vec<Part> = vec![
        ("schema_version", signed_decimal_text(s.schema_version)),
        ("user_version", signed_decimal_text(s.user_version)),
        ("identity", json_string_of(s.identity.as_str())),
        ("objects", objects_text(&s.objects)),
        ("tables", tables_text(&s.tables)),
    ];
    let ghost members = seq![
        ("schema_version"@, text::signed_decimal(s.schema_version as int)),
        ("user_version"@, text::signed_decimal(s.user_version as int)),
        ("identity"@, outside::json_string(s.identity@)),
        ("objects"@, outside::json_array(s.objects@.map_values(|e: SchemaObject| object_json(e)))),
        ("tables"@, outside::json_array(s.tables@.map_values(|e: SchemaTable| table_json(e)))),
    ];
    assert(json::members_of(parts@) =~= members);
    record_text(&parts)
}

} // verus!
