//! Calls into other crates and into parts of std that have no specification.
//!
//! Each function makes one call and says what is taken for granted of it.
use crate::worker::error::SqliteFailure;
use base64::Engine;
use sha2::Digest;
use vstd::prelude::*;
use vstd::utf8::*;

verus! {

/// The URL-safe base64 text of some bytes, without padding.
pub uninterp spec fn url_base64(bytes: Seq<u8>) -> Seq<char>;

/// The bytes that an unpadded URL-safe base64 text stands for.
pub uninterp spec fn url_base64_decoded(text: Seq<u8>) -> Option<Seq<u8>>;

/// The SHA-256 digest of some bytes in lower-case hexadecimal digits.
pub uninterp spec fn sha256_hex(bytes: Seq<u8>) -> Seq<char>;

/// A character of the URL-safe base64 alphabet.
pub open spec fn is_url_base64_char(c: char) -> bool {
    'A' <= c <= 'Z' || 'a' <= c <= 'z' || '0' <= c <= '9' || c == '-' || c == '_'
}

/// A lower-case hexadecimal digit.
pub open spec fn is_lower_hex_char(c: char) -> bool {
    '0' <= c <= '9' || 'a' <= c <= 'f'
}

/// The contents of a byte vector, where there is one.
pub open spec fn bytes_view(v: Option<Vec<u8>>) -> Option<Seq<u8>> {
    match v {
        Some(bytes) => Some(bytes@),
        None => None,
    }
}

/// `base64::Engine::encode` of the engine `URL_SAFE_NO_PAD`: the text depends
/// on the bytes alone, uses the alphabet of letters, digits, `-` and `_`
/// only, and decodes to the bytes again.
#[verifier::external_body]
pub(crate) fn encode_url_base64(bytes: &[u8]) -> (r: String)
    ensures
        r@ == url_base64(bytes@),
        forall|i: int| 0 <= i < r@.len() ==> is_url_base64_char(#[trigger] r@[i]),
        url_base64_decoded(encode_utf8(r@)) == Some(bytes@),
{
    base64::engine::general_purpose::URL_SAFE_NO_PAD.encode(bytes)
}

/// `base64::Engine::decode` of the engine `URL_SAFE_NO_PAD`: the bytes, or
/// that there are none, depend on the text alone.
#[verifier::external_body]
pub(crate) fn decode_url_base64(text: &[u8]) -> (r: Option<Vec<u8>>)
    ensures
        bytes_view(r) == url_base64_decoded(text@),
{
    base64::engine::general_purpose::URL_SAFE_NO_PAD.decode(text).ok()
}

/// `sha2::Sha256::digest`, written with `{:x}`: 64 lower-case hexadecimal
/// digits that depend on the bytes alone.
#[verifier::external_body]
pub(crate) fn digest_sha256_hex(bytes: &[u8]) -> (r: String)
    ensures
        r@ == sha256_hex(bytes@),
        r@.len() == 64,
        forall|i: int| 0 <= i < r@.len() ==> is_lower_hex_char(#[trigger] r@[i]),
{
    format!("{:x}", sha2::Sha256::digest(bytes))
}

/// `String::from_utf8`: the text whose UTF-8 form the bytes are, or nothing
/// where they are not valid UTF-8.
#[verifier::external_body]
pub(crate) fn text_of_utf8(bytes: Vec<u8>) -> (r: Option<String>)
    ensures
        match r {
            Some(text) => encode_utf8(text@) == bytes@,
            None => !valid_utf8(bytes@),
        },
{
    String::from_utf8(bytes).ok()
}

/// The text of `{:?}` for a string.
pub uninterp spec fn debug_text(text: Seq<char>) -> Seq<char>;

/// The members of one object.
pub open spec fn members_view(members: Seq<(String, String)>) -> Seq<(Seq<char>, Seq<char>)> {
    members.map_values(|m: (String, String)| (m.0@, m.1@))
}

/// The members of each object of an array.
pub open spec fn objects_view(objects: Seq<Vec<(String, String)>>) -> Seq<
    Seq<(Seq<char>, Seq<char>)>,
> {
    objects.map_values(|o: Vec<(String, String)>| members_view(o@))
}

/// A lower-case hexadecimal digit.
pub open spec fn hex_digit(d: int) -> char {
    if d < 10 {
        (('0' as int) + d) as char
    } else {
        (('a' as int) + (d - 10)) as char
    }
}

/// A character inside a JSON string: quotes, backslashes and control characters
/// are escaped, all others stand for themselves.
pub open spec fn json_char(c: char) -> Seq<char> {
    if c == '"' || c == '\\' {
        seq!['\\', c]
    } else if c == '\u{8}' {
        seq!['\\', 'b']
    } else if c == '\t' {
        seq!['\\', 't']
    } else if c == '\n' {
        seq!['\\', 'n']
    } else if c == '\u{c}' {
        seq!['\\', 'f']
    } else if c == '\r' {
        seq!['\\', 'r']
    } else if (c as int) < 0x20 {
        seq!['\\', 'u', '0', '0', hex_digit((c as int) / 16), hex_digit((c as int) % 16)]
    } else {
        seq![c]
    }
}

/// The characters of a JSON string between its quotes.
pub open spec fn json_chars(s: Seq<char>) -> Seq<char>
    decreases s.len(),
{
    if s.len() == 0 {
        s
    } else {
        json_chars(s.drop_last()) + json_char(s.last())
    }
}

/// A JSON string.
pub open spec fn json_string(s: Seq<char>) -> Seq<char> {
    seq!['"'] + json_chars(s) + seq!['"']
}

/// A compact JSON array of items that are JSON already.
pub open spec fn json_array(items: Seq<Seq<char>>) -> Seq<char> {
    seq!['['] + crate::text::join(items, seq![',']) + seq![']']
}

/// A compact JSON object whose members are strings.
pub open spec fn json_object(members: Seq<(Seq<char>, Seq<char>)>) -> Seq<char> {
    seq!['{'] + crate::text::join(
        members.map_values(
            |m: (Seq<char>, Seq<char>)| json_string(m.0) + seq![':'] + json_string(m.1),
        ),
        seq![','],
    ) + seq!['}']
}

/// A compact JSON array of objects whose members are strings.
pub open spec fn json_objects(objects: Seq<Seq<(Seq<char>, Seq<char>)>>) -> Seq<char> {
    json_array(objects.map_values(|o: Seq<(Seq<char>, Seq<char>)>| json_object(o)))
}

/// The members are a tag and, where there is one, the value that it belongs to.
pub open spec fn is_tagged(members: Seq<(Seq<char>, Seq<char>)>) -> bool {
    &&& members.len() == 1 || members.len() == 2 && members[1].0 == "value"@
    &&& members[0].0 == "kind"@ || members[0].0 == "type"@
}

pub open spec fn all_tagged(objects: Seq<Seq<(Seq<char>, Seq<char>)>>) -> bool {
    forall|i: int| 0 <= i < objects.len() ==> is_tagged(#[trigger] objects[i])
}

/// `serde_json::to_string` for a string: the JSON string.
#[verifier::external_body]
pub(crate) fn json_string_of(text: &str) -> (r: String)
    ensures
        r@ == json_string(text@),
{
    serde_json::to_string(text).unwrap_or_default()
}

/// The JSON text that `serde_json::Value` displays for an array of objects with
/// string members: compact, the members in the order of their names. The names
/// that are admitted are in that order as they come.
#[verifier::external_body]
pub(crate) fn json_text_of_objects(objects: &Vec<Vec<(String, String)>>) -> (r: String)
    requires
        all_tagged(objects_view(objects@)),
    ensures
        r@ == json_objects(objects_view(objects@)),
{
    let items = objects.iter().map(
        |members|
            serde_json::Value::Object(
                members.iter().map(|m| (m.0.clone(), serde_json::Value::String(m.1.clone()))).collect(),
            ),
    );
    serde_json::Value::Array(items.collect()).to_string()
}

/// The text that `format!` gives for `{:?}` of a string: it depends on the
/// string alone.
#[verifier::external_body]
pub(crate) fn debug_text_of(text: &str) -> (r: String)
    ensures
        r@ == debug_text(text@),
{
    format!("{text:?}")
}

/// The padded base64 text of some bytes in the standard alphabet.
pub uninterp spec fn plain_base64(bytes: Seq<u8>) -> Seq<char>;

/// The bytes that a padded base64 text in the standard alphabet stands for.
pub uninterp spec fn plain_base64_decoded(text: Seq<char>) -> Option<Seq<u8>>;

/// `base64::Engine::encode` of the engine `STANDARD`: the text depends on the
/// bytes alone and decodes to them again.
#[verifier::external_body]
pub(crate) fn encode_plain_base64(bytes: &[u8]) -> (r: String)
    ensures
        r@ == plain_base64(bytes@),
        plain_base64_decoded(r@) == Some(bytes@),
{
    base64::engine::general_purpose::STANDARD.encode(bytes)
}

/// `base64::Engine::decode` of the engine `STANDARD`: the bytes, or that there
/// are none, depend on the text alone.
#[verifier::external_body]
pub(crate) fn decode_plain_base64(text: &str) -> (r: Option<Vec<u8>>)
    ensures
        bytes_view(r) == plain_base64_decoded(text@),
{
    base64::engine::general_purpose::STANDARD.decode(text).ok()
}

/// A character of a hyphenated identifier.
pub open spec fn is_id_char(c: char) -> bool {
    is_lower_hex_char(c) || c == '-'
}

/// `uuid::Uuid::new_v4`, written in its hyphenated form: 36 lower-case
/// hexadecimal digits and hyphens, which no call can foresee.
#[verifier::external_body]
pub(crate) fn fresh_id() -> (r: String)
    ensures
        r@.len() == 36,
        forall|i: int| 0 <= i < r@.len() ==> is_id_char(#[trigger] r@[i]),
{
    uuid::Uuid::new_v4().to_string()
}

/// A compact JSON object with two members: an array of strings, and an array of
/// arrays of objects whose members are strings.
pub open spec fn json_payload(
    columns_name: Seq<char>,
    columns: Seq<Seq<char>>,
    rows_name: Seq<char>,
    rows: Seq<Seq<Seq<(Seq<char>, Seq<char>)>>>,
) -> Seq<char> {
    seq!['{'] + json_string(columns_name) + seq![':'] + json_array(
        columns.map_values(|c: Seq<char>| json_string(c)),
    ) + seq![','] + json_string(rows_name) + seq![':'] + json_array(
        rows.map_values(|r: Seq<Seq<(Seq<char>, Seq<char>)>>| json_objects(r)),
    ) + seq!['}']
}

/// The members of each object of each row.
pub open spec fn rows_view(rows: Seq<Vec<Vec<(String, String)>>>) -> Seq<
    Seq<Seq<(Seq<char>, Seq<char>)>>,
> {
    rows.map_values(|row: Vec<Vec<(String, String)>>| objects_view(row@))
}

/// `serde_json::to_vec` for an object with two members, whose names differ in
/// their first letters and stand in the order of these: the compact JSON text in UTF-8.
#[verifier::external_body]
pub(crate) fn json_payload_of(
    columns_name: &str,
    columns: &Vec<String>,
    rows_name: &str,
    rows: &Vec<Vec<Vec<(String, String)>>>,
) -> (r: Vec<u8>)
    requires
        columns_name@.len() > 0 && rows_name@.len() > 0,
        (columns_name@[0] as u32) < (rows_name@[0] as u32) < 0x80,
        forall|i: int| 0 <= i < rows@.len() ==> all_tagged(#[trigger] rows_view(rows@)[i]),
    ensures
        r@ == encode_utf8(
            json_payload(
                columns_name@,
                crate::text::views(columns@),
                rows_name@,
                rows_view(rows@),
            ),
        ),
{
    let text = |s: &String| serde_json::Value::String(s.clone());
    let object = |o: &Vec<(String, String)>|
        serde_json::Value::Object(o.iter().map(|m| (m.0.clone(), text(&m.1))).collect());
    let row = |r: &Vec<Vec<(String, String)>>| serde_json::Value::Array(r.iter().map(object).collect());
    let mut payload = serde_json::Map::new();
    payload.insert(columns_name.to_owned(), columns.iter().map(text).collect());
    payload.insert(rows_name.to_owned(), rows.iter().map(row).collect());
    serde_json::to_vec(&payload).unwrap_or_default()
}

/// A connection to a database.
#[verifier::external_type_specification]
#[verifier::external_body]
pub struct ExConnection(rusqlite::Connection);

/// A limit that SQLite enforces on a connection.
#[derive(Debug, Clone, Copy, PartialEq, Eq, Structural)]
pub enum EngineLimit {
    /// The length of a string, a blob or a row.
    Length,
    /// The depth of an expression.
    ExpressionDepth,
    /// The terms of a compound select.
    CompoundSelect,
    /// The highest number of a parameter.
    VariableNumber,
}

/// `rusqlite::Connection::set_limit`: asks the connection to use a limit. It fails
/// for a negative value and for a limit that SQLite does not know, which none of
/// these is. Nothing is said of the value that the connection then uses: it is
/// inside the connection, and it has a ceiling that was fixed when SQLite was
/// compiled.
#[verifier::external_body]
pub(crate) fn set_engine_limit(
    conn: &rusqlite::Connection,
    limit: EngineLimit,
    value: i32,
) -> (r: Result<(), SqliteFailure>)
    ensures
        r is Ok == (value >= 0),
{
    let which = match limit {
        EngineLimit::Length => rusqlite::limits::Limit::SQLITE_LIMIT_LENGTH,
        EngineLimit::ExpressionDepth => rusqlite::limits::Limit::SQLITE_LIMIT_EXPR_DEPTH,
        EngineLimit::CompoundSelect => rusqlite::limits::Limit::SQLITE_LIMIT_COMPOUND_SELECT,
        EngineLimit::VariableNumber => rusqlite::limits::Limit::SQLITE_LIMIT_VARIABLE_NUMBER,
    };
    conn.set_limit(which, value).map(|_| ()).map_err(
        |e| SqliteFailure { code: e.sqlite_extended_error_code(), text: e.to_string() },
    )
}

/// `rusqlite::Connection::limit`: the value that the connection uses for a limit,
/// which is not negative. It fails for a limit that SQLite does not know only,
/// which none of these is. Nothing is said of which value it is: that is inside the
/// connection.
#[verifier::external_body]
pub(crate) fn engine_limit(conn: &rusqlite::Connection, limit: EngineLimit) -> (r: Result<
    i32,
    SqliteFailure,
>)
    ensures
        r is Ok && r->Ok_0 >= 0,
{
    let which = match limit {
        EngineLimit::Length => rusqlite::limits::Limit::SQLITE_LIMIT_LENGTH,
        EngineLimit::ExpressionDepth => rusqlite::limits::Limit::SQLITE_LIMIT_EXPR_DEPTH,
        EngineLimit::CompoundSelect => rusqlite::limits::Limit::SQLITE_LIMIT_COMPOUND_SELECT,
        EngineLimit::VariableNumber => rusqlite::limits::Limit::SQLITE_LIMIT_VARIABLE_NUMBER,
    };
    conn.limit(which).map_err(
        |e| SqliteFailure { code: e.sqlite_extended_error_code(), text: e.to_string() },
    )
}

} // verus!
