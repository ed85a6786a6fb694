//! SQL literals, identifiers and typed annotations of merge text.
use crate::merge::error::MergeError;
use crate::outside;
use crate::outside::{debug_text_of, encode_url_base64, text_of_utf8};
use crate::text;
use crate::text::signed_decimal_text;
use vstd::prelude::*;
use vstd::utf8::*;

verus! {

/// One value that a database row holds.
#[derive(Debug)]
pub enum SourceValue {
    Null,
    Integer(i64),
    /// A double by its bits and by the shortest decimal text that reads back
    /// as the same double.
    Real { bits: u64, display: String },
    Text(Vec<u8>),
    Blob(Vec<u8>),
}

/// `s` with every `q` doubled.
pub open spec fn doubled(s: Seq<char>, q: char) -> Seq<char>
    decreases s.len(),
{
    if s.len() == 0 {
        s
    } else if s.last() == q {
        doubled(s.drop_last(), q).push(q).push(q)
    } else {
        doubled(s.drop_last(), q).push(s.last())
    }
}

/// `s` between two `q`, with every `q` inside doubled.
pub open spec fn quoted(s: Seq<char>, q: char) -> Seq<char> {
    seq![q] + doubled(s, q) + seq![q]
}

/// Whether a text holds the NUL character.
pub open spec fn has_nul(s: Seq<char>) -> bool {
    s.contains('\0')
}

/// The bits of a double whose exponent marks an infinity or a NaN.
pub open spec fn is_non_finite(bits: u64) -> bool {
    (bits / 0x10_0000_0000_0000) % 0x800 == 0x7ff
}

/// `s` with every `e+` shortened to `e`.
pub open spec fn without_plus(s: Seq<char>) -> Seq<char>
    decreases s.len(),
{
    if s.len() == 0 {
        s
    } else if s.len() >= 2 && s[0] == 'e' && s[1] == '+' {
        seq!['e'] + without_plus(s.skip(2))
    } else {
        seq![s[0]] + without_plus(s.skip(1))
    }
}

/// The literal of a finite double.
pub open spec fn real_literal(bits: u64, display: Seq<char>) -> Seq<char> {
    let s = without_plus(display);
    if bits == 0x8000_0000_0000_0000 {
        "-0.0"@
    } else if !s.contains('.') && !s.contains('e') && !s.contains('E') {
        s + ".0"@
    } else {
        s
    }
}

/// The upper-case hexadecimal digit of a number below sixteen.
pub open spec fn upper_hex(n: u8) -> char {
    if n < 10 {
        (0x30 + n) as u8 as char
    } else {
        (0x37 + n) as u8 as char
    }
}

/// The lower-case hexadecimal digit of a number below sixteen.
pub open spec fn lower_hex(n: u8) -> char {
    if n < 10 {
        (0x30 + n) as u8 as char
    } else {
        (0x57 + n) as u8 as char
    }
}

/// Two upper-case hexadecimal digits for each byte.
pub open spec fn hex_bytes(b: Seq<u8>) -> Seq<char>
    decreases b.len(),
{
    if b.len() == 0 {
        Seq::empty()
    } else {
        hex_bytes(b.drop_last()).push(upper_hex((b.last() / 16) as u8)).push(
            upper_hex((b.last() % 16) as u8),
        )
    }
}

/// The last `width` lower-case hexadecimal digits of a number.
pub open spec fn hex_digits(n: nat, width: nat) -> Seq<char>
    decreases width,
{
    if width == 0 {
        Seq::empty()
    } else {
        hex_digits(n / 16, (width - 1) as nat).push(lower_hex((n % 16) as u8))
    }
}

/// The SQL literal of a value, or why it has none.
pub open spec fn literal_of(value: SourceValue) -> Result<Seq<char>, Seq<char>> {
    match value {
        SourceValue::Null => Ok("NULL"@),
        SourceValue::Integer(n) => Ok(text::signed_decimal(n as int)),
        SourceValue::Real { bits, display } => if is_non_finite(bits) {
            Err("non-finite REAL is not representable"@)
        } else {
            Ok(real_literal(bits, display@))
        },
        SourceValue::Text(bytes) => if !valid_utf8(bytes@) {
            Err("TEXT is not valid UTF-8"@)
        } else if bytes@.contains(0u8) {
            Err("TEXT contains NUL"@)
        } else {
            Ok(quoted(decode_utf8(bytes@), '\''))
        },
        SourceValue::Blob(bytes) => Ok("X'"@ + hex_bytes(bytes@) + "'"@),
    }
}

/// The members of the typed annotation of a value, or why it has none.
pub open spec fn typed_members(value: SourceValue) -> Result<
    Seq<(Seq<char>, Seq<char>)>,
    Seq<char>,
> {
    match value {
        SourceValue::Null => Ok(seq![("kind"@, "null"@)]),
        SourceValue::Integer(n) => Ok(
            seq![("kind"@, "integer"@), ("value"@, text::signed_decimal(n as int))],
        ),
        SourceValue::Real { bits, .. } => Ok(
            seq![("kind"@, "real_bits"@), ("value"@, hex_digits(bits as nat, 16))],
        ),
        SourceValue::Text(bytes) => if !valid_utf8(bytes@) {
            Err("TEXT is not valid UTF-8"@)
        } else if bytes@.contains(0u8) {
            Err("TEXT contains NUL"@)
        } else {
            Ok(seq![("kind"@, "text"@), ("value"@, outside::url_base64(bytes@))])
        },
        SourceValue::Blob(bytes) => Ok(
            seq![("kind"@, "blob"@), ("value"@, outside::url_base64(bytes@))],
        ),
    }
}

fn push_doubled(out: &mut String, s: &str, q: char)
    ensures
        final(out)@ == old(out)@ + doubled(s@, q),
{
    let ghost before = out@;
    for c in it: s.chars()
        invariant
            it.seq() == s@,
            out@ == before + doubled(s@.take(it.index() as int), q),
    {
        assert(s@.take(it.index() + 1).drop_last() =~= s@.take(it.index() as int));
        let ghost prior = doubled(s@.take(it.index() as int), q);
        if c == q {
            out.push(q);
            out.push(q);
            assert(before + prior.push(q).push(q) =~= (before + prior).push(q).push(q));
        } else {
            out.push(c);
            assert(before + prior.push(c) =~= (before + prior).push(c));
        }
    }
    assert(s@.take(s@.len() as int) =~= s@);
}

/// `s` between two `q`, with every `q` inside doubled.
pub fn quote_text(s: &str, q: char) -> (r: String)
    ensures
        r@ == quoted(s@, q),
{
    let mut out = String::new();
    out.push(q);
    push_doubled(&mut out, s, q);
    out.push(q);
    assert(out@ =~= quoted(s@, q));
    out
}

/// Whether a character occurs in a text.
pub fn contains_char(s: &str, wanted: char) -> (r: bool)
    ensures
        r == s@.contains(wanted),
{
    for c in it: s.chars()
        invariant
            it.seq() == s@,
            forall|i: int| 0 <= i < it.index() ==> s@[i] != wanted,
    {
        if c == wanted {
            assert(s@[it.index() as int] == wanted);
            return true;
        }
    }
    false
}

fn contains_nul_byte(bytes: &Vec<u8>) -> (r: bool)
    ensures
        r == bytes@.contains(0u8),
{
    let mut i: usize = 0;
    while i < bytes.len()
        invariant
            i <= bytes@.len(),
            forall|j: int| 0 <= j < i ==> bytes@[j] != 0u8,
        decreases bytes.len() - i,
    {
        if bytes[i] == 0 {
            return true;
        }
        i += 1;
    }
    false
}

/// An identifier in double quotes. A name that holds NUL has no such form.
pub fn quoted_identifier(name: &str) -> (r: Result<String, MergeError>)
    ensures
        match r {
            Ok(q) => !has_nul(name@) && q@ == quoted(name@, '"'),
            Err(e) => has_nul(name@) && e.details is Null && e.fault() == nul_identifier(name@),
        },
{
    if contains_char(name, '\0') {
        let mut message = "identifier contains NUL: ".to_owned();
        message.append(debug_text_of(name).as_str());
        return Err(MergeError::with_message("MERGE_UNREPRESENTABLE_CONTENT", message));
    }
    Ok(quote_text(name, '"'))
}

/// The fault of an identifier that holds NUL.
pub open spec fn nul_identifier(name: Seq<char>) -> (Seq<char>, Seq<char>) {
    ("MERGE_UNREPRESENTABLE_CONTENT"@, "identifier contains NUL: "@ + outside::debug_text(name))
}

fn strip_plus(s: &str) -> (r: String)
    ensures
        r@ == without_plus(s@),
{
    let cs = text::chars_of(s);
    let mut out = String::new();
    let mut i: usize = 0;
    assert(cs@.skip(0) =~= cs@);
    while i < cs.len()
        invariant
            i <= cs@.len(),
            out@ + without_plus(cs@.skip(i as int)) == without_plus(cs@),
        decreases cs.len() - i,
    {
        let ghost rest = cs@.skip(i as int);
        let ghost prior = out@;
        if cs.len() - i >= 2 && cs[i] == 'e' && cs[i + 1] == '+' {
            out.push('e');
            assert(rest.skip(2) =~= cs@.skip(i + 2));
            assert(prior + (seq!['e'] + without_plus(rest.skip(2))) =~= out@ + without_plus(
                cs@.skip(i + 2),
            ));
            i += 2;
        } else {
            out.push(cs[i]);
            assert(rest.skip(1) =~= cs@.skip(i + 1));
            assert(prior + (seq![rest[0]] + without_plus(rest.skip(1))) =~= out@ + without_plus(
                cs@.skip(i + 1),
            ));
            i += 1;
        }
    }
    assert(cs@.skip(i as int) =~= Seq::<char>::empty());
    assert(out@ + Seq::<char>::empty() =~= out@);
    out
}

fn real_literal_text(bits: u64, display: &str) -> (r: String)
    ensures
        r@ == real_literal(bits, display@),
{
    let mut s = strip_plus(display);
    if bits == 0x8000_0000_0000_0000 {
        "-0.0".to_owned()
    } else {
        if !contains_char(s.as_str(), '.') && !contains_char(s.as_str(), 'e') && !contains_char(
            s.as_str(),
            'E',
        ) {
            s.append(".0");
        }
        s
    }
}

fn upper_hex_char(n: u8) -> (r: char)
    requires
        n < 16,
    ensures
        r == upper_hex(n),
{
    if n < 10 {
        (0x30 + n) as char
    } else {
        (0x37 + n) as char
    }
}

fn lower_hex_char(n: u8) -> (r: char)
    requires
        n < 16,
    ensures
        r == lower_hex(n),
{
    if n < 10 {
        (0x30 + n) as char
    } else {
        (0x57 + n) as char
    }
}

fn push_hex_bytes(out: &mut String, bytes: &Vec<u8>)
    ensures
        final(out)@ == old(out)@ + hex_bytes(bytes@),
{
    let ghost before = out@;
    let mut i: usize = 0;
    assert(before + hex_bytes(bytes@.take(0)) =~= before);
    while i < bytes.len()
        invariant
            i <= bytes@.len(),
            out@ == before + hex_bytes(bytes@.take(i as int)),
        decreases bytes.len() - i,
    {
        let c: u8 = bytes[i];
        assert(bytes@.take(i + 1).drop_last() =~= bytes@.take(i as int));
        let ghost prior = hex_bytes(bytes@.take(i as int));
        out.push(upper_hex_char(c / 16));
        out.push(upper_hex_char(c % 16));
        assert((before + prior).push(upper_hex((c / 16) as u8)).push(upper_hex((c % 16) as u8))
            =~= before + prior.push(upper_hex((c / 16) as u8)).push(upper_hex((c % 16) as u8)));
        i += 1;
    }
    assert(bytes@.take(bytes@.len() as int) =~= bytes@);
}

fn hex_digits_text(n: u64, width: usize) -> (r: String)
    ensures
        r@ == hex_digits(n as nat, width as nat),
    decreases width,
{
    if width == 0 {
        String::new()
    } else {
        let mut s = hex_digits_text(n / 16, width - 1);
        s.push(lower_hex_char((n % 16) as u8));
        s
    }
}

/// The UTF-8 text of some bytes that hold no NUL.
fn plain_text(bytes: &Vec<u8>) -> (r: Result<String, String>)
    ensures
        match r {
            Ok(s) => valid_utf8(bytes@) && !bytes@.contains(0u8) && s@ == decode_utf8(bytes@),
            Err(m) => if !valid_utf8(bytes@) {
                m@ == "TEXT is not valid UTF-8"@
            } else {
                bytes@.contains(0u8) && m@ == "TEXT contains NUL"@
            },
        },
{
    let copy: Vec<u8> = bytes.clone();
    match text_of_utf8(copy) {
        None => Err("TEXT is not valid UTF-8".to_owned()),
        Some(s) => {
            proof {
                encode_utf8_valid_utf8(s@);
                encode_utf8_decode_utf8(s@);
            }
            if contains_nul_byte(bytes) {
                return Err("TEXT contains NUL".to_owned());
            }
            Ok(s)
        },
    }
}

/// The SQL literal of a value.
///
/// Integers are decimal, texts are quoted with their quotes doubled, blobs are
/// upper-case hexadecimal. A double keeps a mark that it is no integer, and
/// negative zero keeps its sign. Doubles that are not finite and texts that are
/// no UTF-8 or hold NUL have no literal.
pub fn value_literal(value: &SourceValue) -> (r: Result<String, String>)
    ensures
        match literal_of(*value) {
            Ok(s) => r matches Ok(v) && v@ == s,
            Err(m) => r matches Err(e) && e@ == m,
        },
{
    match value {
        SourceValue::Null => Ok("NULL".to_owned()),
        SourceValue::Integer(n) => Ok(signed_decimal_text(*n)),
        SourceValue::Real { bits, display } => {
            if (*bits / 0x10_0000_0000_0000) % 0x800 == 0x7ff {
                return Err("non-finite REAL is not representable".to_owned());
            }
            Ok(real_literal_text(*bits, display.as_str()))
        },
        SourceValue::Text(bytes) => match plain_text(bytes) {
            Err(m) => Err(m),
            Ok(s) => Ok(quote_text(s.as_str(), '\'')),
        },
        SourceValue::Blob(bytes) => {
            let mut out = "X'".to_owned();
            push_hex_bytes(&mut out, bytes);
            out.append("'");
            Ok(out)
        },
    }
}

fn kind_only(kind: &str) -> (r: Vec<(String, String)>)
    ensures
        outside::members_view(r@) == seq![("kind"@, kind@)],
{
    let mut members: Vec<(String, String)> = Vec::new();
    members.push(("kind".to_owned(), kind.to_owned()));
    assert(outside::members_view(members@) =~= seq![("kind"@, kind@)]);
    members
}

fn kind_and_value(kind: &str, value: String) -> (r: Vec<(String, String)>)
    ensures
        outside::members_view(r@) == seq![("kind"@, kind@), ("value"@, value@)],
{
    let mut members = kind_only(kind);
    let ghost prior = outside::members_view(members@);
    members.push(("value".to_owned(), value));
    assert(outside::members_view(members@) =~= prior.push(("value"@, value@)));
    assert(outside::members_view(members@) =~= seq![("kind"@, kind@), ("value"@, value@)]);
    members
}

/// The members of the typed annotation of a value: its kind and, for all but
/// null, its exact content.
pub fn typed_value(value: &SourceValue) -> (r: Result<Vec<(String, String)>, String>)
    ensures
        match typed_members(*value) {
            Ok(members) => r matches Ok(v) && outside::members_view(v@) == members,
            Err(m) => r matches Err(e) && e@ == m,
        },
{
    match value {
        SourceValue::Null => Ok(kind_only("null")),
        SourceValue::Integer(n) => Ok(kind_and_value("integer", signed_decimal_text(*n))),
        SourceValue::Real { bits, display } => Ok(
            kind_and_value("real_bits", hex_digits_text(*bits, 16)),
        ),
        SourceValue::Text(bytes) => match plain_text(bytes) {
            Err(m) => Err(m),
            Ok(s) => {
                proof {
                    decode_utf8_encode_utf8(bytes@);
                }
                Ok(kind_and_value("text", encode_url_base64(s.as_str().as_bytes())))
            },
        },
        SourceValue::Blob(bytes) => Ok(
            kind_and_value("blob", encode_url_base64(bytes.as_slice())),
        ),
    }
}

} // verus!
