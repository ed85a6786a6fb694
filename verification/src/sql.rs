//! Typed values on their way into and out of SQLite.
use crate::merge::values;
use crate::merge::values::contains_char;
use crate::outside;
use crate::outside::{
    decode_plain_base64, encode_plain_base64, text_of_utf8,
};
use crate::text;
use crate::text::{chars_of, signed_decimal_text};
use vstd::prelude::*;
use vstd::utf8::*;

verus! {

/// A value as callers write and read it.
#[derive(Debug, Clone, PartialEq, Eq)]
pub enum Cell {
    Null,
    Integer(String),
    Real(String),
    Text(String),
    /// Bytes in base64.
    Blob(String),
    /// Text that is not valid UTF-8, in base64.
    TextBytes(String),
}

/// What a cell says.
pub enum CellView {
    Null,
    Integer(Seq<char>),
    Real(Seq<char>),
    Text(Seq<char>),
    Blob(Seq<char>),
    TextBytes(Seq<char>),
}

impl View for Cell {
    type V = CellView;

    open spec fn view(&self) -> CellView {
        match *self {
            Cell::Null => CellView::Null,
            Cell::Integer(s) => CellView::Integer(s@),
            Cell::Real(s) => CellView::Real(s@),
            Cell::Text(s) => CellView::Text(s@),
            Cell::Blob(s) => CellView::Blob(s@),
            Cell::TextBytes(s) => CellView::TextBytes(s@),
        }
    }
}

/// A value as SQLite takes it. A real number is held by its bits.
#[derive(Debug, Clone)]
pub enum SqlValue {
    Null,
    Integer(i64),
    Real(u64),
    Text(String),
    Blob(Vec<u8>),
}

/// What a value is.
pub enum SqlValueView {
    Null,
    Integer(i64),
    Real(u64),
    Text(Seq<char>),
    Blob(Seq<u8>),
}

impl View for SqlValue {
    type V = SqlValueView;

    open spec fn view(&self) -> SqlValueView {
        match *self {
            SqlValue::Null => SqlValueView::Null,
            SqlValue::Integer(n) => SqlValueView::Integer(n),
            SqlValue::Real(bits) => SqlValueView::Real(bits),
            SqlValue::Text(s) => SqlValueView::Text(s@),
            SqlValue::Blob(b) => SqlValueView::Blob(b@),
        }
    }
}

pub open spec fn is_digit_char(c: char) -> bool {
    '0' <= c <= '9'
}

/// The number that decimal digits stand for.
pub open spec fn digits_number(d: Seq<char>) -> nat
    decreases d.len(),
{
    if d.len() == 0 {
        0
    } else {
        digits_number(d.drop_last()) * 10 + (d.last() as int - '0' as int) as nat
    }
}

/// `s` without a leading sign.
pub open spec fn without_sign(s: Seq<char>) -> Seq<char> {
    if s.len() > 0 && (s[0] == '+' || s[0] == '-') {
        s.skip(1)
    } else {
        s
    }
}

/// The integer that a text stands for: an optional sign and decimal digits,
/// within 64 bits.
pub open spec fn integer_value(s: Seq<char>) -> Option<i64> {
    let d = without_sign(s);
    let n: int = if s.len() > 0 && s[0] == '-' {
        -digits_number(d)
    } else {
        digits_number(d) as int
    };
    if d.len() > 0 && (forall|i: int| 0 <= i < d.len() ==> is_digit_char(#[trigger] d[i]))
        && i64::MIN <= n <= i64::MAX {
        Some(n as i64)
    } else {
        None
    }
}

proof fn lemma_digits_grow(d: Seq<char>, n: int)
    requires
        0 <= n <= d.len(),
        forall|i: int| 0 <= i < d.len() ==> is_digit_char(#[trigger] d[i]),
    ensures
        digits_number(d.take(n)) <= digits_number(d),
    decreases d.len() - n,
{
    if n < d.len() {
        lemma_digits_grow(d, n + 1);
        assert(d.take(n + 1).drop_last() =~= d.take(n));
    } else {
        assert(d.take(n) =~= d);
    }
}

/// Reads an integer.
pub fn parse_integer(s: &str) -> (r: Option<i64>)
    ensures
        r == integer_value(s@),
{
    let cs = chars_of(s);
    let total: usize = cs.len();
    let signed = total > 0 && (cs[0] == '+' || cs[0] == '-');
    let negative = total > 0 && cs[0] == '-';
    let from: usize = if signed {
        1
    } else {
        0
    };
    let ghost d = without_sign(s@);
    assert(cs@.skip(0) =~= cs@);
    if total == from {
        return None;
    }
    let mut value: u64 = 0;
    let mut i: usize = from;
    assert(d.take(0) =~= Seq::<char>::empty());
    while i < total
        invariant
            cs@ == s@,
            total == cs@.len(),
            from <= 1,
            from <= i <= total,
            d == without_sign(s@),
            d == s@.skip(from as int),
            forall|k: int| 0 <= k < i - from ==> is_digit_char(#[trigger] d[k]),
            value == digits_number(d.take(i - from)),
            value <= 0x8000_0000_0000_0000,
        decreases total - i,
    {
        let c: char = cs[i];
        assert(d[i - from] == c);
        if !('0' <= c && c <= '9') {
            return None;
        }
        let x: u64 = (c as u64) - ('0' as u64);
        assert(d.take(i - from + 1).drop_last() =~= d.take(i - from));
        assert(digits_number(d.take(i - from + 1)) == value * 10 + x);
        if value > (0x8000_0000_0000_0000 - x) / 10 {
            proof {
                assert(value * 10 + x > 0x8000_0000_0000_0000);
                if forall|k: int| 0 <= k < d.len() ==> is_digit_char(#[trigger] d[k]) {
                    lemma_digits_grow(d, i - from + 1);
                }
            }
            return None;
        }
        value = value * 10 + x;
        i += 1;
    }
    assert(d.take(total - from) =~= d);
    if negative {
        if value == 0x8000_0000_0000_0000 {
            Some(i64::MIN)
        } else {
            Some(-(value as i64))
        }
    } else if value <= 0x7fff_ffff_ffff_ffff {
        Some(value as i64)
    } else {
        None
    }
}

/// What reading a real number gave: its bits, or nothing where the text is no
/// number.
#[derive(Debug, Clone, Copy, PartialEq, Eq, Structural)]
pub enum RealReading {
    Malformed,
    Bits(u64),
}

/// The value that a cell stands for. `reading` is what its text reads as where it
/// is a real number.
pub open spec fn value_of(cell: CellView, reading: RealReading) -> Result<SqlValueView, Seq<char>> {
    match cell {
        CellView::Null => Ok(SqlValueView::Null),
        CellView::Integer(s) => match integer_value(s) {
            Some(n) => Ok(SqlValueView::Integer(n)),
            None => Err("invalid integer"@),
        },
        CellView::Real(_) => match reading {
            RealReading::Malformed => Err("invalid real"@),
            RealReading::Bits(bits) => if values::is_non_finite(bits) {
                Err("real must be finite"@)
            } else {
                Ok(SqlValueView::Real(bits))
            },
        },
        CellView::Text(s) => Ok(SqlValueView::Text(s)),
        CellView::Blob(s) => match outside::plain_base64_decoded(s) {
            Some(bytes) => Ok(SqlValueView::Blob(bytes)),
            None => Err("invalid base64"@),
        },
        CellView::TextBytes(_) => Err("text_bytes parameters are unsupported"@),
    }
}

/// A result with the views of what it holds.
pub open spec fn value_result(r: Result<SqlValue, String>) -> Result<SqlValueView, Seq<char>> {
    match r {
        Ok(v) => Ok(v@),
        Err(e) => Err(e@),
    }
}

impl Cell {
    /// The value that the cell stands for. `reading` is what the text of a real
    /// number reads as; other cells do not look at it.
    pub fn to_value(&self, reading: RealReading) -> (r: Result<SqlValue, String>)
        ensures
            value_result(r) == value_of(self@, reading),
    {
        match self {
            Cell::Null => Ok(SqlValue::Null),
            Cell::Integer(s) => match parse_integer(s.as_str()) {
                Some(n) => Ok(SqlValue::Integer(n)),
                None => Err("invalid integer".to_owned()),
            },
            Cell::Real(_) => match reading {
                RealReading::Malformed => Err("invalid real".to_owned()),
                RealReading::Bits(bits) => if (bits / 0x10_0000_0000_0000) % 0x800 == 0x7ff {
                    Err("real must be finite".to_owned())
                } else {
                    Ok(SqlValue::Real(bits))
                },
            },
            Cell::Text(s) => Ok(SqlValue::Text(s.as_str().to_owned())),
            Cell::Blob(s) => match decode_plain_base64(s.as_str()) {
                Some(bytes) => Ok(SqlValue::Blob(bytes)),
                None => Err("invalid base64".to_owned()),
            },
            Cell::TextBytes(_) => Err("text_bytes parameters are unsupported".to_owned()),
        }
    }
}

/// A value as SQLite gives it out. A real number comes with its bits and the
/// shortest text that reads back as it.
#[derive(Debug)]
pub enum ColumnValue {
    Null,
    Integer(i64),
    Real { bits: u64, display: String },
    Text(Vec<u8>),
    Blob(Vec<u8>),
}

/// The text for a real number.
pub open spec fn real_text(bits: u64, display: Seq<char>) -> Seq<char> {
    if !values::is_non_finite(bits) {
        display
    } else if bits >= 0x8000_0000_0000_0000 {
        "-Infinity"@
    } else {
        "Infinity"@
    }
}

/// A cell shows a value.
pub open spec fn shows(cell: CellView, v: ColumnValue) -> bool {
    match v {
        ColumnValue::Null => cell is Null,
        ColumnValue::Integer(n) => cell == CellView::Integer(text::signed_decimal(n as int)),
        ColumnValue::Real { bits, display } => cell == CellView::Real(real_text(bits, display@)),
        ColumnValue::Text(bytes) => match cell {
            CellView::Text(s) => encode_utf8(s) == bytes@,
            CellView::TextBytes(s) => !valid_utf8(bytes@) && s == outside::plain_base64(bytes@),
            _ => false,
        },
        ColumnValue::Blob(bytes) => cell == CellView::Blob(outside::plain_base64(bytes@)),
    }
}

/// The cell for a value, handed in as a parameter, is the value again. A real
/// number is so where its text reads as it; what the text reads as is not decided
/// here. One that is not finite is refused. Left out is text that is not valid
/// UTF-8, which no parameter can be.
pub open spec fn reads_back(cell: CellView, v: ColumnValue, reading: RealReading) -> bool {
    match v {
        ColumnValue::Null => value_of(cell, reading) == Ok::<SqlValueView, Seq<char>>(
            SqlValueView::Null,
        ),
        ColumnValue::Integer(n) => value_of(cell, reading) == Ok::<SqlValueView, Seq<char>>(
            SqlValueView::Integer(n),
        ),
        ColumnValue::Real { bits, .. } => match reading {
            RealReading::Malformed => value_of(cell, reading) is Err,
            RealReading::Bits(read) => if values::is_non_finite(read) {
                value_of(cell, reading) is Err
            } else {
                read == bits ==> value_of(cell, reading) == Ok::<SqlValueView, Seq<char>>(
                    SqlValueView::Real(bits),
                )
            },
        },
        ColumnValue::Text(bytes) => valid_utf8(bytes@) ==> (value_of(cell, reading) matches Ok(
            SqlValueView::Text(s),
        ) && encode_utf8(s) == bytes@),
        ColumnValue::Blob(bytes) => value_of(cell, reading) == Ok::<SqlValueView, Seq<char>>(
            SqlValueView::Blob(bytes@),
        ),
    }
}

pub(crate) proof fn lemma_decimal_digits(n: nat)
    ensures
        text::decimal(n).len() > 0,
        forall|i: int| 0 <= i < text::decimal(n).len() ==> is_digit_char(#[trigger] text::decimal(n)[i]),
        digits_number(text::decimal(n)) == n,
    decreases n,
{
    reveal_with_fuel(digits_number, 2);
    if n >= 10 {
        lemma_decimal_digits(n / 10);
        assert(text::decimal(n).drop_last() =~= text::decimal(n / 10));
    } else {
        assert(text::decimal(n).drop_last() =~= Seq::empty());
    }
}

/// The decimal text of an integer reads as that integer.
pub proof fn integers_read_back(n: i64)
    ensures
        integer_value(text::signed_decimal(n as int)) == Some(n),
{
    let magnitude: nat = if n < 0 {
        (-n) as nat
    } else {
        n as nat
    };
    lemma_decimal_digits(magnitude);
    let s = text::signed_decimal(n as int);
    if n < 0 {
        assert(s.skip(1) =~= text::decimal(magnitude));
    } else {
        assert(is_digit_char(s[0]));
    }
}

/// The cell for a value that SQLite gave out.
pub fn cell(v: ColumnValue) -> (r: Cell)
    ensures
        shows(r@, v),
        forall|reading: RealReading| #[trigger] reads_back(r@, v, reading),
{
    match v {
        ColumnValue::Null => Cell::Null,
        ColumnValue::Integer(n) => {
            proof {
                integers_read_back(n);
            }
            Cell::Integer(signed_decimal_text(n))
        },
        ColumnValue::Real { bits, display } => if (bits / 0x10_0000_0000_0000) % 0x800 != 0x7ff {
            Cell::Real(display)
        } else if bits >= 0x8000_0000_0000_0000 {
            Cell::Real("-Infinity".to_owned())
        } else {
            Cell::Real("Infinity".to_owned())
        },
        ColumnValue::Text(bytes) => {
            let encoded = encode_plain_base64(bytes.as_slice());
            match text_of_utf8(bytes) {
                Some(s) => Cell::Text(s),
                None => Cell::TextBytes(encoded),
            }
        },
        ColumnValue::Blob(bytes) => Cell::Blob(encode_plain_base64(bytes.as_slice())),
    }
}

/// The first parameter that is refused, if any.
pub open spec fn is_first_refused(params: Seq<Cell>, reals: Seq<RealReading>, i: int) -> bool {
    &&& 0 <= i < params.len()
    &&& value_of(params[i]@, reals[i]) is Err
    &&& forall|j: int| 0 <= j < i ==> value_of(#[trigger] params[j]@, reals[j]) is Ok
}

/// Checks a statement's text and reads its parameters. `reals` holds for each
/// parameter what its text reads as, where it is a real number.
pub fn validate_with_limit(
    sql: &str,
    params: &Vec<Cell>,
    reals: &Vec<RealReading>,
    parameter_limit: usize,
) -> (r: Result<Vec<SqlValue>, String>)
    requires
        reals@.len() == params@.len(),
    ensures
        match r {
            Ok(found) => {
                &&& !sql@.contains('\0')
                &&& params@.len() <= parameter_limit
                &&& found@.len() == params@.len()
                &&& forall|i: int|
                    0 <= i < params@.len() ==> value_of((#[trigger] params@[i])@, reals@[i]) == Ok::<
                        SqlValueView,
                        Seq<char>,
                    >(found@[i]@)
            },
            Err(e) => if sql@.contains('\0') {
                e@ == "SQL contains NUL byte"@
            } else if params@.len() > parameter_limit {
                e@ == "too many parameters"@
            } else {
                exists|i: int| #[trigger]
                    is_first_refused(params@, reals@, i) && value_of(params@[i]@, reals@[i])
                        == Err::<SqlValueView, Seq<char>>(e@)
            },
        },
{
    if contains_char(sql, '\0') {
        return Err("SQL contains NUL byte".to_owned());
    }
    if params.len() > parameter_limit {
        return Err("too many parameters".to_owned());
    }
    let mut out: Vec<SqlValue> = Vec::new();
    let mut i: usize = 0;
    while i < params.len()
        invariant
            reals@.len() == params@.len(),
            params@.len() <= parameter_limit,
            !sql@.contains('\0'),
            i <= params@.len(),
            out@.len() == i,
            forall|k: int|
                0 <= k < i ==> value_of((#[trigger] params@[k])@, reals@[k]) == Ok::<
                    SqlValueView,
                    Seq<char>,
                >(out@[k]@),
        decreases params.len() - i,
    {
        match params[i].to_value(reals[i]) {
            Ok(v) => {
                out.push(v);
            },
            Err(e) => {
                assert(is_first_refused(params@, reals@, i as int));
                return Err(e);
            },
        }
        i += 1;
    }
    Ok(out)
}

} // verus!
