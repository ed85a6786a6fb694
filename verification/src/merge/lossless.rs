//! Why no two values share a literal, and no two rows a statement.
use crate::merge::baseline;
use crate::merge::roundtrip;
use crate::merge::schema::TableShape;
use crate::merge::snapshot;
use crate::merge::values;
use crate::merge::values::SourceValue;
use crate::text;
use vstd::prelude::*;
use vstd::utf8::*;

verus! {

/// Two values other than doubles are the same.
pub open spec fn same_value(a: SourceValue, b: SourceValue) -> bool {
    match (a, b) {
        (SourceValue::Null, SourceValue::Null) => true,
        (SourceValue::Integer(x), SourceValue::Integer(y)) => x == y,
        (SourceValue::Text(x), SourceValue::Text(y)) => x@ == y@,
        (SourceValue::Blob(x), SourceValue::Blob(y)) => x@ == y@,
        _ => false,
    }
}

proof fn lemma_doubled_injective(s: Seq<char>, t: Seq<char>, q: char)
    requires
        values::doubled(s, q) == values::doubled(t, q),
    ensures
        s == t,
    decreases s.len(),
{
    let ds = values::doubled(s, q);
    let dt = values::doubled(t, q);
    if s.len() == 0 {
        if t.len() > 0 {
            assert(dt.len() > 0);
        }
        assert(s =~= t);
    } else if t.len() == 0 {
        assert(ds.len() > 0);
    } else {
        let a = values::doubled(s.drop_last(), q);
        let b = values::doubled(t.drop_last(), q);
        if s.last() == q {
            assert(ds.last() == q);
            assert(t.last() == q);
            assert(a =~= ds.drop_last().drop_last());
            assert(b =~= dt.drop_last().drop_last());
        } else {
            assert(ds.last() == s.last());
            assert(t.last() == s.last());
            assert(a =~= ds.drop_last());
            assert(b =~= dt.drop_last());
        }
        lemma_doubled_injective(s.drop_last(), t.drop_last(), q);
        assert(s =~= s.drop_last().push(s.last()));
        assert(t =~= t.drop_last().push(t.last()));
    }
}

proof fn lemma_quoted_injective(s: Seq<char>, t: Seq<char>, q: char)
    requires
        values::quoted(s, q) == values::quoted(t, q),
    ensures
        s == t,
{
    let a = values::quoted(s, q);
    let b = values::quoted(t, q);
    assert(a.subrange(1, a.len() - 1) =~= values::doubled(s, q));
    assert(b.subrange(1, b.len() - 1) =~= values::doubled(t, q));
    lemma_doubled_injective(s, t, q);
}

proof fn lemma_hex_injective(a: Seq<u8>, b: Seq<u8>)
    requires
        values::hex_bytes(a) == values::hex_bytes(b),
    ensures
        a == b,
    decreases a.len(),
{
    let ha = values::hex_bytes(a);
    let hb = values::hex_bytes(b);
    if a.len() == 0 {
        if b.len() > 0 {
            assert(hb.len() > 0);
        }
        assert(a =~= b);
    } else if b.len() == 0 {
        assert(ha.len() > 0);
    } else {
        let x = a.last();
        let y = b.last();
        assert(values::hex_bytes(a.drop_last()) =~= ha.drop_last().drop_last());
        assert(values::hex_bytes(b.drop_last()) =~= hb.drop_last().drop_last());
        assert(ha.last() == values::upper_hex((x % 16) as u8));
        assert(hb.last() == values::upper_hex((y % 16) as u8));
        assert(ha[ha.len() - 2] == values::upper_hex((x / 16) as u8));
        assert(hb[hb.len() - 2] == values::upper_hex((y / 16) as u8));
        assert(x == y);
        lemma_hex_injective(a.drop_last(), b.drop_last());
        assert(a =~= a.drop_last().push(x));
        assert(b =~= b.drop_last().push(y));
    }
}

proof fn lemma_decimal_injective(a: nat, b: nat)
    requires
        text::decimal(a) == text::decimal(b),
    ensures
        a == b,
{
    roundtrip::lemma_decimal(a);
    roundtrip::lemma_decimal(b);
}

proof fn lemma_decimal_first(n: nat)
    ensures
        text::decimal(n).len() > 0,
        '0' <= text::decimal(n)[0] <= '9',
    decreases n,
{
    if n >= 10 {
        lemma_decimal_first(n / 10);
    }
}

proof fn lemma_signed_injective(a: int, b: int)
    requires
        text::signed_decimal(a) == text::signed_decimal(b),
    ensures
        a == b,
{
    lemma_decimal_first((if a < 0 { -a } else { a }) as nat);
    lemma_decimal_first((if b < 0 { -b } else { b }) as nat);
    let x = text::signed_decimal(a);
    if a < 0 {
        assert(x[0] == '-');
        assert(b < 0);
        assert(x.skip(1) =~= text::decimal((-a) as nat));
        assert(text::signed_decimal(b).skip(1) =~= text::decimal((-b) as nat));
        lemma_decimal_injective((-a) as nat, (-b) as nat);
    } else {
        if b < 0 {
            assert(text::signed_decimal(b)[0] == '-');
        }
        lemma_decimal_injective(a as nat, b as nat);
    }
}

/// The first character of a literal tells the kind of its value.
proof fn lemma_first_char(v: SourceValue)
    requires
        values::literal_of(v) is Ok,
        !(v is Real),
    ensures
        ({
            let s = values::literal_of(v)->Ok_0;
            &&& s.len() > 0
            &&& v is Null <==> s[0] == 'N'
            &&& v is Integer <==> s[0] == '-' || '0' <= s[0] <= '9'
            &&& v is Text <==> s[0] == '\''
            &&& v is Blob <==> s[0] == 'X'
        }),
{
    match v {
        SourceValue::Null => {
            reveal_strlit("NULL");
        },
        SourceValue::Integer(n) => {
            lemma_decimal_first((if n < 0 { -n as int } else { n as int }) as nat);
        },
        SourceValue::Blob(_) => {
            reveal_strlit("X'");
        },
        _ => {},
    }
}

/// Literals are lossless: two values other than doubles that have the same
/// literal are the same value.
pub proof fn literals_are_lossless(a: SourceValue, b: SourceValue)
    requires
        !(a is Real),
        !(b is Real),
        values::literal_of(a) is Ok,
        values::literal_of(a) == values::literal_of(b),
    ensures
        same_value(a, b),
{
    lemma_first_char(a);
    lemma_first_char(b);
    match (a, b) {
        (SourceValue::Integer(x), SourceValue::Integer(y)) => {
            lemma_signed_injective(x as int, y as int);
        },
        (SourceValue::Text(x), SourceValue::Text(y)) => {
            lemma_quoted_injective(decode_utf8(x@), decode_utf8(y@), '\'');
            decode_utf8_encode_utf8(x@);
            decode_utf8_encode_utf8(y@);
        },
        (SourceValue::Blob(x), SourceValue::Blob(y)) => {
            reveal_strlit("X'");
            reveal_strlit("'");
            let s = "X'"@ + values::hex_bytes(x@) + "'"@;
            let t = "X'"@ + values::hex_bytes(y@) + "'"@;
            assert(s.subrange(2, s.len() - 1) =~= values::hex_bytes(x@));
            assert(t.subrange(2, t.len() - 1) =~= values::hex_bytes(y@));
            lemma_hex_injective(x@, y@);
        },
        _ => {},
    }
}

/// Identifiers are lossless: two names with the same quoted form are the same.
pub proof fn identifiers_are_lossless(a: Seq<char>, b: Seq<char>)
    requires
        values::quoted(a, '"') == values::quoted(b, '"'),
    ensures
        a == b,
{
    lemma_quoted_injective(a, b, '"');
}

proof fn lemma_doubled_front(s: Seq<char>, q: char)
    requires
        s.len() > 0,
    ensures
        values::doubled(s, q) == if s[0] == q {
            seq![q, q]
        } else {
            seq![s[0]]
        } + values::doubled(s.skip(1), q),
    decreases s.len(),
{
    if s.len() == 1 {
        assert(s.skip(1) =~= Seq::<char>::empty());
        assert(s.drop_last() =~= Seq::<char>::empty());
        assert(values::doubled(s, q) =~= if s[0] == q {
            seq![q, q]
        } else {
            seq![s[0]]
        } + values::doubled(s.skip(1), q));
    } else {
        lemma_doubled_front(s.drop_last(), q);
        assert(s.drop_last().skip(1) =~= s.skip(1).drop_last());
        assert(values::doubled(s, q) =~= if s[0] == q {
            seq![q, q]
        } else {
            seq![s[0]]
        } + values::doubled(s.skip(1), q));
    }
}

/// A quoted text ends where it says, whatever follows but a quote.
proof fn lemma_doubled_prefix(s: Seq<char>, t: Seq<char>, q: char, a: Seq<char>, b: Seq<char>)
    requires
        values::doubled(s, q) + seq![q] + a == values::doubled(t, q) + seq![q] + b,
        a.len() > 0 ==> a[0] != q,
        b.len() > 0 ==> b[0] != q,
    ensures
        s == t,
        a == b,
    decreases s.len(),
{
    let left = values::doubled(s, q) + seq![q] + a;
    let right = values::doubled(t, q) + seq![q] + b;
    if s.len() > 0 {
        lemma_doubled_front(s, q);
    }
    if t.len() > 0 {
        lemma_doubled_front(t, q);
    }
    if s.len() == 0 && t.len() == 0 {
        assert(left.skip(1) =~= a);
        assert(right.skip(1) =~= b);
        assert(s =~= t);
    } else if s.len() == 0 {
        assert(left[0] == q);
        assert(right[0] == t[0]);
        assert(right[1] == q);
        assert(left.len() >= 2 && left[1] == a[0]);
    } else if t.len() == 0 {
        assert(right[0] == q);
        assert(left[0] == s[0]);
        assert(left[1] == q);
        assert(right.len() >= 2 && right[1] == b[0]);
    } else {
        assert(left[0] == s[0]);
        assert(right[0] == t[0]);
        let n: int = if s[0] == q {
            2
        } else {
            1
        };
        assert(left.skip(n) =~= values::doubled(s.skip(1), q) + seq![q] + a);
        assert(right.skip(n) =~= values::doubled(t.skip(1), q) + seq![q] + b);
        lemma_doubled_prefix(s.skip(1), t.skip(1), q, a, b);
        assert(s =~= seq![s[0]] + s.skip(1));
        assert(t =~= seq![t[0]] + t.skip(1));
    }
}

spec fn has_no_comma(s: Seq<char>) -> bool {
    forall|i: int| 0 <= i < s.len() ==> #[trigger] s[i] != ','
}

proof fn lemma_decimal_has_no_comma(n: nat)
    ensures
        has_no_comma(text::decimal(n)),
    decreases n,
{
    if n >= 10 {
        lemma_decimal_has_no_comma(n / 10);
    }
}

proof fn lemma_hex_has_no_comma(b: Seq<u8>)
    ensures
        has_no_comma(values::hex_bytes(b)),
    decreases b.len(),
{
    if b.len() > 0 {
        lemma_hex_has_no_comma(b.drop_last());
        let x = b.last();
        assert(values::upper_hex((x / 16) as u8) != ',');
        assert(values::upper_hex((x % 16) as u8) != ',');
    }
}

proof fn lemma_literal_has_no_comma(v: SourceValue)
    requires
        !(v is Real),
        !(v is Text),
        values::literal_of(v) is Ok,
    ensures
        has_no_comma(values::literal_of(v)->Ok_0),
{
    match v {
        SourceValue::Null => {
            reveal_strlit("NULL");
        },
        SourceValue::Integer(n) => {
            lemma_decimal_has_no_comma((if n < 0 { -n as int } else { n as int }) as nat);
        },
        SourceValue::Blob(bytes) => {
            reveal_strlit("X'");
            reveal_strlit("'");
            lemma_hex_has_no_comma(bytes@);
        },
        _ => {},
    }
}

/// Nothing follows, or a comma.
spec fn is_tail(s: Seq<char>) -> bool {
    s.len() > 0 ==> s[0] == ','
}

/// A literal ends where the comma behind it stands.
proof fn lemma_literal_prefix(v: SourceValue, w: SourceValue, a: Seq<char>, b: Seq<char>)
    requires
        !(v is Real),
        !(w is Real),
        values::literal_of(v) is Ok,
        values::literal_of(w) is Ok,
        is_tail(a),
        is_tail(b),
        values::literal_of(v)->Ok_0 + a == values::literal_of(w)->Ok_0 + b,
    ensures
        values::literal_of(v) == values::literal_of(w),
        a == b,
{
    let x = values::literal_of(v)->Ok_0;
    let y = values::literal_of(w)->Ok_0;
    lemma_first_char(v);
    lemma_first_char(w);
    assert((x + a)[0] == x[0]);
    assert((y + b)[0] == y[0]);
    if v is Text {
        let s = decode_utf8(v->Text_0@);
        let t = decode_utf8(w->Text_0@);
        assert((x + a).skip(1) =~= values::doubled(s, '\'') + seq!['\''] + a);
        assert((y + b).skip(1) =~= values::doubled(t, '\'') + seq!['\''] + b);
        lemma_doubled_prefix(s, t, '\'', a, b);
    } else {
        lemma_literal_has_no_comma(v);
        lemma_literal_has_no_comma(w);
        if x.len() < y.len() {
            assert((x + a)[x.len() as int] == a[0]);
            assert((y + b)[x.len() as int] == y[x.len() as int]);
        } else if y.len() < x.len() {
            assert((y + b)[y.len() as int] == b[0]);
            assert((x + a)[y.len() as int] == x[y.len() as int]);
        }
        assert((x + a).take(x.len() as int) =~= x);
        assert((y + b).take(y.len() as int) =~= y);
        assert((x + a).skip(x.len() as int) =~= a);
        assert((y + b).skip(y.len() as int) =~= b);
    }
}

proof fn lemma_join_front(parts: Seq<Seq<char>>, sep: Seq<char>)
    requires
        parts.len() > 1,
    ensures
        text::join(parts, sep) == parts[0] + sep + text::join(parts.skip(1), sep),
    decreases parts.len(),
{
    let rest = parts.skip(1);
    if parts.len() == 2 {
        assert(text::join(parts.drop_last(), sep) == parts[0]) by {
            reveal_with_fuel(text::join, 2);
        }
        assert(text::join(rest, sep) == parts[1]) by {
            reveal_with_fuel(text::join, 2);
        }
    } else {
        lemma_join_front(parts.drop_last(), sep);
        assert(parts.drop_last().skip(1) =~= rest.drop_last());
        assert(text::join(parts, sep) =~= parts[0] + sep + text::join(rest, sep));
    }
}

/// The literals are those of the values.
spec fn are_literals(literals: Seq<Seq<char>>, row: Seq<SourceValue>) -> bool {
    &&& literals.len() == row.len()
    &&& forall|i: int|
        0 <= i < row.len() ==> values::literal_of(#[trigger] row[i]) == Ok::<
            Seq<char>,
            Seq<char>,
        >(literals[i])
}

/// No value of the row is a double.
pub open spec fn has_no_double(row: Seq<SourceValue>) -> bool {
    forall|i: int| 0 <= i < row.len() ==> !(#[trigger] row[i] is Real)
}

proof fn lemma_row_literals(row: Seq<SourceValue>)
    requires
        snapshot::row_literals(row) is Ok,
    ensures
        are_literals(snapshot::row_literals(row)->Ok_0, row),
    decreases row.len(),
{
    if row.len() > 0 {
        lemma_row_literals(row.drop_last());
        let before = snapshot::row_literals(row.drop_last())->Ok_0;
        let all = snapshot::row_literals(row)->Ok_0;
        assert forall|i: int| 0 <= i < row.len() implies values::literal_of(#[trigger] row[i])
            == Ok::<Seq<char>, Seq<char>>(all[i]) by {
            if i < row.len() - 1 {
                assert(row.drop_last()[i] == row[i]);
            }
        }
    }
}

proof fn lemma_join_injective(
    x: Seq<Seq<char>>,
    y: Seq<Seq<char>>,
    v: Seq<SourceValue>,
    w: Seq<SourceValue>,
)
    requires
        are_literals(x, v),
        are_literals(y, w),
        has_no_double(v),
        has_no_double(w),
        v.len() == w.len(),
        text::join(x, ","@) == text::join(y, ","@),
    ensures
        x == y,
    decreases x.len(),
{
    reveal_strlit(",");
    if x.len() == 0 {
        assert(x =~= y);
    } else {
        assert(values::literal_of(v[0]) is Ok && values::literal_of(w[0]) is Ok);
        assert(!(v[0] is Real) && !(w[0] is Real));
        if x.len() == 1 {
            assert(x =~= y);
        } else {
            lemma_join_front(x, ","@);
            lemma_join_front(y, ","@);
            let a = ","@ + text::join(x.skip(1), ","@);
            let b = ","@ + text::join(y.skip(1), ","@);
            assert(text::join(x, ","@) =~= x[0] + a);
            assert(text::join(y, ","@) =~= y[0] + b);
            assert(a[0] == ',' && b[0] == ',');
            lemma_literal_prefix(v[0], w[0], a, b);
            assert(a.skip(1) =~= text::join(x.skip(1), ","@));
            assert(b.skip(1) =~= text::join(y.skip(1), ","@));
            assert(are_literals(x.skip(1), v.skip(1))) by {
                assert forall|i: int| 0 <= i < v.skip(1).len() implies values::literal_of(
                    #[trigger] v.skip(1)[i],
                ) == Ok::<Seq<char>, Seq<char>>(x.skip(1)[i]) by {
                    assert(v.skip(1)[i] == v[i + 1]);
                }
            }
            assert(are_literals(y.skip(1), w.skip(1))) by {
                assert forall|i: int| 0 <= i < w.skip(1).len() implies values::literal_of(
                    #[trigger] w.skip(1)[i],
                ) == Ok::<Seq<char>, Seq<char>>(y.skip(1)[i]) by {
                    assert(w.skip(1)[i] == w[i + 1]);
                }
            }
            lemma_join_injective(x.skip(1), y.skip(1), v.skip(1), w.skip(1));
            assert(x =~= seq![x[0]] + x.skip(1));
            assert(y =~= seq![y[0]] + y.skip(1));
        }
    }
}

/// Rows are lossless: two rows of a table without doubles that are written as the
/// same statement hold the same values, column by column.
pub proof fn rows_are_lossless(
    name: Seq<char>,
    shape: TableShape,
    v: Seq<SourceValue>,
    w: Seq<SourceValue>,
    column: int,
)
    requires
        v.len() == w.len(),
        0 <= column < v.len(),
        has_no_double(v),
        has_no_double(w),
        snapshot::row_literals(v) is Ok,
        snapshot::row_literals(w) is Ok,
        snapshot::insert_text(name, shape, snapshot::row_literals(v)->Ok_0)
            == snapshot::insert_text(name, shape, snapshot::row_literals(w)->Ok_0),
    ensures
        same_value(v[column], w[column]),
{
    let x = snapshot::row_literals(v)->Ok_0;
    let y = snapshot::row_literals(w)->Ok_0;
    let head = "INSERT INTO "@ + values::quoted(name, '"') + " ("@ + text::join(
        snapshot::row_columns(shape),
        ","@,
    ) + ") VALUES ("@;
    let s = snapshot::insert_text(name, shape, x);
    let t = snapshot::insert_text(name, shape, y);
    let n = head.len() as int;
    let end = ");\n"@.len();
    assert(s =~= head + text::join(x, ","@) + ");\n"@);
    assert(t =~= head + text::join(y, ","@) + ");\n"@);
    assert(s.subrange(n, s.len() - end) =~= text::join(x, ","@));
    assert(t.subrange(n, t.len() - end) =~= text::join(y, ","@));
    lemma_row_literals(v);
    lemma_row_literals(w);
    lemma_join_injective(x, y, v, w);
    assert(values::literal_of(v[column]) == Ok::<Seq<char>, Seq<char>>(x[column]));
    assert(values::literal_of(w[column]) == Ok::<Seq<char>, Seq<char>>(y[column]));
    assert(!(v[column] is Real) && !(w[column] is Real));
    literals_are_lossless(v[column], w[column]);
}

} // verus!
