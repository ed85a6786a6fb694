//! Why extracted rows cannot break out of their statement.
//!
//! Whatever a row holds, its text adds exactly one statement to what the
//! importer splits.
use crate::merge::roundtrip;
use crate::merge::schema::TableShape;
use crate::merge::snapshot;
use crate::merge::statements;
use crate::merge::statements::{Lex, LINE_FEED, SEMICOLON};
use crate::merge::values;
use crate::merge::values::SourceValue;
use crate::outside;
use crate::text;
use vstd::prelude::*;
use vstd::utf8::*;

verus! {

/// The state behind `b` for a lexer that enters it in state `st`, when `next`
/// follows.
pub open spec fn lex_over(st: Lex, b: Seq<u8>, next: Option<u8>) -> Lex
    decreases b.len(),
{
    if b.len() == 0 {
        st
    } else {
        statements::lex_next(lex_over(st, b.drop_last(), Some(b.last())), b.last(), next)
    }
}

/// No byte of `b` ends a statement for a lexer that enters it in state `st`.
pub open spec fn ends_nothing(st: Lex, b: Seq<u8>) -> bool
    decreases b.len(),
{
    b.len() == 0 || (ends_nothing(st, b.drop_last()) && !(lex_over(
        st,
        b.drop_last(),
        Some(b.last()),
    ) is Code && b.last() == SEMICOLON))
}

/// `b` is code that ends nothing and leaves the lexer in code when `next`
/// follows.
pub open spec fn is_closed(b: Seq<u8>, next: Option<u8>) -> bool {
    lex_over(Lex::Code, b, next) is Code && ends_nothing(Lex::Code, b)
}

/// `b` is closed before anything but a quote.
pub open spec fn is_inert(b: Seq<u8>) -> bool {
    forall|next: Option<u8>|
        !(next matches Some(c) && statements::is_quote(c)) ==> #[trigger] is_closed(b, next)
}

/// The byte that follows, where `b` does and `next` follows it.
pub open spec fn first_or(b: Seq<u8>, next: Option<u8>) -> Option<u8> {
    if b.len() > 0 {
        Some(b[0])
    } else {
        next
    }
}

proof fn lemma_lex_concat(st: Lex, a: Seq<u8>, b: Seq<u8>, next: Option<u8>)
    ensures
        lex_over(st, a + b, next) == lex_over(lex_over(st, a, first_or(b, next)), b, next),
    decreases b.len(),
{
    if b.len() == 0 {
        assert(a + b =~= a);
    } else {
        assert((a + b).drop_last() =~= a + b.drop_last());
        lemma_lex_concat(st, a, b.drop_last(), Some(b.last()));
        assert(first_or(b.drop_last(), Some(b.last())) == first_or(b, next));
    }
}

proof fn lemma_ends_concat(st: Lex, a: Seq<u8>, b: Seq<u8>, next: Option<u8>)
    requires
        ends_nothing(st, a),
        ends_nothing(lex_over(st, a, first_or(b, next)), b),
    ensures
        ends_nothing(st, a + b),
    decreases b.len(),
{
    if b.len() == 0 {
        assert(a + b =~= a);
    } else {
        assert((a + b).drop_last() =~= a + b.drop_last());
        assert(first_or(b.drop_last(), Some(b.last())) == first_or(b, next));
        lemma_ends_concat(st, a, b.drop_last(), Some(b.last()));
        lemma_lex_concat(st, a, b.drop_last(), Some(b.last()));
    }
}

proof fn lemma_closed_concat(a: Seq<u8>, b: Seq<u8>, next: Option<u8>)
    requires
        is_closed(a, first_or(b, next)),
        is_closed(b, next),
    ensures
        is_closed(a + b, next),
{
    lemma_lex_concat(Lex::Code, a, b, next);
    lemma_ends_concat(Lex::Code, a, b, next);
}

/// A lexer that reads the whole text is in the state that reading the piece
/// alone gives.
proof fn lemma_lex_in_text(w: Seq<u8>, from: int, i: int, n: int)
    requires
        0 <= from <= i,
        0 <= n,
        i + n <= w.len(),
    ensures
        statements::lex_state(w, from, i + n) == lex_over(
            statements::lex_state(w, from, i),
            w.subrange(i, i + n),
            statements::byte_at(w, i + n),
        ),
    decreases n,
{
    if n > 0 {
        lemma_lex_in_text(w, from, i, n - 1);
        assert(w.subrange(i, i + n).drop_last() =~= w.subrange(i, i + n - 1));
    }
}

/// A piece that ends nothing adds no statement.
proof fn lemma_ranges_in_text(w: Seq<u8>, from: int, i: int, n: int)
    requires
        0 <= from <= i,
        0 <= n,
        i + n <= w.len(),
        ends_nothing(statements::lex_state(w, from, i), w.subrange(i, i + n)),
    ensures
        statements::statement_ranges(w, from, i + n) == statements::statement_ranges(w, from, i),
    decreases n,
{
    if n > 0 {
        let piece = w.subrange(i, i + n);
        assert(piece.drop_last() =~= w.subrange(i, i + n - 1));
        lemma_ranges_in_text(w, from, i, n - 1);
        lemma_lex_in_text(w, from, i, n - 1);
        assert(piece.last() == w[i + n - 1]);
        assert(statements::byte_at(w, i + n - 1) == Some(piece.last()));
    }
}

/// Bytes that mean nothing to the lexer in code: no quote, no bracket, no
/// semicolon, no slash, and no dash but before something else.
pub open spec fn is_calm(b: Seq<u8>) -> bool {
    forall|i: int|
        0 <= i < b.len() ==> {
            &&& !statements::is_quote(#[trigger] b[i])
            &&& b[i] != statements::OPEN_BRACKET
            &&& b[i] != SEMICOLON
            &&& b[i] != statements::SLASH
            &&& b[i] == statements::DASH ==> i + 1 < b.len() && b[i + 1] != statements::DASH
        }
}

proof fn lemma_calm_prefix(b: Seq<u8>, next: Option<u8>)
    requires
        forall|i: int|
            0 <= i < b.len() ==> {
                &&& !statements::is_quote(#[trigger] b[i])
                &&& b[i] != statements::OPEN_BRACKET
                &&& b[i] != SEMICOLON
                &&& b[i] != statements::SLASH
                &&& b[i] == statements::DASH ==> first_or(b.skip(i + 1), next) != Some(
                    statements::DASH,
                )
            },
    ensures
        is_closed(b, next),
    decreases b.len(),
{
    if b.len() > 0 {
        let init = b.drop_last();
        assert forall|i: int| 0 <= i < init.len() implies {
            &&& !statements::is_quote(#[trigger] init[i])
            &&& init[i] != statements::OPEN_BRACKET
            &&& init[i] != SEMICOLON
            &&& init[i] != statements::SLASH
            &&& init[i] == statements::DASH ==> first_or(init.skip(i + 1), Some(b.last())) != Some(
                statements::DASH,
            )
        } by {
            assert(init[i] == b[i]);
            assert(first_or(init.skip(i + 1), Some(b.last())) == first_or(b.skip(i + 1), next));
        }
        lemma_calm_prefix(init, Some(b.last()));
        assert(b[b.len() - 1] == b.last());
        assert(first_or(b.skip(b.len() as int), next) == next);
    }
}

proof fn lemma_calm_is_inert(b: Seq<u8>)
    requires
        is_calm(b),
    ensures
        is_inert(b),
{
    assert forall|next: Option<u8>|
        !(next matches Some(c) && statements::is_quote(c)) implies #[trigger] is_closed(b, next) by {
        lemma_calm_is_closed(b, next);
    }
}

proof fn lemma_calm_is_closed(b: Seq<u8>, next: Option<u8>)
    requires
        is_calm(b),
    ensures
        is_closed(b, next),
{
    assert forall|i: int| 0 <= i < b.len() implies {
        &&& !statements::is_quote(#[trigger] b[i])
        &&& b[i] != statements::OPEN_BRACKET
        &&& b[i] != SEMICOLON
        &&& b[i] != statements::SLASH
        &&& b[i] == statements::DASH ==> first_or(b.skip(i + 1), next) != Some(statements::DASH)
    } by {
        if i + 1 < b.len() {
            assert(b.skip(i + 1)[0] == b[i + 1]);
        }
    }
    lemma_calm_prefix(b, next);
}

/// No byte of the UTF-8 form of a character is an ASCII byte other than the
/// character itself.
proof fn lemma_char_bytes(c: char, q: u8)
    requires
        q < 0x80,
        c != q as char,
    ensures
        !encode_utf8(seq![c]).contains(q),
{
    let u = c as u32;
    char_is_scalar(c);
    let e = encode_scalar(u);
    assert(seq![c].drop_first() =~= Seq::<char>::empty());
    assert(encode_utf8(Seq::<char>::empty()) =~= Seq::<u8>::empty());
    assert(encode_utf8(seq![c]) =~= e);
    assert(0x80u8 <= (0x80u8 | ((u & 0x3F) as u8))) by (bit_vector);
    assert(0x80u8 <= (0x80u8 | (((u >> 6) & 0x3F) as u8))) by (bit_vector);
    assert(0x80u8 <= (0x80u8 | (((u >> 12) & 0x3F) as u8))) by (bit_vector);
    assert(0x80u8 <= (0xC0u8 | (((u >> 6) & 0x1F) as u8))) by (bit_vector);
    assert(0x80u8 <= (0xE0u8 | (((u >> 12) & 0x0F) as u8))) by (bit_vector);
    assert(0x80u8 <= (0xF0u8 | (((u >> 18) & 0x7) as u8))) by (bit_vector);
    if has_width_1_encoding(u) {
        assert((u & 0x7F) as u8 == u) by (bit_vector)
            requires
                u <= 0x7f,
        ;
        assert(e[0] == u);
    }
}

proof fn lemma_encode_push(s: Seq<char>, c: char)
    ensures
        encode_utf8(s.push(c)) == encode_utf8(s) + encode_utf8(seq![c]),
{
    roundtrip::lemma_encode_concat(s, seq![c]);
    assert(s + seq![c] =~= s.push(c));
}

/// Bytes other than the quote stay inside it.
proof fn lemma_inside_quote(b: Seq<u8>, q: u8, next: Option<u8>)
    requires
        !b.contains(q),
    ensures
        lex_over(Lex::Quote(q), b, next) == Lex::Quote(q),
        ends_nothing(Lex::Quote(q), b),
    decreases b.len(),
{
    if b.len() > 0 {
        assert(b.contains(b.last()));
        let init = b.drop_last();
        assert(!init.contains(q)) by {
            if init.contains(q) {
                let i = choose|i: int| 0 <= i < init.len() && init[i] == q;
                assert(b[i] == q);
            }
        }
        lemma_inside_quote(init, q, Some(b.last()));
    }
}

/// Text with its quotes doubled stays inside the quote.
proof fn lemma_doubled_stays(s: Seq<char>, q: u8, next: Option<u8>)
    requires
        q < 0x80,
    ensures
        lex_over(Lex::Quote(q), encode_utf8(values::doubled(s, q as char)), next) == Lex::Quote(q),
        ends_nothing(Lex::Quote(q), encode_utf8(values::doubled(s, q as char))),
    decreases s.len(),
{
    let qc = q as char;
    if s.len() > 0 {
        let init = s.drop_last();
        let before = values::doubled(init, qc);
        let eb = encode_utf8(before);
        if s.last() == qc {
            lemma_encode_push(before, qc);
            lemma_encode_push(before.push(qc), qc);
            lemma_ascii_char(q);
            let pair = seq![q, q];
            assert(encode_utf8(values::doubled(s, qc)) =~= eb + pair);
            lemma_doubled_stays(init, q, Some(q));
            lemma_lex_concat(Lex::Quote(q), eb, pair, next);
            assert(first_or(pair, next) == Some(q));
            assert(pair.drop_last() =~= seq![q]);
            assert(seq![q].drop_last() =~= Seq::<u8>::empty());
            assert(pair.last() == q && seq![q].last() == q);
            assert(lex_over(Lex::Quote(q), Seq::<u8>::empty(), Some(q)) == Lex::Quote(q));
            assert(lex_over(Lex::Quote(q), seq![q], Some(q)) == Lex::QuoteEscape(q));
            assert(lex_over(Lex::Quote(q), pair, next) == Lex::Quote(q));
            assert(ends_nothing(Lex::Quote(q), Seq::<u8>::empty()));
            assert(ends_nothing(Lex::Quote(q), seq![q]));
            assert(ends_nothing(Lex::Quote(q), pair));
            lemma_ends_concat(Lex::Quote(q), eb, pair, next);
        } else {
            let one = encode_utf8(seq![s.last()]);
            lemma_encode_push(before, s.last());
            lemma_char_bytes(s.last(), q);
            lemma_doubled_stays(init, q, first_or(one, next));
            lemma_inside_quote(one, q, next);
            lemma_lex_concat(Lex::Quote(q), eb, one, next);
            lemma_ends_concat(Lex::Quote(q), eb, one, next);
        }
    }
}

proof fn lemma_ascii_char(q: u8)
    requires
        q < 0x80,
    ensures
        encode_utf8(seq![q as char]) == seq![q],
{
    roundtrip::lemma_ascii_codes(seq![q as char]);
    assert(roundtrip::codes(seq![q as char]) =~= seq![q]);
}

/// A quoted text is closed before anything but its own quote.
proof fn lemma_quoted_is_closed(s: Seq<char>, q: u8, next: Option<u8>)
    requires
        statements::is_quote(q),
        next != Some(q),
    ensures
        is_closed(encode_utf8(values::quoted(s, q as char)), next),
{
    let qc = q as char;
    let inner = encode_utf8(values::doubled(s, qc));
    roundtrip::lemma_encode_concat(seq![qc] + values::doubled(s, qc), seq![qc]);
    roundtrip::lemma_encode_concat(seq![qc], values::doubled(s, qc));
    lemma_ascii_char(q);
    let open = seq![q];
    let all = encode_utf8(values::quoted(s, qc));
    assert(all == open + inner + open);
    let n1 = first_or(inner, Some(q));
    assert(open.drop_last() =~= Seq::<u8>::empty());
    assert(open.last() == q);
    assert(lex_over(Lex::Code, Seq::<u8>::empty(), Some(q)) == Lex::Code);
    assert(lex_over(Lex::Code, open, n1) == Lex::Quote(q));
    assert(ends_nothing(Lex::Code, Seq::<u8>::empty()));
    assert(ends_nothing(Lex::Code, open));
    lemma_doubled_stays(s, q, Some(q));
    lemma_lex_concat(Lex::Code, open, inner, Some(q));
    lemma_ends_concat(Lex::Code, open, inner, Some(q));
    let body = open + inner;
    assert(first_or(open, next) == Some(q));
    assert(lex_over(Lex::Quote(q), Seq::<u8>::empty(), Some(q)) == Lex::Quote(q));
    assert(lex_over(Lex::Quote(q), open, next) == Lex::Code);
    assert(ends_nothing(Lex::Quote(q), Seq::<u8>::empty()));
    assert(ends_nothing(Lex::Quote(q), open));
    lemma_lex_concat(Lex::Code, body, open, next);
    lemma_ends_concat(Lex::Code, body, open, next);
}

/// The literal of a double is calm. This holds of every text that a number is
/// displayed with.
pub open spec fn real_is_calm(value: SourceValue) -> bool {
    value matches SourceValue::Real { bits, display } ==> is_calm(
        encode_utf8(values::real_literal(bits, display@)),
    )
}

proof fn lemma_doubled_plain(s: Seq<char>, q: char)
    requires
        !s.contains(q),
    ensures
        values::doubled(s, q) == s,
    decreases s.len(),
{
    if s.len() > 0 {
        let init = s.drop_last();
        assert(s.contains(s.last()));
        assert(!init.contains(q)) by {
            if init.contains(q) {
                let i = choose|i: int| 0 <= i < init.len() && init[i] == q;
                assert(s[i] == q);
            }
        }
        lemma_doubled_plain(init, q);
        assert(init.push(s.last()) =~= s);
    }
}

proof fn lemma_hex_is_plain(b: Seq<u8>)
    ensures
        !values::hex_bytes(b).contains('\''),
    decreases b.len(),
{
    if b.len() > 0 {
        let before = values::hex_bytes(b.drop_last());
        let x = values::upper_hex((b.last() / 16) as u8);
        let y = values::upper_hex((b.last() % 16) as u8);
        lemma_hex_is_plain(b.drop_last());
        let all = before.push(x).push(y);
        if all.contains('\'') {
            let i = choose|i: int| 0 <= i < all.len() && all[i] == '\'';
            if i < before.len() {
                assert(before[i] == all[i]);
            }
        }
    }
}

proof fn lemma_digits_calm(n: nat)
    ensures
        is_calm(encode_utf8(text::decimal(n))),
        encode_utf8(text::decimal(n)).len() > 0,
        encode_utf8(text::decimal(n))[0] != statements::DASH,
{
    roundtrip::lemma_decimal(n);
    roundtrip::lemma_plain(text::decimal(n));
    let b = encode_utf8(text::decimal(n));
    assert forall|i: int| 0 <= i < b.len() implies {
        &&& !statements::is_quote(#[trigger] b[i])
        &&& b[i] != statements::OPEN_BRACKET
        &&& b[i] != SEMICOLON
        &&& b[i] != statements::SLASH
        &&& b[i] == statements::DASH ==> i + 1 < b.len() && b[i + 1] != statements::DASH
    } by {
        assert(crate::merge::baseline::is_digit(b[i]));
    }
    assert(crate::merge::baseline::is_digit(b[0]));
}

proof fn lemma_integer_calm(n: int)
    ensures
        is_calm(encode_utf8(text::signed_decimal(n))),
{
    if n < 0 {
        let d = text::decimal((-n) as nat);
        roundtrip::lemma_encode_concat(seq!['-'], d);
        lemma_ascii_char(statements::DASH);
        lemma_digits_calm((-n) as nat);
        let b = encode_utf8(text::signed_decimal(n));
        let e = encode_utf8(d);
        assert(b == seq![statements::DASH] + e);
        assert forall|i: int| 0 <= i < b.len() implies {
            &&& !statements::is_quote(#[trigger] b[i])
            &&& b[i] != statements::OPEN_BRACKET
            &&& b[i] != SEMICOLON
            &&& b[i] != statements::SLASH
            &&& b[i] == statements::DASH ==> i + 1 < b.len() && b[i + 1] != statements::DASH
        } by {
            if i > 0 {
                assert(b[i] == e[i - 1]);
                if i + 1 < b.len() {
                    assert(b[i + 1] == e[i]);
                }
            } else {
                assert(b[1] == e[0]);
            }
        }
    } else {
        lemma_digits_calm(n as nat);
    }
}

/// A literal is inert.
proof fn lemma_literal_is_inert(value: SourceValue)
    requires
        values::literal_of(value) is Ok,
        real_is_calm(value),
    ensures
        is_inert(encode_utf8(values::literal_of(value)->Ok_0)),
{
    let e = encode_utf8(values::literal_of(value)->Ok_0);
    match value {
        SourceValue::Null => {
            reveal_strlit("NULL");
            roundtrip::lemma_ascii_codes("NULL"@);
            lemma_calm_is_inert(e);
        },
        SourceValue::Integer(n) => {
            lemma_integer_calm(n as int);
            lemma_calm_is_inert(e);
        },
        SourceValue::Real { .. } => {
            lemma_calm_is_inert(e);
        },
        SourceValue::Text(bytes) => {
            assert forall|next: Option<u8>|
                !(next matches Some(c) && statements::is_quote(c)) implies #[trigger] is_closed(
                e,
                next,
            ) by {
                lemma_quoted_is_closed(decode_utf8(bytes@), statements::SINGLE_QUOTE, next);
            }
        },
        SourceValue::Blob(bytes) => {
            let hex = values::hex_bytes(bytes@);
            reveal_strlit("X'");
            reveal_strlit("'");
            lemma_hex_is_plain(bytes@);
            lemma_doubled_plain(hex, '\'');
            assert("X'"@ + hex + "'"@ =~= seq!['X'] + values::quoted(hex, '\''));
            roundtrip::lemma_encode_concat(seq!['X'], values::quoted(hex, '\''));
            lemma_ascii_char(0x58);
            let x = seq![0x58u8];
            let q = encode_utf8(values::quoted(hex, '\''));
            assert(e == x + q);
            assert forall|next: Option<u8>|
                !(next matches Some(c) && statements::is_quote(c)) implies #[trigger] is_closed(
                e,
                next,
            ) by {
                lemma_quoted_is_closed(hex, statements::SINGLE_QUOTE, next);
                lemma_calm_is_closed(x, first_or(q, next));
                lemma_closed_concat(x, q, next);
            }
        },
    }
}

/// Every part is inert.
pub open spec fn all_inert(parts: Seq<Seq<char>>) -> bool {
    forall|i: int| 0 <= i < parts.len() ==> is_inert(encode_utf8(#[trigger] parts[i]))
}

/// A list of inert parts is inert.
proof fn lemma_join_is_inert(parts: Seq<Seq<char>>)
    requires
        all_inert(parts),
    ensures
        is_inert(encode_utf8(text::join(parts, ","@))),
    decreases parts.len(),
{
    let e = encode_utf8(text::join(parts, ","@));
    if parts.len() == 0 {
        assert(e =~= Seq::<u8>::empty());
        lemma_calm_is_inert(e);
    } else if parts.len() == 1 {
        assert(is_inert(encode_utf8(parts[0])));
    } else {
        let init = parts.drop_last();
        assert forall|i: int| 0 <= i < init.len() implies is_inert(
            encode_utf8(#[trigger] init[i]),
        ) by {
            assert(init[i] == parts[i]);
        }
        lemma_join_is_inert(init);
        let a = text::join(init, ","@);
        roundtrip::lemma_encode_concat(a, ","@);
        roundtrip::lemma_encode_concat(a + ","@, parts.last());
        reveal_strlit(",");
        roundtrip::lemma_ascii_codes(","@);
        let comma = seq![0x2cu8];
        assert(encode_utf8(","@) =~= comma);
        let ea = encode_utf8(a);
        let el = encode_utf8(parts.last());
        assert(parts[parts.len() - 1] == parts.last());
        assert(is_inert(el));
        assert forall|next: Option<u8>|
            !(next matches Some(c) && statements::is_quote(c)) implies #[trigger] is_closed(
            e,
            next,
        ) by {
            lemma_calm_is_closed(comma, first_or(el, next));
            assert(is_closed(ea, Some(0x2cu8)));
            lemma_closed_concat(ea, comma, first_or(el, next));
            assert(is_closed(el, next));
            lemma_closed_concat(ea + comma, el, next);
        }
    }
}

proof fn lemma_column_is_inert(c: Seq<char>)
    ensures
        is_inert(encode_utf8(snapshot::column_text(c))),
{
    let shown = if values::has_nul(c) {
        Seq::<char>::empty()
    } else {
        c
    };
    reveal_strlit("\"\"");
    assert(snapshot::column_text(c) =~= values::quoted(shown, '"')) by {
        if values::has_nul(c) {
            assert(values::doubled(shown, '"') =~= Seq::<char>::empty());
        }
    }
    assert forall|next: Option<u8>|
        !(next matches Some(c) && statements::is_quote(c)) implies #[trigger] is_closed(
        encode_utf8(snapshot::column_text(c)),
        next,
    ) by {
        lemma_quoted_is_closed(shown, statements::DOUBLE_QUOTE, next);
    }
}

proof fn lemma_columns_are_inert(shape: TableShape)
    ensures
        all_inert(snapshot::row_columns(shape)),
{
    let columns = snapshot::row_columns(shape);
    assert forall|i: int| 0 <= i < columns.len() implies is_inert(
        encode_utf8(#[trigger] columns[i]),
    ) by {
        if shape.0 || shape.2 {
            lemma_column_is_inert(shape.1[i]);
        } else if i > 0 {
            lemma_column_is_inert(shape.1[i - 1]);
        } else {
            reveal_strlit("rowid");
            roundtrip::lemma_ascii_codes("rowid"@);
            lemma_calm_is_inert(encode_utf8("rowid"@));
        }
    }
}

proof fn lemma_literals_are_inert(row: Seq<SourceValue>)
    requires
        snapshot::row_literals(row) is Ok,
        forall|i: int| 0 <= i < row.len() ==> real_is_calm(#[trigger] row[i]),
    ensures
        all_inert(snapshot::row_literals(row)->Ok_0),
    decreases row.len(),
{
    if row.len() > 0 {
        let init = row.drop_last();
        assert forall|i: int| 0 <= i < init.len() implies real_is_calm(#[trigger] init[i]) by {
            assert(init[i] == row[i]);
        }
        assert(real_is_calm(row[row.len() - 1]));
        lemma_literals_are_inert(init);
        lemma_literal_is_inert(row.last());
        let before = snapshot::row_literals(init)->Ok_0;
        let all = snapshot::row_literals(row)->Ok_0;
        assert forall|i: int| 0 <= i < all.len() implies is_inert(encode_utf8(#[trigger] all[i])) by {
            if i < before.len() {
                assert(all[i] == before[i]);
            }
        }
    }
}

/// A line comment is closed.
proof fn lemma_comment_over(b: Seq<u8>, next: Option<u8>)
    requires
        b.len() >= 2,
        b[0] == statements::DASH,
        b[1] == statements::DASH,
        !b.contains(LINE_FEED),
    ensures
        lex_over(Lex::Code, b, next) == Lex::LineComment,
        ends_nothing(Lex::Code, b),
    decreases b.len(),
{
    let init = b.drop_last();
    assert(b.contains(b.last()));
    if b.len() == 2 {
        assert(init =~= seq![statements::DASH]);
        assert(init.drop_last() =~= Seq::<u8>::empty());
        assert(lex_over(Lex::Code, init.drop_last(), Some(init.last())) == Lex::Code);
        assert(lex_over(Lex::Code, init, Some(b.last())) == Lex::LineComment);
        assert(ends_nothing(Lex::Code, init.drop_last()));
        assert(ends_nothing(Lex::Code, init));
    } else {
        assert(!init.contains(LINE_FEED)) by {
            if init.contains(LINE_FEED) {
                let i = choose|i: int| 0 <= i < init.len() && init[i] == LINE_FEED;
                assert(b[i] == LINE_FEED);
            }
        }
        lemma_comment_over(init, Some(b.last()));
    }
}

proof fn lemma_comment_line(b: Seq<u8>, next: Option<u8>)
    requires
        b.len() >= 2,
        b[0] == statements::DASH,
        b[1] == statements::DASH,
        !b.contains(LINE_FEED),
    ensures
        is_closed(b.push(LINE_FEED), next),
{
    lemma_comment_over(b, Some(LINE_FEED));
    assert(b.push(LINE_FEED).drop_last() =~= b);
}

/// The statement of a row without its semicolon and line feed.
pub open spec fn insert_head(
    name: Seq<char>,
    shape: TableShape,
    literals: Seq<Seq<char>>,
) -> Seq<char> {
    "INSERT INTO "@ + values::quoted(name, '"') + " ("@ + text::join(
        snapshot::row_columns(shape),
        ","@,
    ) + ") VALUES ("@ + text::join(literals, ","@) + ")"@
}

proof fn lemma_insert_words()
    ensures
        is_calm(encode_utf8("INSERT INTO "@)),
        is_calm(encode_utf8(" ("@)),
        is_calm(encode_utf8(") VALUES ("@)),
        is_calm(encode_utf8(")"@)),
        encode_utf8(" ("@).len() > 0 && encode_utf8(" ("@)[0] == 0x20,
        encode_utf8(") VALUES ("@).len() > 0 && encode_utf8(") VALUES ("@)[0] == 0x29,
        encode_utf8(")"@).len() > 0 && encode_utf8(")"@)[0] == 0x29,
        encode_utf8(";\n"@) == seq![SEMICOLON, LINE_FEED],
{
    reveal_strlit("INSERT INTO ");
    reveal_strlit(" (");
    reveal_strlit(") VALUES (");
    reveal_strlit(")");
    reveal_strlit(";\n");
    roundtrip::lemma_ascii_codes("INSERT INTO "@);
    roundtrip::lemma_ascii_codes(" ("@);
    roundtrip::lemma_ascii_codes(") VALUES ("@);
    roundtrip::lemma_ascii_codes(")"@);
    roundtrip::lemma_ascii_codes(";\n"@);
    assert(encode_utf8(";\n"@) =~= seq![SEMICOLON, LINE_FEED]);
}

proof fn lemma_insert_head_is_closed(name: Seq<char>, shape: TableShape, literals: Seq<Seq<char>>)
    requires
        all_inert(literals),
    ensures
        is_closed(encode_utf8(insert_head(name, shape, literals)), Some(SEMICOLON)),
{
    let columns = text::join(snapshot::row_columns(shape), ","@);
    let list = text::join(literals, ","@);
    let quoted_name = values::quoted(name, '"');
    let c1 = "INSERT INTO "@ + quoted_name;
    let c2 = c1 + " ("@;
    let c3 = c2 + columns;
    let c4 = c3 + ") VALUES ("@;
    let c5 = c4 + list;
    roundtrip::lemma_encode_concat("INSERT INTO "@, quoted_name);
    roundtrip::lemma_encode_concat(c1, " ("@);
    roundtrip::lemma_encode_concat(c2, columns);
    roundtrip::lemma_encode_concat(c3, ") VALUES ("@);
    roundtrip::lemma_encode_concat(c4, list);
    roundtrip::lemma_encode_concat(c5, ")"@);
    lemma_insert_words();
    lemma_columns_are_inert(shape);
    lemma_join_is_inert(snapshot::row_columns(shape));
    lemma_join_is_inert(literals);
    let e0 = encode_utf8("INSERT INTO "@);
    let en = encode_utf8(quoted_name);
    let e1 = encode_utf8(" ("@);
    let ec = encode_utf8(columns);
    let e2 = encode_utf8(") VALUES ("@);
    let el = encode_utf8(list);
    let e3 = encode_utf8(")"@);
    let close = Some(0x29u8);
    lemma_calm_is_closed(e0, first_or(en, Some(0x20u8)));
    lemma_quoted_is_closed(name, statements::DOUBLE_QUOTE, Some(0x20u8));
    lemma_closed_concat(e0, en, Some(0x20u8));
    let n1 = first_or(ec, close);
    lemma_calm_is_closed(e1, n1);
    lemma_closed_concat(e0 + en, e1, n1);
    assert(is_closed(ec, close));
    lemma_closed_concat(e0 + en + e1, ec, close);
    let n2 = first_or(el, close);
    lemma_calm_is_closed(e2, n2);
    lemma_closed_concat(e0 + en + e1 + ec, e2, n2);
    assert(is_closed(el, close));
    lemma_closed_concat(e0 + en + e1 + ec + e2, el, close);
    lemma_calm_is_closed(e3, Some(SEMICOLON));
    lemma_closed_concat(e0 + en + e1 + ec + e2 + el, e3, Some(SEMICOLON));
}

/// The annotation line of a row without its line feed.
pub open spec fn annotation_line(
    name: Seq<char>,
    ordinal: nat,
    row: Seq<SourceValue>,
) -> Seq<char> {
    "-- sqlite-mcp typed-value: v1 table_b64="@ + outside::url_base64(encode_utf8(name))
        + " row="@ + text::decimal(ordinal) + " values_b64="@ + outside::url_base64(
        encode_utf8(outside::json_objects(snapshot::row_members(row))),
    )
}

proof fn lemma_annotation(name: Seq<char>, ordinal: nat, row: Seq<SourceValue>, next: Option<u8>)
    requires
        roundtrip::code_reads_back(encode_utf8(name)),
        roundtrip::code_reads_back(encode_utf8(outside::json_objects(snapshot::row_members(row)))),
    ensures
        is_closed(encode_utf8(annotation_line(name, ordinal, row)).push(LINE_FEED), next),
{
    let a = "-- sqlite-mcp typed-value: v1 table_b64="@;
    let n = outside::url_base64(encode_utf8(name));
    let j = outside::url_base64(encode_utf8(outside::json_objects(snapshot::row_members(row))));
    let c1 = a + n;
    let c2 = c1 + " row="@;
    let c3 = c2 + text::decimal(ordinal);
    let c4 = c3 + " values_b64="@;
    roundtrip::lemma_encode_concat(a, n);
    roundtrip::lemma_encode_concat(c1, " row="@);
    roundtrip::lemma_encode_concat(c2, text::decimal(ordinal));
    roundtrip::lemma_encode_concat(c3, " values_b64="@);
    roundtrip::lemma_encode_concat(c4, j);
    roundtrip::lemma_base64_plain(encode_utf8(name));
    roundtrip::lemma_base64_plain(
        encode_utf8(outside::json_objects(snapshot::row_members(row))),
    );
    roundtrip::lemma_plain(n);
    roundtrip::lemma_plain(j);
    roundtrip::lemma_decimal(ordinal);
    roundtrip::lemma_plain(text::decimal(ordinal));
    lemma_annotation_marks();
    roundtrip::lemma_concat_lacks(encode_utf8(a), encode_utf8(n), LINE_FEED);
    roundtrip::lemma_concat_lacks(encode_utf8(c1), encode_utf8(" row="@), LINE_FEED);
    roundtrip::lemma_concat_lacks(encode_utf8(c2), encode_utf8(text::decimal(ordinal)), LINE_FEED);
    roundtrip::lemma_concat_lacks(encode_utf8(c3), encode_utf8(" values_b64="@), LINE_FEED);
    roundtrip::lemma_concat_lacks(encode_utf8(c4), encode_utf8(j), LINE_FEED);
    let line = encode_utf8(annotation_line(name, ordinal, row));
    let ea = encode_utf8(a);
    assert(line[0] == ea[0] && line[1] == ea[1]);
    lemma_comment_line(line, next);
}

proof fn lemma_annotation_marks()
    ensures
        ({
            let a = encode_utf8("-- sqlite-mcp typed-value: v1 table_b64="@);
            &&& a.len() >= 2
            &&& a[0] == statements::DASH
            &&& a[1] == statements::DASH
            &&& !a.contains(LINE_FEED)
            &&& !encode_utf8(" row="@).contains(LINE_FEED)
            &&& !encode_utf8(" values_b64="@).contains(LINE_FEED)
            &&& encode_utf8("\n"@) == seq![LINE_FEED]
        }),
{
    reveal_strlit("-- sqlite-mcp typed-value: v1 table_b64=");
    reveal_strlit(" row=");
    reveal_strlit(" values_b64=");
    reveal_strlit("\n");
    roundtrip::lemma_ascii_codes("-- sqlite-mcp typed-value: v1 table_b64="@);
    roundtrip::lemma_ascii_codes(" row="@);
    roundtrip::lemma_ascii_codes(" values_b64="@);
    roundtrip::lemma_ascii_codes("\n"@);
    assert(encode_utf8("\n"@) =~= seq![LINE_FEED]);
}

/// The text of a row is its annotation line and its statement, closed up to the
/// semicolon.
proof fn lemma_row_bytes(
    name: Seq<char>,
    shape: TableShape,
    ordinal: nat,
    row: Seq<SourceValue>,
)
    ensures
        encode_utf8(snapshot::row_text(name, shape, ordinal, row)) == encode_utf8(
            annotation_line(name, ordinal, row),
        ).push(LINE_FEED) + encode_utf8(
            insert_head(name, shape, snapshot::row_literals(row)->Ok_0),
        ) + seq![SEMICOLON, LINE_FEED],
{
    let literals = snapshot::row_literals(row)->Ok_0;
    let note = annotation_line(name, ordinal, row);
    let head = insert_head(name, shape, literals);
    let statement = snapshot::insert_text(name, shape, literals);
    reveal_strlit(");\n");
    reveal_strlit(")");
    reveal_strlit(";\n");
    assert(");\n"@ =~= ")"@ + ";\n"@);
    assert(statement =~= head + ";\n"@);
    assert(snapshot::row_text(name, shape, ordinal, row) =~= note + "\n"@ + statement);
    roundtrip::lemma_encode_concat(note + "\n"@, statement);
    roundtrip::lemma_encode_concat(note, "\n"@);
    roundtrip::lemma_encode_concat(head, ";\n"@);
    lemma_insert_words();
    lemma_annotation_marks();
    let en = encode_utf8(note);
    let eh = encode_utf8(head);
    assert(en + seq![LINE_FEED] =~= en.push(LINE_FEED));
    assert(en.push(LINE_FEED) + (eh + seq![SEMICOLON, LINE_FEED]) =~= en.push(LINE_FEED) + eh + seq![
        SEMICOLON,
        LINE_FEED,
    ]);
}

/// The bytes of one statement and its line feed: nothing but its last semicolon
/// ends a statement in them.
pub open spec fn is_piece(p: Seq<u8>) -> bool {
    &&& p.len() >= 2
    &&& p[p.len() - 2] == SEMICOLON
    &&& p[p.len() - 1] == LINE_FEED
    &&& is_closed(p.take(p.len() - 2), Some(SEMICOLON))
}

/// A piece adds exactly one statement to what the importer splits, and leaves it
/// in plain code again.
pub proof fn lemma_piece_adds_one_statement(w: Seq<u8>, from: int, i: int, p: Seq<u8>)
    requires
        0 <= from <= i,
        i + p.len() <= w.len(),
        w.subrange(i, i + p.len()) == p,
        is_piece(p),
        statements::lex_state(w, from, i) is Code,
    ensures
        ({
            let end = i + p.len();
            let earlier = statements::statement_ranges(w, from, i);
            &&& statements::lex_state(w, from, end) is Code
            &&& statements::statement_ranges(w, from, end) == earlier.push(
                (statements::ranges_end(earlier, from) as usize, (end - 1) as usize),
            )
        }),
{
    let n = p.len() - 2;
    assert(w.subrange(i, i + n) =~= p.take(n));
    assert(w[i + n] == SEMICOLON) by {
        assert(w.subrange(i, i + p.len())[n] == w[i + n]);
    }
    assert(w[i + n + 1] == LINE_FEED) by {
        assert(w.subrange(i, i + p.len())[n + 1] == w[i + n + 1]);
    }
    lemma_lex_in_text(w, from, i, n);
    lemma_ranges_in_text(w, from, i, n);
    assert(statements::byte_at(w, i + n) == Some(SEMICOLON));
    assert(statements::lex_state(w, from, i + n) is Code);
    assert(statements::terminates(w, from, i + n));
    assert(statements::lex_state(w, from, i + n + 1) is Code);
    assert(!statements::terminates(w, from, i + n + 1));
    assert(statements::lex_state(w, from, i + n + 2) is Code);
    let earlier = statements::statement_ranges(w, from, i);
    assert(statements::statement_ranges(w, from, i + n + 1) == earlier.push(
        (statements::ranges_end(earlier, from) as usize, (i + n + 1) as usize),
    ));
    assert(statements::statement_ranges(w, from, i + n + 2) == statements::statement_ranges(
        w,
        from,
        i + n + 1,
    ));
}

/// The codes in the annotation of a row can be read back.
pub open spec fn row_codes_read_back(name: Seq<char>, row: Seq<SourceValue>) -> bool {
    &&& roundtrip::code_reads_back(encode_utf8(name))
    &&& roundtrip::code_reads_back(encode_utf8(outside::json_objects(snapshot::row_members(row))))
}

/// The doubles of a row are displayed as numbers.
pub open spec fn row_is_calm(row: Seq<SourceValue>) -> bool {
    forall|i: int| 0 <= i < row.len() ==> real_is_calm(#[trigger] row[i])
}

/// The text of a row is a piece, whatever the row holds.
pub proof fn lemma_row_is_piece(
    name: Seq<char>,
    shape: TableShape,
    ordinal: nat,
    row: Seq<SourceValue>,
)
    requires
        snapshot::row_literals(row) is Ok,
        row_is_calm(row),
        row_codes_read_back(name, row),
    ensures
        is_piece(encode_utf8(snapshot::row_text(name, shape, ordinal, row))),
{
    let t = encode_utf8(snapshot::row_text(name, shape, ordinal, row));
    let literals = snapshot::row_literals(row)->Ok_0;
    let note = encode_utf8(annotation_line(name, ordinal, row)).push(LINE_FEED);
    let head = encode_utf8(insert_head(name, shape, literals));
    lemma_row_bytes(name, shape, ordinal, row);
    lemma_literals_are_inert(row);
    lemma_insert_head_is_closed(name, shape, literals);
    lemma_annotation(name, ordinal, row, first_or(head, Some(SEMICOLON)));
    lemma_closed_concat(note, head, Some(SEMICOLON));
    assert(t == note + head + seq![SEMICOLON, LINE_FEED]);
    assert(t.take(t.len() - 2) =~= note + head);
}

/// Whatever a row holds, its text adds exactly one statement to what the
/// importer splits, and leaves it in plain code again: no value can end the
/// statement early, start a comment or open a quote.
///
/// `before` is any text that leaves the importer in plain code, `after` any text
/// that follows.
pub proof fn row_adds_one_statement(
    before: Seq<u8>,
    from: int,
    name: Seq<char>,
    shape: TableShape,
    ordinal: nat,
    row: Seq<SourceValue>,
    after: Seq<u8>,
)
    requires
        0 <= from <= before.len(),
        snapshot::row_literals(row) is Ok,
        row_is_calm(row),
        row_codes_read_back(name, row),
        statements::lex_state(
            before + encode_utf8(snapshot::row_text(name, shape, ordinal, row)) + after,
            from,
            before.len() as int,
        ) is Code,
    ensures
        ({
            let t = encode_utf8(snapshot::row_text(name, shape, ordinal, row));
            let w = before + t + after;
            let end = (before.len() + t.len()) as int;
            let earlier = statements::statement_ranges(w, from, before.len() as int);
            &&& statements::lex_state(w, from, end) is Code
            &&& statements::statement_ranges(w, from, end) == earlier.push(
                (statements::ranges_end(earlier, from) as usize, (end - 1) as usize),
            )
        }),
{
    let t = encode_utf8(snapshot::row_text(name, shape, ordinal, row));
    let w = before + t + after;
    let i = before.len() as int;
    lemma_row_is_piece(name, shape, ordinal, row);
    assert(w.subrange(i, i + t.len()) =~= t);
    lemma_piece_adds_one_statement(w, from, i, t);
}

} // verus!
