//! What holds of characters and of texts.
use crate::text;
use crate::text::{
    contains_text, decimal_text, is_space_char, join_texts, lower_char, same_bytes, same_text,
    signed_decimal_text, string_of, upper_char,
};
use vstd::prelude::*;

verus! {

/// White space is what Unicode calls so, and nothing else.
pub proof fn spaces_are_these(c: char, r: bool)
    requires
        call_ensures(is_space_char, (c,), r),
    ensures
        r <==> c == '\u{9}' || c == '\u{a}' || c == '\u{b}' || c == '\u{c}' || c == '\u{d}' || c
            == '\u{20}' || c == '\u{85}' || c == '\u{a0}' || c == '\u{1680}' || c == '\u{2000}' || c
            == '\u{2001}' || c == '\u{2002}' || c == '\u{2003}' || c == '\u{2004}' || c
            == '\u{2005}' || c == '\u{2006}' || c == '\u{2007}' || c == '\u{2008}' || c
            == '\u{2009}' || c == '\u{200a}' || c == '\u{2028}' || c == '\u{2029}' || c
            == '\u{202f}' || c == '\u{205f}' || c == '\u{3000}',
{
}

/// Trimming takes white space from both ends and nothing else: what is left starts and
/// ends with no white space and stands in the text as it is.
pub proof fn trims_take_white_space(s: Seq<char>)
    ensures
        ({
            let t = text::trim(s);
            &&& t.len() > 0 ==> !text::is_space(t[0]) && !text::is_space(t.last())
            &&& exists|a: int, b: int|
                0 <= a <= b <= s.len() && t == #[trigger] s.subrange(a, b) && text::blank(s.take(a))
                    && text::blank(s.skip(b))
        }),
{
    lemma_trim_start(s);
    let front = text::trim_start(s);
    lemma_trim_end(front);
    let t = text::trim(s);
    let a = s.len() - front.len();
    let b = a + t.len();
    assert(t =~= s.subrange(a, b)) by {
        assert(front =~= s.skip(a));
    }
    assert(text::blank(s.skip(b))) by {
        assert forall|i: int| 0 <= i < s.skip(b).len() implies text::is_space(
            #[trigger] s.skip(b)[i],
        ) by {
            assert(s.skip(b)[i] == front[t.len() + i]);
            assert(front.skip(t.len() as int)[i] == front[t.len() + i]);
        }
    }
    if t.len() > 0 {
        assert(t[0] == front[0]);
    }
}

proof fn lemma_trim_start(s: Seq<char>)
    ensures
        ({
            let t = text::trim_start(s);
            &&& t.len() <= s.len()
            &&& t == s.skip(s.len() - t.len())
            &&& text::blank(s.take(s.len() - t.len()))
            &&& t.len() > 0 ==> !text::is_space(t[0])
        }),
    decreases s.len(),
{
    let t = text::trim_start(s);
    if s.len() > 0 && text::is_space(s[0]) {
        let rest = s.skip(1);
        lemma_trim_start(rest);
        let k = s.len() - t.len();
        assert(t =~= s.skip(k));
        assert forall|i: int| 0 <= i < s.take(k).len() implies text::is_space(
            #[trigger] s.take(k)[i],
        ) by {
            if i > 0 {
                assert(rest.take(k - 1)[i - 1] == s[i]);
            }
        }
    } else {
        assert(s.skip(0) =~= s);
    }
}

proof fn lemma_trim_end(s: Seq<char>)
    ensures
        ({
            let t = text::trim_end(s);
            &&& t.len() <= s.len()
            &&& t == s.take(t.len() as int)
            &&& text::blank(s.skip(t.len() as int))
            &&& t.len() > 0 ==> !text::is_space(t.last())
        }),
    decreases s.len(),
{
    let t = text::trim_end(s);
    let n = t.len() as int;
    if s.len() > 0 && text::is_space(s.last()) {
        let init = s.drop_last();
        lemma_trim_end(init);
        assert(t =~= s.take(n));
        assert forall|i: int| 0 <= i < s.skip(n).len() implies text::is_space(
            #[trigger] s.skip(n)[i],
        ) by {
            if n + i < init.len() {
                assert(init.skip(n)[i] == s[n + i]);
            }
        }
    } else {
        assert(s.take(s.len() as int) =~= s);
    }
}

/// A character changes its case by 32 where it is an ASCII letter, and stays else.
pub proof fn letters_change_their_case(c: char, low: char, up: char)
    requires
        call_ensures(lower_char, (c,), low),
        call_ensures(upper_char, (c,), up),
    ensures
        'A' <= c <= 'Z' ==> low as u32 == c as u32 + 32 && up == c,
        'a' <= c <= 'z' ==> up as u32 + 32 == c as u32 && low == c,
        !('A' <= c <= 'Z') && !('a' <= c <= 'z') ==> low == c && up == c,
{
}

/// Numbers are written in decimal digits, the last one last, without leading zeros, and
/// negative ones with a minus.
pub proof fn numbers_are_written_in_decimal(
    n: u64,
    shown: String,
    i: i64,
    signed: String,
)
    requires
        call_ensures(decimal_text, (n,), shown),
        call_ensures(signed_decimal_text, (i,), signed),
    ensures
        n < 10 ==> shown@ == seq!["0123456789"@[n as int]],
        n >= 10 ==> shown@ == text::decimal((n / 10) as nat).push("0123456789"@[n as int % 10]),
        i >= 0 ==> signed@ == text::decimal(i as nat),
        i < 0 ==> signed@ == seq!['-'] + text::decimal((-i) as nat),
{
    reveal_strlit("0123456789");
    lemma_digit(n as nat % 10);
    if n < 10 {
        lemma_digit(n as nat);
    }
}

proof fn lemma_digit(d: nat)
    requires
        d < 10,
    ensures
        text::digit(d) == "0123456789"@[d as int],
{
    reveal_strlit("0123456789");
    assert((0x30 + d) as u8 == 0x30 + d);
}

/// Parts are joined one behind the other, with the separator between them and nowhere
/// else.
pub proof fn parts_are_joined_in_order(parts: &Vec<String>, sep: &str, r: String, last: Seq<char>)
    requires
        call_ensures(join_texts, (parts, sep), r),
    ensures
        parts@.len() == 0 ==> r@.len() == 0,
        parts@.len() == 1 ==> r@ == parts@[0]@,
        parts@.len() == 2 ==> r@ == parts@[0]@ + sep@ + parts@[1]@,
        parts@.len() > 0 ==> text::join(text::views(parts@).push(last), sep@) == r@ + sep@ + last,
{
    let views = text::views(parts@);
    assert(views.len() == parts@.len());
    reveal_with_fuel(text::join, 3);
    if parts@.len() == 1 {
        assert(views[0] == parts@[0]@);
    }
    if parts@.len() == 2 {
        assert(views[0] == parts@[0]@);
        assert(views.last() == parts@[1]@);
        assert(views.drop_last() =~= seq![views[0]]);
    }
    assert(views.push(last).drop_last() =~= views);
}

/// A part stands in a text exactly where the text is something, the part, and something.
pub proof fn parts_are_found(s: &str, part: &str, r: bool, a: Seq<char>, b: Seq<char>)
    requires
        call_ensures(contains_text, (s, part), r),
    ensures
        s@ == a + part@ + b ==> r,
        r ==> exists|i: int|
            0 <= i <= s@.len() - part@.len() && #[trigger] s@.subrange(i, i + part@.len()) == part@,
{
    if s@ == a + part@ + b {
        let i = a.len() as int;
        assert(s@.subrange(i, i + part@.len()) =~= part@);
        assert(text::occurs_at(s@, part@, i));
    }
    if r {
        let i = choose|i: int| text::occurs_at(s@, part@, i);
        assert(s@.subrange(i, i + part@.len()) == part@);
    }
}

/// Texts and bytes are the same exactly where every one of their parts is.
pub proof fn equal_texts_agree_everywhere(
    a: &str,
    b: &str,
    same: bool,
    x: &[u8],
    y: &[u8],
    equal: bool,
    cs: &Vec<char>,
    from: usize,
    to: usize,
    part: String,
)
    requires
        call_ensures(same_text, (a, b), same),
        call_ensures(same_bytes, (x, y), equal),
        from <= to <= cs@.len(),
        call_ensures(string_of, (cs, from, to), part),
    ensures
        same <==> a@.len() == b@.len() && forall|i: int| 0 <= i < a@.len() ==> a@[i] == b@[i],
        equal <==> x@.len() == y@.len() && forall|i: int| 0 <= i < x@.len() ==> x@[i] == y@[i],
        part@.len() == to - from,
        forall|i: int| 0 <= i < to - from ==> part@[i] == #[trigger] cs@[from + i],
{
    if a@.len() == b@.len() && forall|i: int| 0 <= i < a@.len() ==> a@[i] == b@[i] {
        assert(a@ =~= b@);
    }
    if x@.len() == y@.len() && forall|i: int| 0 <= i < x@.len() ==> x@[i] == y@[i] {
        assert(x@ =~= y@);
    }
    assert forall|i: int| 0 <= i < to - from implies part@[i] == #[trigger] cs@[from + i] by {
        assert(part@ == cs@.subrange(from as int, to as int));
    }
}

} // verus!
