//! Statements that only read a harmless setting of the connection.
use crate::sqltext;
use crate::sqltext::{skip_space_at, skip_trivia_at};
use crate::text;
use crate::text::{chars_of, is_space_char, lower_char};
use vstd::prelude::*;

verus! {

/// `s` starts with a word, in whatever case.
pub open spec fn starts_with_word(s: Seq<char>, word: Seq<char>) -> bool {
    s.len() >= word.len() && text::lowercase(s.take(word.len() as int)) == word
}

/// Nothing but one semicolon at most follows.
pub open spec fn ends_statement(s: Seq<char>) -> bool {
    let rest = sqltext::skip_trivia(s);
    rest.len() == 0 || rest[0] == ';' && sqltext::skip_trivia(rest.skip(1)).len() == 0
}

/// `s` is the name of a harmless setting and the end of the statement.
pub open spec fn is_setting(s: Seq<char>, name: Seq<char>) -> bool {
    starts_with_word(s, name) && ends_statement(s.skip(name.len() as int))
}

/// The statement reads `foreign_keys` or `recursive_triggers` and does nothing
/// else. White space alone stands between the words.
pub open spec fn is_getter(sql: Seq<char>) -> bool {
    let s = sqltext::skip_trivia(sql);
    let t = s.skip(6);
    &&& starts_with_word(s, "pragma"@)
    &&& t.len() > 0 && text::is_space(t[0])
    &&& is_setting(text::trim_start(t), "foreign_keys"@) || is_setting(
        text::trim_start(t),
        "recursive_triggers"@,
    )
}

fn word_at(cs: &Vec<char>, at: usize, word: &str) -> (r: Option<usize>)
    requires
        at <= cs@.len(),
    ensures
        match r {
            Some(end) => starts_with_word(cs@.skip(at as int), word@) && end == at + word@.len()
                && end <= cs@.len(),
            None => !starts_with_word(cs@.skip(at as int), word@),
        },
{
    let ws = chars_of(word);
    let total: usize = cs.len();
    let width: usize = ws.len();
    if total - at < width {
        return None;
    }
    let ghost head = cs@.skip(at as int).take(width as int);
    let mut i: usize = 0;
    while i < width
        invariant
            ws@ == word@,
            total == cs@.len(),
            width == ws@.len(),
            at + width <= total,
            i <= width,
            head == cs@.skip(at as int).take(width as int),
            forall|j: int| 0 <= j < i ==> text::lower(#[trigger] head[j]) == word@[j],
        decreases width - i,
    {
        assert(head[i as int] == cs@[at + i]);
        if lower_char(cs[at + i]) != ws[i] {
            assert(text::lowercase(head)[i as int] != word@[i as int]);
            return None;
        }
        i += 1;
    }
    assert(text::lowercase(head) =~= word@);
    Some(at + width)
}

fn statement_ends_at(cs: &Vec<char>, at: usize) -> (r: bool)
    requires
        at <= cs@.len(),
    ensures
        r == ends_statement(cs@.skip(at as int)),
{
    let p: usize = skip_trivia_at(cs, at);
    let ghost rest = cs@.skip(p as int);
    if p == cs.len() {
        return true;
    }
    assert(rest[0] == cs@[p as int]);
    if cs[p] != ';' {
        return false;
    }
    assert(rest.skip(1) =~= cs@.skip(p + 1));
    let q: usize = skip_trivia_at(cs, p + 1);
    q == cs.len()
}

fn setting_at(cs: &Vec<char>, at: usize, name: &str) -> (r: bool)
    requires
        at <= cs@.len(),
    ensures
        r == is_setting(cs@.skip(at as int), name@),
{
    match word_at(cs, at, name) {
        Some(end) => {
            assert(cs@.skip(at as int).skip(name@.len() as int) =~= cs@.skip(end as int));
            statement_ends_at(cs, end)
        },
        None => false,
    }
}

/// Whether a statement only reads a harmless setting.
pub fn is_approved_getter(sql: &str) -> (r: bool)
    ensures
        r == is_getter(sql@),
{
    let cs = chars_of(sql);
    assert(cs@.skip(0) =~= cs@);
    let start: usize = skip_trivia_at(&cs, 0);
    proof {
        reveal_strlit("pragma");
    }
    let end: usize = match word_at(&cs, start, "pragma") {
        Some(end) => end,
        None => {
            return false;
        },
    };
    let ghost t = sqltext::skip_trivia(sql@).skip(6);
    assert(t =~= cs@.skip(end as int));
    if end == cs.len() || !is_space_char(cs[end]) {
        return false;
    }
    assert(t[0] == cs@[end as int]);
    let name: usize = skip_space_at(&cs, end);
    setting_at(&cs, name, "foreign_keys") || setting_at(&cs, name, "recursive_triggers")
}

} // verus!
