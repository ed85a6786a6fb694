//! Trivia of SQL text: white space, line comments and block comments.
use crate::text;
use crate::text::is_space_char;
use vstd::prelude::*;

verus! {

/// What follows the first line feed; nothing where there is none.
pub open spec fn after_line(s: Seq<char>) -> Seq<char>
    decreases s.len(),
{
    if s.len() == 0 {
        s
    } else if s[0] == '\n' {
        s.skip(1)
    } else {
        after_line(s.skip(1))
    }
}

/// What follows the first `*/`; nothing where there is none.
pub open spec fn after_block(s: Seq<char>) -> Seq<char>
    decreases s.len(),
{
    if s.len() < 2 {
        Seq::empty()
    } else if s[0] == '*' && s[1] == '/' {
        s.skip(2)
    } else {
        after_block(s.skip(1))
    }
}

pub open spec fn opens_line_comment(s: Seq<char>) -> bool {
    s.len() >= 2 && s[0] == '-' && s[1] == '-'
}

pub open spec fn opens_block_comment(s: Seq<char>) -> bool {
    s.len() >= 2 && s[0] == '/' && s[1] == '*'
}

pub proof fn lemma_after_line_len(s: Seq<char>)
    ensures
        after_line(s).len() <= s.len(),
    decreases s.len(),
{
    if s.len() > 0 && s[0] != '\n' {
        lemma_after_line_len(s.skip(1));
    }
}

pub proof fn lemma_after_block_len(s: Seq<char>)
    ensures
        after_block(s).len() <= s.len(),
    decreases s.len(),
{
    if s.len() >= 2 && !(s[0] == '*' && s[1] == '/') {
        lemma_after_block_len(s.skip(1));
    }
}

pub proof fn lemma_trim_start_len(s: Seq<char>)
    ensures
        text::trim_start(s).len() <= s.len(),
    decreases s.len(),
{
    if s.len() > 0 && text::is_space(s[0]) {
        lemma_trim_start_len(s.skip(1));
    }
}

/// What is left of `s` once leading white space and comments are gone. An
/// unterminated comment takes everything with it.
pub open spec fn skip_trivia(s: Seq<char>) -> Seq<char>
    decreases s.len(),
    via skip_trivia_decreases
{
    let t = text::trim_start(s);
    if opens_line_comment(t) {
        skip_trivia(after_line(t.skip(2)))
    } else if opens_block_comment(t) {
        skip_trivia(after_block(t.skip(2)))
    } else {
        t
    }
}

#[via_fn]
proof fn skip_trivia_decreases(s: Seq<char>) {
    let t = text::trim_start(s);
    lemma_trim_start_len(s);
    if t.len() >= 2 {
        lemma_after_line_len(t.skip(2));
        lemma_after_block_len(t.skip(2));
    }
}

/// The position of the first character at or after `i` that is no white space.
pub fn skip_space_at(cs: &Vec<char>, i: usize) -> (r: usize)
    requires
        i <= cs@.len(),
    ensures
        i <= r <= cs@.len(),
        cs@.skip(r as int) == text::trim_start(cs@.skip(i as int)),
{
    let mut p: usize = i;
    while p < cs.len() && is_space_char(cs[p])
        invariant
            i <= p <= cs@.len(),
            text::trim_start(cs@.skip(p as int)) == text::trim_start(cs@.skip(i as int)),
        decreases cs.len() - p,
    {
        assert(cs@.skip(p as int).skip(1) =~= cs@.skip(p + 1));
        p += 1;
    }
    p
}

/// The position after the first line feed at or after `i`.
pub fn after_line_at(cs: &Vec<char>, i: usize) -> (r: usize)
    requires
        i <= cs@.len(),
    ensures
        i <= r <= cs@.len(),
        cs@.skip(r as int) == after_line(cs@.skip(i as int)),
{
    let mut p: usize = i;
    while p < cs.len()
        invariant
            i <= p <= cs@.len(),
            after_line(cs@.skip(p as int)) == after_line(cs@.skip(i as int)),
        decreases cs.len() - p,
    {
        assert(cs@.skip(p as int).skip(1) =~= cs@.skip(p + 1));
        if cs[p] == '\n' {
            return p + 1;
        }
        p += 1;
    }
    p
}

/// The position after the first `*/` at or after `i`.
pub fn after_block_at(cs: &Vec<char>, i: usize) -> (r: usize)
    requires
        i <= cs@.len(),
    ensures
        i <= r <= cs@.len(),
        cs@.skip(r as int) == after_block(cs@.skip(i as int)),
{
    let mut p: usize = i;
    while p < cs.len()
        invariant
            i <= p <= cs@.len(),
            after_block(cs@.skip(p as int)) == after_block(cs@.skip(i as int)),
        decreases cs.len() - p,
    {
        assert(cs@.skip(p as int).skip(1) =~= cs@.skip(p + 1));
        if p + 1 < cs.len() && cs[p] == '*' && cs[p + 1] == '/' {
            assert(cs@.skip(p as int).skip(2) =~= cs@.skip(p + 2));
            return p + 2;
        }
        if p + 1 == cs.len() {
            assert(cs@.skip(p + 1) =~= Seq::<char>::empty());
            return p + 1;
        }
        p += 1;
    }
    p
}

/// The position of the first character at or after `i` that is neither white
/// space nor part of a comment.
pub fn skip_trivia_at(cs: &Vec<char>, i: usize) -> (r: usize)
    requires
        i <= cs@.len(),
    ensures
        i <= r <= cs@.len(),
        cs@.skip(r as int) == skip_trivia(cs@.skip(i as int)),
{
    let mut p: usize = i;
    loop
        invariant
            i <= p <= cs@.len(),
            skip_trivia(cs@.skip(p as int)) == skip_trivia(cs@.skip(i as int)),
        decreases cs.len() - p,
    {
        let q: usize = skip_space_at(cs, p);
        if cs.len() - q >= 2 && cs[q] == '-' && cs[q + 1] == '-' {
            assert(cs@.skip(q as int).skip(2) =~= cs@.skip(q + 2));
            p = after_line_at(cs, q + 2);
        } else if cs.len() - q >= 2 && cs[q] == '/' && cs[q + 1] == '*' {
            assert(cs@.skip(q as int).skip(2) =~= cs@.skip(q + 2));
            p = after_block_at(cs, q + 2);
        } else {
            return q;
        }
    }
}

} // verus!
