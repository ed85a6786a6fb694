//! Statement boundaries and statement kinds of merge text.
use crate::merge::error::MergeError;
use crate::sqltext;
use crate::sqltext::skip_trivia_at;
use crate::text;
use crate::text::{chars_of, same_chars, upper_char};
use vstd::prelude::*;
use vstd::utf8::*;

verus! {

pub const DASH: u8 = 0x2d;

pub const SLASH: u8 = 0x2f;

pub const STAR: u8 = 0x2a;

pub const LINE_FEED: u8 = 0x0a;

pub const OPEN_BRACKET: u8 = 0x5b;

pub const CLOSE_BRACKET: u8 = 0x5d;

pub const SINGLE_QUOTE: u8 = 0x27;

pub const DOUBLE_QUOTE: u8 = 0x22;

pub const BACK_QUOTE: u8 = 0x60;

pub const SEMICOLON: u8 = 0x3b;

/// Where a byte of SQL text stands. The `Open`, `Close` and `Escape` states
/// belong to the second byte of a two-byte mark.
#[derive(Clone, Copy, PartialEq, Eq, Structural, Debug)]
pub enum Lex {
    Code,
    LineComment,
    BlockOpen,
    Block,
    BlockClose,
    Bracket,
    BracketEscape,
    Quote(u8),
    QuoteEscape(u8),
}

pub open spec fn is_quote(c: u8) -> bool {
    c == SINGLE_QUOTE || c == DOUBLE_QUOTE || c == BACK_QUOTE
}

/// The state of the byte after `c`, which stands in state `st` and is followed
/// by `next`.
pub open spec fn lex_next(st: Lex, c: u8, next: Option<u8>) -> Lex {
    match st {
        Lex::Code => if c == DASH && next == Some(DASH) {
            Lex::LineComment
        } else if c == SLASH && next == Some(STAR) {
            Lex::BlockOpen
        } else if c == OPEN_BRACKET {
            Lex::Bracket
        } else if is_quote(c) {
            Lex::Quote(c)
        } else {
            Lex::Code
        },
        Lex::LineComment => if c == LINE_FEED {
            Lex::Code
        } else {
            Lex::LineComment
        },
        Lex::BlockOpen => Lex::Block,
        Lex::Block => if c == STAR && next == Some(SLASH) {
            Lex::BlockClose
        } else {
            Lex::Block
        },
        Lex::BlockClose => Lex::Code,
        Lex::Bracket => if c != CLOSE_BRACKET {
            Lex::Bracket
        } else if next == Some(CLOSE_BRACKET) {
            Lex::BracketEscape
        } else {
            Lex::Code
        },
        Lex::BracketEscape => Lex::Bracket,
        Lex::Quote(q) => if c != q {
            Lex::Quote(q)
        } else if next == Some(q) {
            Lex::QuoteEscape(q)
        } else {
            Lex::Code
        },
        Lex::QuoteEscape(q) => Lex::Quote(q),
    }
}

/// The byte at `i`, where there is one.
pub open spec fn byte_at(b: Seq<u8>, i: int) -> Option<u8> {
    if 0 <= i < b.len() {
        Some(b[i])
    } else {
        None
    }
}

/// The state of the byte at `i` of a text that is code from `from` on.
pub open spec fn lex_state(b: Seq<u8>, from: int, i: int) -> Lex
    decreases i - from,
{
    if i <= from {
        Lex::Code
    } else {
        lex_next(lex_state(b, from, i - 1), b[i - 1], byte_at(b, i))
    }
}

/// Whether the byte at `i` is a semicolon outside comments and quotes.
pub open spec fn terminates(b: Seq<u8>, from: int, i: int) -> bool {
    lex_state(b, from, i) is Code && b[i] == SEMICOLON
}

/// The end of the last range, or `from` where there is none.
pub open spec fn ranges_end(ranges: Seq<(usize, usize)>, from: int) -> int {
    if ranges.len() == 0 {
        from
    } else {
        ranges.last().1 as int
    }
}

/// The statements that are complete before `to`: each one runs from the end of
/// the one before it through its terminating semicolon.
pub open spec fn statement_ranges(b: Seq<u8>, from: int, to: int) -> Seq<(usize, usize)>
    decreases to - from,
{
    if to <= from {
        Seq::empty()
    } else {
        let before = statement_ranges(b, from, to - 1);
        if terminates(b, from, to - 1) {
            before.push((ranges_end(before, from) as usize, to as usize))
        } else {
            before
        }
    }
}

/// Whether a text that stops in this state is cut off inside a comment or quote.
pub open spec fn cut_off(st: Lex) -> bool {
    !(st is Code || st is LineComment)
}

pub open spec fn unterminated_literal() -> (Seq<char>, Seq<char>) {
    ("MERGE_FORMAT_INVALID"@, "unterminated SQL comment or quoted literal"@)
}

pub open spec fn missing_semicolon() -> (Seq<char>, Seq<char>) {
    ("MERGE_FORMAT_INVALID"@, "executable SQL must be terminated by a semicolon"@)
}

/// The statements of the text from `from` on, or why it has none.
pub open spec fn split_result(b: Seq<u8>, from: int) -> Result<
    Seq<(usize, usize)>,
    (Seq<char>, Seq<char>),
> {
    let n = b.len() as int;
    let ranges = statement_ranges(b, from, n);
    if cut_off(lex_state(b, from, n)) {
        Err(unterminated_literal())
    } else if !text::blank(decode_utf8(b.subrange(ranges_end(ranges, from), n))) {
        Err(missing_semicolon())
    } else {
        Ok(ranges)
    }
}

/// The ranges lie in the text, in order and without gaps.
pub proof fn lemma_ranges_shape(b: Seq<u8>, from: int, to: int)
    requires
        0 <= from <= to <= b.len() <= usize::MAX,
    ensures
        from <= ranges_end(statement_ranges(b, from, to), from) <= to,
        forall|k: int|
            0 <= k < statement_ranges(b, from, to).len() ==> {
                let r = #[trigger] statement_ranges(b, from, to)[k];
                &&& r.0 == if k == 0 {
                    from
                } else {
                    statement_ranges(b, from, to)[k - 1].1 as int
                }
                &&& from <= r.0 < r.1 <= to
                &&& terminates(b, from, r.1 - 1)
            },
    decreases to - from,
{
    if from < to {
        lemma_ranges_shape(b, from, to - 1);
    }
}

fn lex_step(st: Lex, c: u8, next: Option<u8>) -> (r: Lex)
    ensures
        r == lex_next(st, c, next),
{
    match st {
        Lex::Code => if c == DASH && next == Some(DASH) {
            Lex::LineComment
        } else if c == SLASH && next == Some(STAR) {
            Lex::BlockOpen
        } else if c == OPEN_BRACKET {
            Lex::Bracket
        } else if c == SINGLE_QUOTE || c == DOUBLE_QUOTE || c == BACK_QUOTE {
            Lex::Quote(c)
        } else {
            Lex::Code
        },
        Lex::LineComment => if c == LINE_FEED {
            Lex::Code
        } else {
            Lex::LineComment
        },
        Lex::BlockOpen => Lex::Block,
        Lex::Block => if c == STAR && next == Some(SLASH) {
            Lex::BlockClose
        } else {
            Lex::Block
        },
        Lex::BlockClose => Lex::Code,
        Lex::Bracket => if c != CLOSE_BRACKET {
            Lex::Bracket
        } else if next == Some(CLOSE_BRACKET) {
            Lex::BracketEscape
        } else {
            Lex::Code
        },
        Lex::BracketEscape => Lex::Bracket,
        Lex::Quote(q) => if c != q {
            Lex::Quote(q)
        } else if next == Some(q) {
            Lex::QuoteEscape(q)
        } else {
            Lex::Code
        },
        Lex::QuoteEscape(q) => Lex::Quote(q),
    }
}

/// Whether every character is white space.
fn is_blank(s: &str) -> (r: bool)
    ensures
        r == text::blank(s@),
{
    for c in it: s.chars()
        invariant
            it.seq() == s@,
            text::blank(s@.take(it.index() as int)),
    {
        if !text::is_space_char(c) {
            assert(!text::is_space(s@[it.index() as int]));
            return false;
        }
        assert(s@.take(it.index() + 1) =~= s@.take(it.index() as int).push(c));
    }
    assert(s@.take(s@.len() as int) =~= s@);
    true
}

/// The byte ranges of the statements of `text` from `offset` on.
///
/// Semicolons inside comments, quotes and bracket identifiers end nothing. A
/// text that stops inside one, or that has anything but white space behind its
/// last semicolon, is refused.
pub fn split_statements(text: &str, offset: usize) -> (r: Result<Vec<(usize, usize)>, MergeError>)
    requires
        is_char_boundary(encode_utf8(text@), offset as int),
    ensures
        match split_result(encode_utf8(text@), offset as int) {
            Ok(ranges) => r matches Ok(v) && v@ == ranges,
            Err(fault) => r matches Err(e) && e.fault() == fault && e.details is Null,
        },
{
    let bytes = text.as_bytes();
    let ghost b = encode_utf8(text@);
    let mut result: Vec<(usize, usize)> = Vec::new();
    let mut start: usize = offset;
    let mut i: usize = offset;
    let mut st = Lex::Code;
    proof {
        encode_utf8_valid_utf8(text@);
    }
    while i < bytes.len()
        invariant
            bytes@ == b,
            b == encode_utf8(text@),
            valid_utf8(b),
            offset <= start <= i <= b.len(),
            is_char_boundary(b, start as int),
            st == lex_state(b, offset as int, i as int),
            result@ == statement_ranges(b, offset as int, i as int),
            start == ranges_end(result@, offset as int),
        decreases bytes.len() - i,
    {
        let c: u8 = bytes[i];
        let next = if bytes.len() - i >= 2 {
            Some(bytes[i + 1])
        } else {
            None
        };
        if st == Lex::Code && c == SEMICOLON {
            proof {
                lemma_boundary_after_ascii(b, i as int);
            }
            result.push((start, i + 1));
            start = i + 1;
        }
        st = lex_step(st, c, next);
        i += 1;
    }
    match st {
        Lex::Code | Lex::LineComment => {},
        _ => {
            return Err(
                MergeError::new(
                    "MERGE_FORMAT_INVALID",
                    "unterminated SQL comment or quoted literal",
                ),
            );
        },
    }
    let (_head, tail) = text.split_at(start);
    proof {
        encode_utf8_decode_utf8(tail@);
    }
    if !is_blank(tail) {
        return Err(
            MergeError::new(
                "MERGE_FORMAT_INVALID",
                "executable SQL must be terminated by a semicolon",
            ),
        );
    }
    Ok(result)
}

/// The position after an ASCII byte of valid text is a character boundary.
pub proof fn lemma_boundary_after_ascii(b: Seq<u8>, i: int)
    requires
        valid_utf8(b),
        0 <= i < b.len(),
        b[i] < 0x80,
    ensures
        is_char_boundary(b, i + 1),
{
    is_char_boundary_iff_is_leading_byte(b, i);
    utf8_byte_ranges_bitwise(b[i]);
    assert(is_char_boundary(b, i));
    lemma_boundary_step(b, i);
}

proof fn lemma_boundary_step(b: Seq<u8>, i: int)
    requires
        valid_utf8(b),
        0 <= i < b.len(),
        b[i] < 0x80,
        is_char_boundary(b, i),
    ensures
        is_char_boundary(b, i + 1),
    decreases b.len(),
{
    utf8_byte_ranges_bitwise(b[i]);
    if i == 0 {
        assert(length_of_first_scalar(b) == 1);
        assert(is_char_boundary(pop_first_scalar(b), 0));
    } else {
        let rest = pop_first_scalar(b);
        let n = length_of_first_scalar(b);
        assert(rest[i - n] == b[i]);
        lemma_boundary_step(rest, i - n);
    }
}

/// What a statement does, as far as its first word tells.
#[derive(Clone, Copy, PartialEq, Eq, Structural, Debug)]
pub enum StatementKind {
    Create,
    Insert,
    /// Transaction control.
    Transaction,
    /// Statements that the merge policy denies.
    Policy,
    /// Anything else: outside the merge grammar.
    Other,
}

pub open spec fn is_ascii_space(c: char) -> bool {
    c == ' ' || c == '\t' || c == '\n' || c == '\x0c' || c == '\r'
}

/// `s` from its first character that is neither an ASCII space nor a semicolon.
pub open spec fn skip_separators(s: Seq<char>) -> Seq<char>
    decreases s.len(),
{
    if s.len() > 0 && (is_ascii_space(s[0]) || s[0] == ';') {
        skip_separators(s.skip(1))
    } else {
        s
    }
}

/// The start of a statement behind separators and comments.
pub open spec fn statement_start(sql: Seq<char>) -> Seq<char> {
    let s = skip_separators(sql);
    if sqltext::opens_line_comment(s) || sqltext::opens_block_comment(s) {
        sqltext::skip_trivia(s)
    } else {
        s
    }
}

/// The characters before the first ASCII space or opening parenthesis.
pub open spec fn first_word(s: Seq<char>) -> Seq<char>
    decreases s.len(),
{
    if s.len() == 0 || is_ascii_space(s[0]) || s[0] == '(' {
        Seq::empty()
    } else {
        seq![s[0]] + first_word(s.skip(1))
    }
}

/// The kind that an upper-case first word stands for.
pub open spec fn kind_of_word(word: Seq<char>) -> StatementKind {
    if word == "CREATE"@ {
        StatementKind::Create
    } else if word == "INSERT"@ {
        StatementKind::Insert
    } else if word == "BEGIN"@ || word == "COMMIT"@ || word == "ROLLBACK"@ || word == "SAVEPOINT"@
        || word == "RELEASE"@ {
        StatementKind::Transaction
    } else if word == "PRAGMA"@ || word == "ATTACH"@ || word == "DETACH"@ || word == "VACUUM"@ {
        StatementKind::Policy
    } else {
        StatementKind::Other
    }
}

/// The kind of a statement.
pub open spec fn kind_of(sql: Seq<char>) -> StatementKind {
    kind_of_word(text::uppercase(first_word(statement_start(sql))))
}

fn is_word(word: &Vec<char>, expected: &str) -> (r: bool)
    ensures
        r == (word@ == expected@),
{
    let e = chars_of(expected);
    same_chars(word, &e)
}

fn kind_for_word(word: &Vec<char>) -> (r: StatementKind)
    ensures
        r == kind_of_word(word@),
{
    if is_word(word, "CREATE") {
        StatementKind::Create
    } else if is_word(word, "INSERT") {
        StatementKind::Insert
    } else if is_word(word, "BEGIN") || is_word(word, "COMMIT") || is_word(word, "ROLLBACK")
        || is_word(word, "SAVEPOINT") || is_word(word, "RELEASE") {
        StatementKind::Transaction
    } else if is_word(word, "PRAGMA") || is_word(word, "ATTACH") || is_word(word, "DETACH")
        || is_word(word, "VACUUM") {
        StatementKind::Policy
    } else {
        StatementKind::Other
    }
}

fn is_ascii_space_char(c: char) -> (r: bool)
    ensures
        r == is_ascii_space(c),
{
    c == ' ' || c == '\t' || c == '\n' || c == '\x0c' || c == '\r'
}

/// The kind of a statement: its first word behind separators and comments, in
/// any letter case.
pub fn statement_kind(sql: &str) -> (r: StatementKind)
    ensures
        r == kind_of(sql@),
{
    let cs = chars_of(sql);
    let mut p: usize = 0;
    assert(cs@.skip(0) =~= cs@);
    while p < cs.len() && (is_ascii_space_char(cs[p]) || cs[p] == ';')
        invariant
            p <= cs@.len(),
            skip_separators(cs@.skip(p as int)) == skip_separators(cs@),
        decreases cs.len() - p,
    {
        assert(cs@.skip(p as int).skip(1) =~= cs@.skip(p + 1));
        p += 1;
    }
    let comment = cs.len() - p >= 2 && ((cs[p] == '-' && cs[p + 1] == '-') || (cs[p] == '/' && cs[p
        + 1] == '*'));
    let start: usize = if comment {
        skip_trivia_at(&cs, p)
    } else {
        p
    };
    let ghost s = statement_start(sql@);
    assert(cs@.skip(start as int) == s);
    let mut word: Vec<char> = Vec::new();
    let mut i: usize = start;
    while i < cs.len() && !is_ascii_space_char(cs[i]) && cs[i] != '('
        invariant
            start <= i <= cs@.len(),
            text::uppercase(first_word(s)) == word@ + text::uppercase(first_word(cs@.skip(i as int))),
        decreases cs.len() - i,
    {
        let ghost rest = cs@.skip(i as int);
        assert(rest.skip(1) =~= cs@.skip(i + 1));
        let ghost before = word@;
        word.push(upper_char(cs[i]));
        assert(text::uppercase(first_word(rest)) =~= seq![text::upper(rest[0])] + text::uppercase(
            first_word(rest.skip(1)),
        ));
        assert(before + text::uppercase(first_word(rest)) =~= word@ + text::uppercase(
            first_word(cs@.skip(i + 1)),
        ));
        i += 1;
    }
    assert(text::uppercase(first_word(s)) =~= word@);
    kind_for_word(&word)
}

} // verus!
