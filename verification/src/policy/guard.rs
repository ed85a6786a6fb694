//! Structural guards on the text of a statement.
//!
//! SQLite does not call the authorizer for the body of a view or trigger when
//! it is created, and it reports an internal reindex for every index that it
//! creates. Both cases are decided here, from the statement's text.
use crate::policy::decision::MutationSignal;
use crate::sqltext;
use crate::sqltext::skip_trivia_at;
use crate::text;
use crate::text::{chars_of, lower_char};
use vstd::prelude::*;

verus! {

/// Why a statement is refused.
#[derive(Debug, Clone, Copy, PartialEq, Eq, Structural)]
pub enum PolicyError {
    Empty,
    Multiple,
    Denied,
    Maintenance,
}

impl PolicyError {
    /// The message of the refusal.
    pub open spec fn message(self) -> Seq<char> {
        match self {
            PolicyError::Empty => "SQL is empty"@,
            PolicyError::Multiple => "multiple SQL statements are not allowed"@,
            PolicyError::Denied => "statement is denied by SQL policy"@,
            PolicyError::Maintenance => "maintenance operations (ANALYZE, REINDEX) are denied"@,
        }
    }

    /// The message of the refusal.
    pub fn as_str(self) -> (r: &'static str)
        ensures
            r@ == self.message(),
    {
        match self {
            PolicyError::Empty => "SQL is empty",
            PolicyError::Multiple => "multiple SQL statements are not allowed",
            PolicyError::Denied => "statement is denied by SQL policy",
            PolicyError::Maintenance => "maintenance operations (ANALYZE, REINDEX) are denied",
        }
    }
}

/// A letter that an unquoted identifier may start with. SQLite takes every
/// character beyond ASCII for one.
pub open spec fn is_letter(c: char) -> bool {
    'a' <= c <= 'z' || 'A' <= c <= 'Z' || c as u32 >= 0x80
}

/// A character of an unquoted identifier.
pub open spec fn is_word_char(c: char) -> bool {
    is_letter(c) || '0' <= c <= '9' || c == '_' || c == '$'
}

/// How many identifier characters `s` starts with.
pub open spec fn word_len(s: Seq<char>) -> nat
    decreases s.len(),
{
    if s.len() > 0 && is_word_char(s[0]) {
        1 + word_len(s.skip(1))
    } else {
        0
    }
}

/// The first token of `s` and what follows it. A token is a run of identifier
/// characters or one other character; white space and comments are skipped.
pub open spec fn next_token(s: Seq<char>) -> Option<(Seq<char>, Seq<char>)> {
    let t = sqltext::skip_trivia(s);
    let n = word_len(t) as int;
    if t.len() == 0 {
        None
    } else if n == 0 {
        Some((t.take(1), t.skip(1)))
    } else {
        Some((t.take(n), t.skip(n)))
    }
}

/// The first identifier-shaped token in lower case, and what follows it.
pub open spec fn next_keyword(s: Seq<char>) -> Option<(Seq<char>, Seq<char>)>
    decreases s.len(),
    via next_keyword_decreases
{
    let t = sqltext::skip_trivia(s);
    let n = word_len(t) as int;
    if t.len() == 0 {
        None
    } else if n == 0 {
        next_keyword(t.skip(1))
    } else {
        Some((text::lowercase(t.take(n)), t.skip(n)))
    }
}

#[via_fn]
proof fn next_keyword_decreases(s: Seq<char>) {
    lemma_skip_trivia_len(s);
}

pub proof fn lemma_skip_trivia_len(s: Seq<char>)
    ensures
        sqltext::skip_trivia(s).len() <= s.len(),
    decreases s.len(),
{
    let t = text::trim_start(s);
    sqltext::lemma_trim_start_len(s);
    if sqltext::opens_line_comment(t) {
        sqltext::lemma_after_line_len(t.skip(2));
        lemma_skip_trivia_len(sqltext::after_line(t.skip(2)));
    } else if sqltext::opens_block_comment(t) {
        sqltext::lemma_after_block_len(t.skip(2));
        lemma_skip_trivia_len(sqltext::after_block(t.skip(2)));
    }
}

pub proof fn lemma_word_len(s: Seq<char>)
    ensures
        word_len(s) <= s.len(),
    decreases s.len(),
{
    if s.len() > 0 && is_word_char(s[0]) {
        lemma_word_len(s.skip(1));
    }
}

/// The keyword that governs a statement: its first one, or, behind `EXPLAIN`
/// and `EXPLAIN QUERY PLAN`, the first one of the explained statement.
pub open spec fn governing_keyword(sql: Seq<char>) -> Option<Seq<char>> {
    match next_keyword(sql) {
        None => None,
        Some((first, rest)) => if first != "explain"@ {
            Some(first)
        } else {
            match next_keyword(rest) {
                None => None,
                Some((inner, after_inner)) => if inner != "query"@ {
                    Some(inner)
                } else {
                    match next_keyword(after_inner) {
                        Some((plan, after_plan)) if plan == "plan"@ => match next_keyword(
                            after_plan,
                        ) {
                            Some((governing, _)) => Some(governing),
                            None => None,
                        },
                        _ => Some(inner),
                    }
                },
            }
        },
    }
}

/// A statement that maintains the database file: `ANALYZE` or `REINDEX`.
pub open spec fn is_maintenance(sql: Seq<char>) -> bool {
    governing_keyword(sql) == Some("analyze"@) || governing_keyword(sql) == Some("reindex"@)
}

/// What follows the closing `q`; a doubled `q` closes nothing.
pub open spec fn after_quote(s: Seq<char>, q: char) -> Seq<char>
    decreases s.len(),
{
    if s.len() == 0 {
        s
    } else if s[0] == q {
        if s.len() >= 2 && s[1] == q {
            after_quote(s.skip(2), q)
        } else {
            s.skip(1)
        }
    } else {
        after_quote(s.skip(1), q)
    }
}

/// What follows the first closing bracket.
pub open spec fn after_bracket(s: Seq<char>) -> Seq<char>
    decreases s.len(),
{
    if s.len() == 0 {
        s
    } else if s[0] == ']' {
        s.skip(1)
    } else {
        after_bracket(s.skip(1))
    }
}

pub proof fn lemma_after_quote_len(s: Seq<char>, q: char)
    ensures
        after_quote(s, q).len() <= s.len(),
    decreases s.len(),
{
    if s.len() > 0 {
        if s[0] == q {
            if s.len() >= 2 && s[1] == q {
                lemma_after_quote_len(s.skip(2), q);
            }
        } else {
            lemma_after_quote_len(s.skip(1), q);
        }
    }
}

pub proof fn lemma_after_bracket_len(s: Seq<char>)
    ensures
        after_bracket(s).len() <= s.len(),
    decreases s.len(),
{
    if s.len() > 0 && s[0] != ']' {
        lemma_after_bracket_len(s.skip(1));
    }
}

/// What follows one component of an object name: a quoted identifier, or one
/// token.
pub open spec fn after_component(s: Seq<char>) -> Seq<char> {
    let t = sqltext::skip_trivia(s);
    if t.len() > 0 && (t[0] == '"' || t[0] == '`') {
        after_quote(t.skip(1), t[0])
    } else if t.len() > 0 && t[0] == '[' {
        after_bracket(t.skip(1))
    } else {
        match next_token(t) {
            Some((_, rest)) => rest,
            None => t,
        }
    }
}

pub proof fn lemma_after_component_len(s: Seq<char>)
    ensures
        after_component(s).len() <= s.len(),
{
    let t = sqltext::skip_trivia(s);
    lemma_skip_trivia_len(s);
    lemma_skip_trivia_len(t);
    if t.len() > 0 {
        lemma_after_quote_len(t.skip(1), t[0]);
        lemma_after_bracket_len(t.skip(1));
    }
    lemma_word_len(sqltext::skip_trivia(t));
}

/// What follows the components of an object name that come after the first:
/// each one stands behind a dot.
pub open spec fn after_qualifiers(s: Seq<char>) -> Seq<char>
    decreases s.len(),
    via after_qualifiers_decreases
{
    let t = sqltext::skip_trivia(s);
    if t.len() > 0 && t[0] == '.' {
        after_qualifiers(after_component(t.skip(1)))
    } else {
        t
    }
}

#[via_fn]
proof fn after_qualifiers_decreases(s: Seq<char>) {
    let t = sqltext::skip_trivia(s);
    lemma_skip_trivia_len(s);
    if t.len() > 0 {
        lemma_after_component_len(t.skip(1));
    }
}

/// What follows the parenthesis that closes the outermost of `depth` open
/// ones. Quoted text and bracket identifiers hold no parenthesis.
pub open spec fn after_group(s: Seq<char>, depth: int) -> Seq<char>
    decreases s.len(),
    via after_group_decreases
{
    if s.len() == 0 {
        s
    } else if s[0] == '(' {
        after_group(s.skip(1), depth + 1)
    } else if s[0] == ')' {
        if depth == 1 {
            s.skip(1)
        } else {
            after_group(s.skip(1), depth - 1)
        }
    } else if s[0] == '"' || s[0] == '`' || s[0] == '\'' {
        after_group(after_quote(s.skip(1), s[0]), depth)
    } else if s[0] == '[' {
        after_group(after_bracket(s.skip(1)), depth)
    } else {
        after_group(s.skip(1), depth)
    }
}

#[via_fn]
proof fn after_group_decreases(s: Seq<char>, depth: int) {
    if s.len() > 0 {
        lemma_after_quote_len(s.skip(1), s[0]);
        lemma_after_bracket_len(s.skip(1));
    }
}

/// What follows a parenthesized list, where one comes next.
pub open spec fn after_list(s: Seq<char>) -> Seq<char> {
    let t = sqltext::skip_trivia(s);
    if t.len() > 0 && t[0] == '(' {
        after_group(t, 0)
    } else {
        t
    }
}

/// What follows `word`, where it comes next as a whole word in any case; else all
/// of `s`.
pub open spec fn after_word(s: Seq<char>, word: Seq<char>) -> Seq<char> {
    let t = sqltext::skip_trivia(s);
    let lowered = text::lowercase(t);
    let n = word.len() as int;
    if word.is_prefix_of(lowered) && !(n < t.len() && is_word_char(lowered[n])) {
        t.skip(n)
    } else {
        s
    }
}

/// What follows the name and the column list of a view or trigger.
pub open spec fn after_heading(s: Seq<char>) -> Seq<char> {
    let named = after_word(after_word(after_word(s, "if"@), "not"@), "exists"@);
    after_list(after_qualifiers(after_component(named)))
}

pub open spec fn token_is(t: Option<(Seq<char>, Seq<char>)>, word: Seq<char>) -> bool {
    t matches Some((token, _)) && text::lowercase(token) == word
}

/// What follows a token.
pub open spec fn rest_of(t: Option<(Seq<char>, Seq<char>)>) -> Seq<char> {
    match t {
        Some((_, rest)) => rest,
        None => Seq::empty(),
    }
}

/// The stored body of a statement that creates a view or trigger.
pub open spec fn stored_body(sql: Seq<char>) -> Option<Seq<char>> {
    let create = next_token(sql);
    let kind = next_token(rest_of(create));
    let temporary = token_is(kind, "temp"@) || token_is(kind, "temporary"@);
    let object = if temporary {
        next_token(rest_of(kind))
    } else {
        kind
    };
    if token_is(create, "create"@) && (token_is(object, "view"@) || token_is(object, "trigger"@)) {
        Some(after_heading(rest_of(object)))
    } else {
        None
    }
}

/// One lexeme of a stored body, as far as calls are concerned.
pub enum Lexeme {
    /// An identifier, without its quotes.
    Name(Seq<char>),
    /// An opening parenthesis.
    Open,
    /// Anything else that is no white space and no comment.
    Other,
}

/// The characters of a quoted identifier, with doubled quotes as one.
pub open spec fn quoted_name(s: Seq<char>, q: char) -> Seq<char>
    decreases s.len(),
{
    if s.len() == 0 {
        s
    } else if s[0] == q {
        if s.len() >= 2 && s[1] == q {
            seq![q] + quoted_name(s.skip(2), q)
        } else {
            Seq::empty()
        }
    } else {
        seq![s[0]] + quoted_name(s.skip(1), q)
    }
}

/// Whether the quote closes.
pub open spec fn quote_closes(s: Seq<char>, q: char) -> bool
    decreases s.len(),
{
    if s.len() == 0 {
        false
    } else if s[0] == q {
        if s.len() >= 2 && s[1] == q {
            quote_closes(s.skip(2), q)
        } else {
            true
        }
    } else {
        quote_closes(s.skip(1), q)
    }
}

/// The characters before the first closing bracket.
pub open spec fn bracket_name(s: Seq<char>) -> Seq<char>
    decreases s.len(),
{
    if s.len() == 0 || s[0] == ']' {
        Seq::empty()
    } else {
        seq![s[0]] + bracket_name(s.skip(1))
    }
}

/// The lexemes of a text.
pub open spec fn lexemes(s: Seq<char>) -> Seq<Lexeme>
    decreases s.len(),
    via lexemes_decreases
{
    if s.len() == 0 {
        Seq::empty()
    } else {
        let rest = s.skip(1);
        if s[0] == '"' || s[0] == '`' {
            let name = if quote_closes(rest, s[0]) {
                Lexeme::Name(quoted_name(rest, s[0]))
            } else {
                Lexeme::Other
            };
            seq![name] + lexemes(after_quote(rest, s[0]))
        } else if s[0] == '[' {
            let name = if rest.contains(']') {
                Lexeme::Name(bracket_name(rest))
            } else {
                Lexeme::Other
            };
            seq![name] + lexemes(after_bracket(rest))
        } else if s[0] == '\'' {
            seq![Lexeme::Other] + lexemes(after_quote(rest, '\''))
        } else if sqltext::opens_line_comment(s) {
            lexemes(sqltext::after_line(s.skip(2)))
        } else if sqltext::opens_block_comment(s) {
            lexemes(sqltext::after_block(s.skip(2)))
        } else if text::is_space(s[0]) {
            lexemes(rest)
        } else if s[0] == '(' {
            seq![Lexeme::Open] + lexemes(rest)
        } else if is_letter(s[0]) || s[0] == '_' || s[0] == '$' {
            let n = 1 + word_len(rest) as int;
            seq![Lexeme::Name(s.take(n))] + lexemes(s.skip(n))
        } else {
            seq![Lexeme::Other] + lexemes(rest)
        }
    }
}

#[via_fn]
proof fn lexemes_decreases(s: Seq<char>) {
    if s.len() > 0 {
        lemma_after_quote_len(s.skip(1), s[0]);
        lemma_after_bracket_len(s.skip(1));
        lemma_word_len(s.skip(1));
        if s.len() >= 2 {
            sqltext::lemma_after_line_len(s.skip(2));
            sqltext::lemma_after_block_len(s.skip(2));
        }
    }
}

/// A name that starts with `pragma_` in any case.
pub open spec fn is_pragma_name(l: Lexeme) -> bool {
    l matches Lexeme::Name(name) && "pragma_"@.is_prefix_of(text::lowercase(name))
}

/// A pragma name stands directly before an opening parenthesis.
pub open spec fn has_pragma_call(lexed: Seq<Lexeme>) -> bool {
    exists|k: int|
        0 <= k < lexed.len() - 1 && is_pragma_name(#[trigger] lexed[k]) && lexed[k + 1] is Open
}

/// The text calls a pragma table-valued function.
pub open spec fn calls_pragma(s: Seq<char>) -> bool {
    has_pragma_call(lexemes(s))
}

pub(crate) proof fn lemma_word_len_exact(s: Seq<char>, n: int)
    requires
        0 <= n <= s.len(),
        forall|i: int| 0 <= i < n ==> is_word_char(#[trigger] s[i]),
        n < s.len() ==> !is_word_char(s[n]),
    ensures
        word_len(s) == n,
    decreases n,
{
    if n > 0 {
        assert(is_word_char(s[0]));
        assert forall|i: int| 0 <= i < n - 1 implies is_word_char(#[trigger] s.skip(1)[i]) by {
            assert(s.skip(1)[i] == s[i + 1]);
        }
        lemma_word_len_exact(s.skip(1), n - 1);
    }
}

pub(crate) proof fn lemma_gap_is_trimmed(gap: Seq<char>, rest: Seq<char>)
    requires
        text::blank(gap),
    ensures
        text::trim_start(gap + rest) == text::trim_start(rest),
    decreases gap.len(),
{
    if gap.len() > 0 {
        assert((gap + rest).skip(1) =~= gap.skip(1) + rest);
        assert(text::is_space(gap[0]));
        assert forall|i: int| 0 <= i < gap.skip(1).len() implies text::is_space(
            #[trigger] gap.skip(1)[i],
        ) by {
            assert(gap.skip(1)[i] == gap[i + 1]);
        }
        lemma_gap_is_trimmed(gap.skip(1), rest);
    } else {
        assert(gap + rest =~= rest);
    }
}

/// White space of ASCII, and some of it.
pub open spec fn is_gap(gap: Seq<char>) -> bool {
    gap.len() > 0 && forall|i: int|
        0 <= i < gap.len() ==> text::is_space(#[trigger] gap[i]) && (gap[i] as u32) < 0x80
}

/// A keyword that white space follows is found, and so is the next one.
pub(crate) proof fn lemma_leading_keyword(word: Seq<char>, lowered: Seq<char>, gap: Seq<char>, rest: Seq<char>)
    requires
        text::lowercase(word) == lowered,
        lowered.len() > 0,
        forall|i: int| 0 <= i < lowered.len() ==> 'a' <= #[trigger] lowered[i] <= 'z',
        is_gap(gap),
    ensures
        next_keyword(word + gap + rest) == Some((lowered, gap + rest)),
        next_keyword(gap + rest) == next_keyword(rest),
{
    let s = word + gap + rest;
    let n = word.len() as int;
    assert(lowered.len() == n);
    assert forall|i: int| 0 <= i < n implies is_word_char(#[trigger] s[i]) && s[i] != '-' && s[i]
        != '/' && !text::is_space(s[i]) by {
        assert(s[i] == word[i]);
        assert(text::lowercase(word)[i] == text::lower(word[i]));
        assert('a' <= lowered[i] <= 'z');
    }
    assert(s[n] == gap[0]);
    assert(text::is_space(gap[0]) && (gap[0] as u32) < 0x80);
    lemma_word_len_exact(s, n);
    assert(text::trim_start(s) == s);
    assert(sqltext::skip_trivia(s) == s);
    assert(s.take(n) =~= word);
    assert(s.skip(n) =~= gap + rest);
    lemma_gap_is_trimmed(gap, rest);
    assert(sqltext::skip_trivia(gap + rest) == sqltext::skip_trivia(rest));
}

/// The first keyword of a statement is neither of the words that only introduce
/// another statement.
pub open spec fn is_plain(sql: Seq<char>) -> bool {
    next_keyword(sql) matches Some((word, _)) ==> word != "explain"@ && word != "query"@
}

/// Explaining a statement changes nothing about what it is: behind `EXPLAIN` and
/// `EXPLAIN QUERY PLAN`, in whatever case they are written, a statement is refused
/// as maintenance exactly if it is refused by itself.
pub proof fn explaining_keeps_the_verdict(
    sql: Seq<char>,
    explain: Seq<char>,
    query: Seq<char>,
    plan: Seq<char>,
    gap: Seq<char>,
)
    requires
        is_plain(sql),
        text::lowercase(explain) == "explain"@,
        text::lowercase(query) == "query"@,
        text::lowercase(plan) == "plan"@,
        is_gap(gap),
    ensures
        is_maintenance(explain + gap + sql) == is_maintenance(sql),
        is_maintenance(explain + gap + (query + gap + (plan + gap + sql))) == is_maintenance(sql),
{
    reveal_strlit("explain");
    reveal_strlit("query");
    reveal_strlit("plan");
    assert("query"@[0] == 'q' && "explain"@[0] == 'e' && "plan"@[0] == 'p');
    assert("query"@ != "explain"@);
    lemma_leading_keyword(explain, "explain"@, gap, sql);
    let planned = plan + gap + sql;
    let queried = query + gap + planned;
    lemma_leading_keyword(plan, "plan"@, gap, sql);
    lemma_leading_keyword(query, "query"@, gap, planned);
    lemma_leading_keyword(explain, "explain"@, gap, queried);
}

/// Nothing but white space and comments, each of which ends within the text.
pub open spec fn is_trivia(s: Seq<char>) -> bool
    decreases s.len(),
    via is_trivia_decreases
{
    if s.len() == 0 {
        true
    } else if text::is_space(s[0]) {
        is_trivia(s.skip(1))
    } else if sqltext::opens_line_comment(s) {
        s.skip(2).contains('\n') && is_trivia(sqltext::after_line(s.skip(2)))
    } else if sqltext::opens_block_comment(s) {
        closes_block(s.skip(2)) && is_trivia(sqltext::after_block(s.skip(2)))
    } else {
        false
    }
}

#[via_fn]
proof fn is_trivia_decreases(s: Seq<char>) {
    if s.len() >= 2 {
        sqltext::lemma_after_line_len(s.skip(2));
        sqltext::lemma_after_block_len(s.skip(2));
    }
}

/// The text closes a block comment.
pub open spec fn closes_block(s: Seq<char>) -> bool
    decreases s.len(),
{
    s.len() >= 2 && (s[0] == '*' && s[1] == '/' || closes_block(s.skip(1)))
}

proof fn lemma_line_ends_within(s: Seq<char>, rest: Seq<char>)
    requires
        s.contains('\n'),
    ensures
        sqltext::after_line(s + rest) == sqltext::after_line(s) + rest,
    decreases s.len(),
{
    let i = choose|i: int| 0 <= i < s.len() && s[i] == '\n';
    assert((s + rest)[0] == s[0]);
    assert((s + rest).skip(1) =~= s.skip(1) + rest);
    if s[0] != '\n' {
        assert(s.skip(1)[i - 1] == '\n');
        lemma_line_ends_within(s.skip(1), rest);
    }
}

proof fn lemma_block_ends_within(s: Seq<char>, rest: Seq<char>)
    requires
        closes_block(s),
    ensures
        sqltext::after_block(s + rest) == sqltext::after_block(s) + rest,
    decreases s.len(),
{
    assert((s + rest)[0] == s[0] && (s + rest)[1] == s[1]);
    if s[0] == '*' && s[1] == '/' {
        assert((s + rest).skip(2) =~= s.skip(2) + rest);
    } else {
        assert((s + rest).skip(1) =~= s.skip(1) + rest);
        lemma_block_ends_within(s.skip(1), rest);
    }
}

proof fn lemma_trivia_is_skipped(trivia: Seq<char>, rest: Seq<char>)
    requires
        is_trivia(trivia),
    ensures
        sqltext::skip_trivia(trivia + rest) == sqltext::skip_trivia(rest),
    decreases trivia.len(),
{
    let s = trivia + rest;
    if trivia.len() == 0 {
        assert(s =~= rest);
    } else {
        assert(s[0] == trivia[0]);
        if text::is_space(trivia[0]) {
            assert(s.skip(1) =~= trivia.skip(1) + rest);
            lemma_trivia_is_skipped(trivia.skip(1), rest);
            assert(text::trim_start(s) == text::trim_start(s.skip(1)));
        } else {
            assert(s[1] == trivia[1]);
            assert(text::trim_start(s) == s);
            let inner = trivia.skip(2);
            assert(s.skip(2) =~= inner + rest);
            sqltext::lemma_after_line_len(inner);
            sqltext::lemma_after_block_len(inner);
            if sqltext::opens_line_comment(trivia) {
                lemma_line_ends_within(inner, rest);
                lemma_trivia_is_skipped(sqltext::after_line(inner), rest);
            } else {
                lemma_block_ends_within(inner, rest);
                lemma_trivia_is_skipped(sqltext::after_block(inner), rest);
            }
        }
    }
}

/// White space and comments before a statement change nothing about what it is.
pub proof fn leading_comments_keep_the_verdict(trivia: Seq<char>, sql: Seq<char>)
    requires
        is_trivia(trivia),
    ensures
        is_maintenance(trivia + sql) == is_maintenance(sql),
{
    lemma_trivia_is_skipped(trivia, sql);
    assert(next_keyword(trivia + sql) == next_keyword(sql));
}

/// The texts differ in the case of ASCII letters at most.
pub open spec fn same_but_case(a: Seq<char>, b: Seq<char>) -> bool {
    text::lowercase(a) == text::lowercase(b)
}

proof fn lemma_same_char(a: Seq<char>, b: Seq<char>, i: int)
    requires
        same_but_case(a, b),
        0 <= i < a.len(),
    ensures
        a.len() == b.len(),
        text::lower(a[i]) == text::lower(b[i]),
        text::is_space(a[i]) == text::is_space(b[i]),
        is_word_char(a[i]) == is_word_char(b[i]),
        (a[i] == '-') == (b[i] == '-'),
        (a[i] == '/') == (b[i] == '/'),
        (a[i] == '*') == (b[i] == '*'),
        (a[i] == '\n') == (b[i] == '\n'),
{
    assert(text::lowercase(a).len() == a.len() && text::lowercase(b).len() == b.len());
    assert(text::lowercase(a)[i] == text::lower(a[i]));
    assert(text::lowercase(b)[i] == text::lower(b[i]));
}

proof fn lemma_same_skip(a: Seq<char>, b: Seq<char>, n: int)
    requires
        same_but_case(a, b),
        0 <= n <= a.len(),
    ensures
        a.len() == b.len(),
        same_but_case(a.skip(n), b.skip(n)),
        same_but_case(a.take(n), b.take(n)),
{
    assert(text::lowercase(a).len() == a.len() && text::lowercase(b).len() == b.len());
    assert(text::lowercase(a.skip(n)) =~= text::lowercase(a).skip(n));
    assert(text::lowercase(b.skip(n)) =~= text::lowercase(b).skip(n));
    assert(text::lowercase(a.take(n)) =~= text::lowercase(a).take(n));
    assert(text::lowercase(b.take(n)) =~= text::lowercase(b).take(n));
}

proof fn lemma_same_trim(a: Seq<char>, b: Seq<char>)
    requires
        same_but_case(a, b),
    ensures
        same_but_case(text::trim_start(a), text::trim_start(b)),
    decreases a.len(),
{
    assert(text::lowercase(a).len() == a.len() && text::lowercase(b).len() == b.len());
    if a.len() > 0 {
        lemma_same_char(a, b, 0);
        lemma_same_skip(a, b, 1);
        if text::is_space(a[0]) {
            lemma_same_trim(a.skip(1), b.skip(1));
        }
    }
}

proof fn lemma_same_after_line(a: Seq<char>, b: Seq<char>)
    requires
        same_but_case(a, b),
    ensures
        same_but_case(sqltext::after_line(a), sqltext::after_line(b)),
    decreases a.len(),
{
    assert(text::lowercase(a).len() == a.len() && text::lowercase(b).len() == b.len());
    if a.len() > 0 {
        lemma_same_char(a, b, 0);
        lemma_same_skip(a, b, 1);
        if a[0] != '\n' {
            lemma_same_after_line(a.skip(1), b.skip(1));
        }
    }
}

proof fn lemma_same_after_block(a: Seq<char>, b: Seq<char>)
    requires
        same_but_case(a, b),
    ensures
        same_but_case(sqltext::after_block(a), sqltext::after_block(b)),
    decreases a.len(),
{
    assert(text::lowercase(a).len() == a.len() && text::lowercase(b).len() == b.len());
    if a.len() >= 2 {
        lemma_same_char(a, b, 0);
        lemma_same_char(a, b, 1);
        lemma_same_skip(a, b, 1);
        lemma_same_skip(a, b, 2);
        if !(a[0] == '*' && a[1] == '/') {
            lemma_same_after_block(a.skip(1), b.skip(1));
        }
    }
}

proof fn lemma_same_skip_trivia(a: Seq<char>, b: Seq<char>)
    requires
        same_but_case(a, b),
    ensures
        same_but_case(sqltext::skip_trivia(a), sqltext::skip_trivia(b)),
    decreases a.len(),
{
    let t = text::trim_start(a);
    let u = text::trim_start(b);
    lemma_same_trim(a, b);
    sqltext::lemma_trim_start_len(a);
    assert(text::lowercase(t).len() == t.len() && text::lowercase(u).len() == u.len());
    if t.len() >= 2 {
        lemma_same_char(t, u, 0);
        lemma_same_char(t, u, 1);
        lemma_same_skip(t, u, 2);
        if sqltext::opens_line_comment(t) {
            lemma_same_after_line(t.skip(2), u.skip(2));
            sqltext::lemma_after_line_len(t.skip(2));
            lemma_same_skip_trivia(sqltext::after_line(t.skip(2)), sqltext::after_line(u.skip(2)));
        } else if sqltext::opens_block_comment(t) {
            lemma_same_after_block(t.skip(2), u.skip(2));
            sqltext::lemma_after_block_len(t.skip(2));
            lemma_same_skip_trivia(
                sqltext::after_block(t.skip(2)),
                sqltext::after_block(u.skip(2)),
            );
        }
    }
}

proof fn lemma_same_word_len(a: Seq<char>, b: Seq<char>)
    requires
        same_but_case(a, b),
    ensures
        word_len(a) == word_len(b),
    decreases a.len(),
{
    assert(text::lowercase(a).len() == a.len() && text::lowercase(b).len() == b.len());
    if a.len() > 0 {
        lemma_same_char(a, b, 0);
        lemma_same_skip(a, b, 1);
        lemma_same_word_len(a.skip(1), b.skip(1));
    }
}

proof fn lemma_same_keyword(a: Seq<char>, b: Seq<char>)
    requires
        same_but_case(a, b),
    ensures
        match (next_keyword(a), next_keyword(b)) {
            (None, None) => true,
            (Some((v, x)), Some((w, y))) => v == w && same_but_case(x, y),
            _ => false,
        },
    decreases a.len(),
{
    let t = sqltext::skip_trivia(a);
    let u = sqltext::skip_trivia(b);
    lemma_same_skip_trivia(a, b);
    lemma_skip_trivia_len(a);
    lemma_same_word_len(t, u);
    lemma_word_len(t);
    assert(text::lowercase(t).len() == t.len() && text::lowercase(u).len() == u.len());
    if t.len() > 0 {
        if word_len(t) == 0 {
            lemma_same_skip(t, u, 1);
            lemma_same_keyword(t.skip(1), u.skip(1));
        } else {
            lemma_same_skip(t, u, word_len(t) as int);
        }
    }
}

/// The case of letters changes nothing about what a statement is.
pub proof fn case_keeps_the_verdict(a: Seq<char>, b: Seq<char>)
    requires
        same_but_case(a, b),
    ensures
        is_maintenance(a) == is_maintenance(b),
{
    lemma_same_keyword(a, b);
    if next_keyword(a) is Some {
        let (_, x) = next_keyword(a)->0;
        let (_, y) = next_keyword(b)->0;
        lemma_same_keyword(x, y);
        if next_keyword(x) is Some {
            let (_, p) = next_keyword(x)->0;
            let (_, q) = next_keyword(y)->0;
            lemma_same_keyword(p, q);
            if next_keyword(p) is Some {
                let (_, m) = next_keyword(p)->0;
                let (_, n) = next_keyword(q)->0;
                lemma_same_keyword(m, n);
            }
        }
    }
}

fn is_word(c: char) -> (r: bool)
    ensures
        r == is_word_char(c),
{
    is_letter_char(c) || ('0' <= c && c <= '9') || c == '_' || c == '$'
}

fn is_letter_char(c: char) -> (r: bool)
    ensures
        r == is_letter(c),
{
    ('a' <= c && c <= 'z') || ('A' <= c && c <= 'Z') || c as u32 >= 0x80
}

/// The position behind the identifier characters at `i`.
fn word_end(cs: &Vec<char>, i: usize) -> (r: usize)
    requires
        i <= cs@.len(),
    ensures
        i <= r <= cs@.len(),
        r - i == word_len(cs@.skip(i as int)),
{
    let mut p: usize = i;
    while p < cs.len() && is_word(cs[p])
        invariant
            i <= p <= cs@.len(),
            word_len(cs@.skip(i as int)) == (p - i) + word_len(cs@.skip(p as int)),
        decreases cs.len() - p,
    {
        assert(cs@.skip(p as int).skip(1) =~= cs@.skip(p + 1));
        p += 1;
    }
    p
}

/// The bounds of the first token at or after `i`.
fn token_at(cs: &Vec<char>, i: usize) -> (r: Option<(usize, usize)>)
    requires
        i <= cs@.len(),
    ensures
        match r {
            Some((lo, hi)) => i <= lo < hi <= cs@.len() && next_token(cs@.skip(i as int)) == Some(
                (cs@.subrange(lo as int, hi as int), cs@.skip(hi as int)),
            ),
            None => next_token(cs@.skip(i as int)) is None,
        },
{
    let lo: usize = skip_trivia_at(cs, i);
    if lo == cs.len() {
        return None;
    }
    let ghost t = cs@.skip(lo as int);
    let end: usize = word_end(cs, lo);
    let hi: usize = if end == lo {
        lo + 1
    } else {
        end
    };
    assert(t.take(hi - lo) =~= cs@.subrange(lo as int, hi as int));
    assert(t.skip(hi - lo) =~= cs@.skip(hi as int));
    Some((lo, hi))
}

/// The first identifier-shaped token at or after `i` in lower case, and the
/// position behind it.
fn keyword_at(cs: &Vec<char>, i: usize) -> (r: Option<(Vec<char>, usize)>)
    requires
        i <= cs@.len(),
    ensures
        match r {
            Some((word, at)) => at <= cs@.len() && next_keyword(cs@.skip(i as int)) == Some(
                (word@, cs@.skip(at as int)),
            ),
            None => next_keyword(cs@.skip(i as int)) is None,
        },
{
    let mut p: usize = i;
    loop
        invariant
            i <= p <= cs@.len(),
            next_keyword(cs@.skip(p as int)) == next_keyword(cs@.skip(i as int)),
        decreases cs.len() - p,
    {
        let lo: usize = skip_trivia_at(cs, p);
        if lo == cs.len() {
            return None;
        }
        let end: usize = word_end(cs, lo);
        let ghost t = cs@.skip(lo as int);
        if end == lo {
            assert(t.skip(1) =~= cs@.skip(lo + 1));
            p = lo + 1;
        } else {
            let word = lowered(cs, lo, end);
            assert(t.take(end - lo) =~= cs@.subrange(lo as int, end as int));
            assert(t.skip(end - lo) =~= cs@.skip(end as int));
            return Some((word, end));
        }
    }
}

/// The characters between two positions in lower case.
fn lowered(cs: &Vec<char>, lo: usize, hi: usize) -> (r: Vec<char>)
    requires
        lo <= hi <= cs@.len(),
    ensures
        r@ == text::lowercase(cs@.subrange(lo as int, hi as int)),
{
    let mut out: Vec<char> = Vec::new();
    let mut i: usize = lo;
    while i < hi
        invariant
            lo <= i <= hi <= cs@.len(),
            out@ == text::lowercase(cs@.subrange(lo as int, i as int)),
        decreases hi - i,
    {
        out.push(lower_char(cs[i]));
        i += 1;
        assert(out@ =~= text::lowercase(cs@.subrange(lo as int, i as int)));
    }
    out
}

fn is_text(word: &Vec<char>, expected: &str) -> (r: bool)
    ensures
        r == (word@ == expected@),
{
    let e = chars_of(expected);
    text::same_chars(word, &e)
}

fn governing_word(cs: &Vec<char>) -> (r: Option<Vec<char>>)
    ensures
        match r {
            Some(word) => governing_keyword(cs@) == Some(word@),
            None => governing_keyword(cs@) is None,
        },
{
    assert(cs@.skip(0) =~= cs@);
    match keyword_at(cs, 0) {
        None => None,
        Some((first, rest)) => {
            if !is_text(&first, "explain") {
                return Some(first);
            }
            match keyword_at(cs, rest) {
                None => None,
                Some((inner, after_inner)) => {
                    if !is_text(&inner, "query") {
                        return Some(inner);
                    }
                    match keyword_at(cs, after_inner) {
                        None => Some(inner),
                        Some((plan, after_plan)) => {
                            if !is_text(&plan, "plan") {
                                return Some(inner);
                            }
                            match keyword_at(cs, after_plan) {
                                None => None,
                                Some((word, _)) => Some(word),
                            }
                        },
                    }
                },
            }
        },
    }
}

/// Refuses maintenance statements at the top level, also behind `EXPLAIN`.
///
/// The first keyword of a statement cannot be an identifier, so names and
/// literals such as `reindex` are not affected.
pub fn check_maintenance(sql: &str) -> (r: Result<(), PolicyError>)
    ensures
        r == if is_maintenance(sql@) {
            Err::<(), PolicyError>(PolicyError::Maintenance)
        } else {
            Ok(())
        },
{
    let cs = chars_of(sql);
    match governing_word(&cs) {
        Some(word) => if is_text(&word, "analyze") || is_text(&word, "reindex") {
            Err(PolicyError::Maintenance)
        } else {
            Ok(())
        },
        None => Ok(()),
    }
}

fn after_quote_at(cs: &Vec<char>, i: usize, q: char) -> (r: usize)
    requires
        i <= cs@.len(),
    ensures
        i <= r <= cs@.len(),
        cs@.skip(r as int) == after_quote(cs@.skip(i as int), q),
{
    let mut p: usize = i;
    while p < cs.len()
        invariant
            i <= p <= cs@.len(),
            after_quote(cs@.skip(p as int), q) == after_quote(cs@.skip(i as int), q),
        decreases cs.len() - p,
    {
        let ghost s = cs@.skip(p as int);
        assert(s.skip(1) =~= cs@.skip(p + 1));
        if cs[p] == q {
            if cs.len() - p >= 2 && cs[p + 1] == q {
                assert(s.skip(2) =~= cs@.skip(p + 2));
                p += 2;
            } else {
                return p + 1;
            }
        } else {
            p += 1;
        }
    }
    p
}

fn after_bracket_at(cs: &Vec<char>, i: usize) -> (r: usize)
    requires
        i <= cs@.len(),
    ensures
        i <= r <= cs@.len(),
        cs@.skip(r as int) == after_bracket(cs@.skip(i as int)),
{
    let mut p: usize = i;
    while p < cs.len()
        invariant
            i <= p <= cs@.len(),
            after_bracket(cs@.skip(p as int)) == after_bracket(cs@.skip(i as int)),
        decreases cs.len() - p,
    {
        assert(cs@.skip(p as int).skip(1) =~= cs@.skip(p + 1));
        if cs[p] == ']' {
            return p + 1;
        }
        p += 1;
    }
    p
}

fn after_component_at(cs: &Vec<char>, i: usize) -> (r: usize)
    requires
        i <= cs@.len(),
    ensures
        i <= r <= cs@.len(),
        cs@.skip(r as int) == after_component(cs@.skip(i as int)),
{
    let p: usize = skip_trivia_at(cs, i);
    if p < cs.len() {
        assert(cs@.skip(p as int).skip(1) =~= cs@.skip(p + 1));
        let c: char = cs[p];
        if c == '"' || c == '`' {
            return after_quote_at(cs, p + 1, c);
        }
        if c == '[' {
            return after_bracket_at(cs, p + 1);
        }
    }
    match token_at(cs, p) {
        Some((_, hi)) => hi,
        None => p,
    }
}

fn after_qualifiers_at(cs: &Vec<char>, i: usize) -> (r: usize)
    requires
        i <= cs@.len(),
    ensures
        i <= r <= cs@.len(),
        cs@.skip(r as int) == after_qualifiers(cs@.skip(i as int)),
{
    let mut p: usize = i;
    loop
        invariant
            i <= p <= cs@.len(),
            after_qualifiers(cs@.skip(p as int)) == after_qualifiers(cs@.skip(i as int)),
        decreases cs.len() - p,
    {
        let q: usize = skip_trivia_at(cs, p);
        if q < cs.len() && cs[q] == '.' {
            assert(cs@.skip(q as int).skip(1) =~= cs@.skip(q + 1));
            p = after_component_at(cs, q + 1);
        } else {
            return q;
        }
    }
}

fn after_list_at(cs: &Vec<char>, i: usize) -> (r: usize)
    requires
        i <= cs@.len(),
    ensures
        i <= r <= cs@.len(),
        cs@.skip(r as int) == after_list(cs@.skip(i as int)),
{
    let start: usize = skip_trivia_at(cs, i);
    if start == cs.len() || cs[start] != '(' {
        return start;
    }
    let mut depth: usize = 0;
    let mut p: usize = start;
    while p < cs.len()
        invariant
            i <= start <= p <= cs@.len(),
            cs@.skip(start as int) == sqltext::skip_trivia(cs@.skip(i as int)),
            depth <= p - start,
            p > start ==> depth > 0,
            start < cs@.len() && cs@[start as int] == '(',
            after_group(cs@.skip(p as int), depth as int) == after_group(cs@.skip(start as int), 0),
        decreases cs.len() - p,
    {
        let c: char = cs[p];
        assert(cs@.skip(p as int).skip(1) =~= cs@.skip(p + 1));
        if c == '(' {
            depth += 1;
            p += 1;
        } else if c == ')' {
            if depth == 1 {
                return p + 1;
            }
            depth -= 1;
            p += 1;
        } else if c == '"' || c == '`' || c == '\'' {
            p = after_quote_at(cs, p + 1, c);
        } else if c == '[' {
            p = after_bracket_at(cs, p + 1);
        } else {
            p += 1;
        }
    }
    p
}

fn after_word_at(cs: &Vec<char>, i: usize, word: &str) -> (r: usize)
    requires
        i <= cs@.len(),
    ensures
        i <= r <= cs@.len(),
        cs@.skip(r as int) == after_word(cs@.skip(i as int), word@),
{
    let p: usize = skip_trivia_at(cs, i);
    let w = chars_of(word);
    let n: usize = w.len();
    let ghost t = cs@.skip(p as int);
    if cs.len() - p < n {
        return i;
    }
    let found = lowered(cs, p, p + n);
    assert(text::lowercase(t).subrange(0, n as int) =~= found@);
    if !text::same_chars(&found, &w) {
        return i;
    }
    if n < cs.len() - p && is_word(lower_char(cs[p + n])) {
        return i;
    }
    assert(t.skip(n as int) =~= cs@.skip(p + n));
    p + n
}

fn token_text_is(cs: &Vec<char>, bounds: Option<(usize, usize)>, word: &str) -> (r: bool)
    requires
        bounds matches Some((lo, hi)) ==> lo <= hi <= cs@.len(),
    ensures
        r == (bounds matches Some((lo, hi)) && text::lowercase(
            cs@.subrange(lo as int, hi as int),
        ) == word@),
{
    match bounds {
        None => false,
        Some((lo, hi)) => is_text(&lowered(cs, lo, hi), word),
    }
}

/// The position of the stored body of a statement that creates a view or
/// trigger.
fn stored_body_at(cs: &Vec<char>) -> (r: Option<usize>)
    ensures
        match r {
            Some(at) => at <= cs@.len() && stored_body(cs@) == Some(cs@.skip(at as int)),
            None => stored_body(cs@) is None,
        },
{
    assert(cs@.skip(0) =~= cs@);
    let create = token_at(cs, 0);
    if !token_text_is(cs, create, "create") {
        return None;
    }
    let after_create: usize = match create {
        Some((_, hi)) => hi,
        None => return None,
    };
    let kind = token_at(cs, after_create);
    let temporary = token_text_is(cs, kind, "temp") || token_text_is(cs, kind, "temporary");
    let object = if temporary {
        match kind {
            Some((_, hi)) => token_at(cs, hi),
            None => return None,
        }
    } else {
        kind
    };
    if !token_text_is(cs, object, "view") && !token_text_is(cs, object, "trigger") {
        return None;
    }
    match object {
        None => None,
        Some((_, hi)) => {
            let a: usize = after_word_at(cs, hi, "if");
            let b: usize = after_word_at(cs, a, "not");
            let c: usize = after_word_at(cs, b, "exists");
            let d: usize = after_component_at(cs, c);
            let e: usize = after_qualifiers_at(cs, d);
            Some(after_list_at(cs, e))
        },
    }
}

/// Putting a lexeme in front adds a call only at the front.
proof fn lemma_call_front(l: Lexeme, rest: Seq<Lexeme>)
    ensures
        has_pragma_call(seq![l] + rest) == ((is_pragma_name(l) && rest.len() > 0 && rest[0] is Open)
            || has_pragma_call(rest)),
{
    let all = seq![l] + rest;
    assert(forall|k: int| 0 <= k < rest.len() ==> all[k + 1] == #[trigger] rest[k]);
    if has_pragma_call(all) {
        let k = choose|k: int|
            0 <= k < all.len() - 1 && is_pragma_name(#[trigger] all[k]) && all[k + 1] is Open;
        if k > 0 {
            assert(rest[k - 1] == all[k]);
            assert(rest[k] == all[k + 1]);
        } else {
            assert(rest[0] == all[1]);
        }
    }
    if has_pragma_call(rest) {
        let k = choose|k: int|
            0 <= k < rest.len() - 1 && is_pragma_name(#[trigger] rest[k]) && rest[k + 1] is Open;
        assert(all[k + 1] == rest[k]);
        assert(all[k + 2] == rest[k + 1]);
        assert(is_pragma_name(all[k + 1]) && all[k + 1 + 1] is Open);
    }
    if is_pragma_name(l) && rest.len() > 0 && rest[0] is Open {
        assert(is_pragma_name(all[0]) && all[1] is Open);
        assert(all[0int + 1] is Open);
    }
}

/// White space has no lexemes.
proof fn lemma_lexemes_trim(s: Seq<char>)
    ensures
        lexemes(text::trim_start(s)) == lexemes(s),
    decreases s.len(),
{
    if s.len() > 0 && text::is_space(s[0]) {
        lemma_lexemes_trim(s.skip(1));
        lemma_space_is_plain(s);
    }
}

/// A text that starts with white space is lexed from its second character on.
proof fn lemma_space_is_plain(s: Seq<char>)
    requires
        s.len() > 0,
        text::is_space(s[0]),
    ensures
        lexemes(s) == lexemes(s.skip(1)),
{
}

/// Trivia has no lexemes.
proof fn lemma_lexemes_trivia(s: Seq<char>)
    ensures
        lexemes(sqltext::skip_trivia(s)) == lexemes(s),
    decreases s.len(),
{
    let t = text::trim_start(s);
    lemma_lexemes_trim(s);
    sqltext::lemma_trim_start_len(s);
    if sqltext::opens_line_comment(t) {
        sqltext::lemma_after_line_len(t.skip(2));
        lemma_lexemes_trivia(sqltext::after_line(t.skip(2)));
    } else if sqltext::opens_block_comment(t) {
        sqltext::lemma_after_block_len(t.skip(2));
        lemma_lexemes_trivia(sqltext::after_block(t.skip(2)));
    }
}

/// Whether an opening parenthesis comes next behind trivia.
fn is_call_position(cs: &Vec<char>, i: usize) -> (r: bool)
    requires
        i <= cs@.len(),
    ensures
        r == (lexemes(cs@.skip(i as int)).len() > 0 && lexemes(cs@.skip(i as int))[0] is Open),
{
    let p: usize = skip_trivia_at(cs, i);
    proof {
        lemma_lexemes_trivia(cs@.skip(i as int));
        lemma_first_lexeme(cs@.skip(i as int));
    }
    p < cs.len() && cs[p] == '('
}

/// Nothing skips a parenthesis: the first lexeme opens one just where the text
/// behind the trivia starts with one.
proof fn lemma_first_lexeme(s: Seq<char>)
    ensures
        ({
            let t = sqltext::skip_trivia(s);
            (lexemes(t).len() > 0 && lexemes(t)[0] is Open) == (t.len() > 0 && t[0] == '(')
        }),
{
    let t = sqltext::skip_trivia(s);
    lemma_trivia_is_gone(s);
}

proof fn lemma_trivia_is_gone(s: Seq<char>)
    ensures
        ({
            let t = sqltext::skip_trivia(s);
            t.len() > 0 ==> !text::is_space(t[0]) && !sqltext::opens_line_comment(t)
                && !sqltext::opens_block_comment(t)
        }),
    decreases s.len(),
{
    let t = text::trim_start(s);
    lemma_trim_is_done(s);
    sqltext::lemma_trim_start_len(s);
    if sqltext::opens_line_comment(t) {
        sqltext::lemma_after_line_len(t.skip(2));
        lemma_trivia_is_gone(sqltext::after_line(t.skip(2)));
    } else if sqltext::opens_block_comment(t) {
        sqltext::lemma_after_block_len(t.skip(2));
        lemma_trivia_is_gone(sqltext::after_block(t.skip(2)));
    }
}

proof fn lemma_trim_is_done(s: Seq<char>)
    ensures
        text::trim_start(s).len() > 0 ==> !text::is_space(text::trim_start(s)[0]),
    decreases s.len(),
{
    if s.len() > 0 && text::is_space(s[0]) {
        lemma_trim_is_done(s.skip(1));
    }
}

/// The name in a quoted identifier whose opening quote stands before `i`, if
/// its quote closes, and the position behind it.
fn quoted_name_at(cs: &Vec<char>, i: usize, q: char) -> (r: (Option<Vec<char>>, usize))
    requires
        i <= cs@.len(),
    ensures
        i <= r.1 <= cs@.len(),
        cs@.skip(r.1 as int) == after_quote(cs@.skip(i as int), q),
        match r.0 {
            Some(name) => quote_closes(cs@.skip(i as int), q) && name@ == quoted_name(
                cs@.skip(i as int),
                q,
            ),
            None => !quote_closes(cs@.skip(i as int), q),
        },
{
    let ghost all = cs@.skip(i as int);
    let mut name: Vec<char> = Vec::new();
    let mut p: usize = i;
    while p < cs.len()
        invariant
            i <= p <= cs@.len(),
            all == cs@.skip(i as int),
            after_quote(cs@.skip(p as int), q) == after_quote(all, q),
            quote_closes(cs@.skip(p as int), q) == quote_closes(all, q),
            name@ + quoted_name(cs@.skip(p as int), q) == quoted_name(all, q),
        decreases cs.len() - p,
    {
        let ghost s = cs@.skip(p as int);
        let ghost prior = name@;
        assert(s.skip(1) =~= cs@.skip(p + 1));
        if cs[p] == q {
            if cs.len() - p >= 2 && cs[p + 1] == q {
                assert(s.skip(2) =~= cs@.skip(p + 2));
                name.push(q);
                assert(prior + (seq![q] + quoted_name(s.skip(2), q)) =~= name@ + quoted_name(
                    cs@.skip(p + 2),
                    q,
                ));
                p += 2;
            } else {
                assert(name@ + Seq::<char>::empty() =~= name@);
                return (Some(name), p + 1);
            }
        } else {
            name.push(cs[p]);
            assert(prior + (seq![s[0]] + quoted_name(s.skip(1), q)) =~= name@ + quoted_name(
                cs@.skip(p + 1),
                q,
            ));
            p += 1;
        }
    }
    (None, p)
}

/// The name in a bracket identifier whose opening bracket stands before `i`, if
/// it closes, and the position behind it.
fn bracket_name_at(cs: &Vec<char>, i: usize) -> (r: (Option<Vec<char>>, usize))
    requires
        i <= cs@.len(),
    ensures
        i <= r.1 <= cs@.len(),
        cs@.skip(r.1 as int) == after_bracket(cs@.skip(i as int)),
        match r.0 {
            Some(name) => cs@.skip(i as int).contains(']') && name@ == bracket_name(
                cs@.skip(i as int),
            ),
            None => !cs@.skip(i as int).contains(']'),
        },
{
    let ghost all = cs@.skip(i as int);
    let mut name: Vec<char> = Vec::new();
    let mut p: usize = i;
    while p < cs.len()
        invariant
            i <= p <= cs@.len(),
            all == cs@.skip(i as int),
            after_bracket(cs@.skip(p as int)) == after_bracket(all),
            forall|j: int| 0 <= j < p - i ==> all[j] != ']',
            name@ + bracket_name(cs@.skip(p as int)) == bracket_name(all),
        decreases cs.len() - p,
    {
        let ghost s = cs@.skip(p as int);
        let ghost prior = name@;
        assert(s.skip(1) =~= cs@.skip(p + 1));
        assert(all[p - i] == cs@[p as int]);
        if cs[p] == ']' {
            assert(name@ + Seq::<char>::empty() =~= name@);
            return (Some(name), p + 1);
        }
        name.push(cs[p]);
        assert(prior + (seq![s[0]] + bracket_name(s.skip(1))) =~= name@ + bracket_name(
            cs@.skip(p + 1),
        ));
        p += 1;
    }
    (None, p)
}

/// Whether a name starts with `pragma_` in any case.
fn is_pragma_text(name: &Vec<char>) -> (r: bool)
    ensures
        r == "pragma_"@.is_prefix_of(text::lowercase(name@)),
{
    let w = chars_of("pragma_");
    if name.len() < w.len() {
        return false;
    }
    let found = lowered(name, 0, w.len());
    assert(text::lowercase(name@).subrange(0, w@.len() as int) =~= found@);
    text::same_chars(&found, &w)
}

/// Whether a pragma call starts with the name that ends at `i`.
fn starts_call(cs: &Vec<char>, name: &Option<Vec<char>>, i: usize) -> (r: bool)
    requires
        i <= cs@.len(),
    ensures
        r == (name matches Some(n) && "pragma_"@.is_prefix_of(text::lowercase(n@)) && lexemes(
            cs@.skip(i as int),
        ).len() > 0 && lexemes(cs@.skip(i as int))[0] is Open),
{
    match name {
        None => false,
        Some(n) => is_pragma_text(n) && is_call_position(cs, i),
    }
}

/// Whether the text from `from` on calls a pragma table-valued function.
///
/// Every way to quote an identifier counts, because SQLite takes quoted
/// identifiers for function names. String literals and comments do not count,
/// nor does a name without a call.
fn contains_pragma_table_valued_call(cs: &Vec<char>, from: usize) -> (r: bool)
    requires
        from <= cs@.len(),
    ensures
        r == calls_pragma(cs@.skip(from as int)),
{
    let mut i: usize = from;
    while i < cs.len()
        invariant
            from <= i <= cs@.len(),
            calls_pragma(cs@.skip(i as int)) == calls_pragma(cs@.skip(from as int)),
        decreases cs.len() - i,
    {
        let ghost s = cs@.skip(i as int);
        let c: char = cs[i];
        assert(s.skip(1) =~= cs@.skip(i + 1));
        if c == '"' || c == '`' {
            let (name, next) = quoted_name_at(cs, i + 1, c);
            proof {
                let l = if quote_closes(s.skip(1), c) {
                    Lexeme::Name(quoted_name(s.skip(1), c))
                } else {
                    Lexeme::Other
                };
                lemma_call_front(l, lexemes(cs@.skip(next as int)));
            }
            if starts_call(cs, &name, next) {
                return true;
            }
            i = next;
        } else if c == '[' {
            let (name, next) = bracket_name_at(cs, i + 1);
            proof {
                let l = if s.skip(1).contains(']') {
                    Lexeme::Name(bracket_name(s.skip(1)))
                } else {
                    Lexeme::Other
                };
                lemma_call_front(l, lexemes(cs@.skip(next as int)));
            }
            if starts_call(cs, &name, next) {
                return true;
            }
            i = next;
        } else if c == '\'' {
            let next: usize = after_quote_at(cs, i + 1, '\'');
            proof {
                lemma_call_front(Lexeme::Other, lexemes(cs@.skip(next as int)));
            }
            i = next;
        } else if c == '-' && cs.len() - i >= 2 && cs[i + 1] == '-' {
            assert(s.skip(2) =~= cs@.skip(i + 2));
            i = sqltext::after_line_at(cs, i + 2);
        } else if c == '/' && cs.len() - i >= 2 && cs[i + 1] == '*' {
            assert(s.skip(2) =~= cs@.skip(i + 2));
            i = sqltext::after_block_at(cs, i + 2);
        } else if text::is_space_char(c) {
            i += 1;
        } else if c == '(' {
            proof {
                lemma_call_front(Lexeme::Open, lexemes(s.skip(1)));
            }
            i += 1;
        } else if is_letter_char(c) || c == '_' || c == '$' {
            let next: usize = word_end(cs, i + 1);
            let ghost n = 1 + word_len(s.skip(1)) as int;
            let name = Some(copy_chars(cs, i, next));
            proof {
                assert(s.take(n) =~= cs@.subrange(i as int, next as int));
                assert(s.skip(n) =~= cs@.skip(next as int));
                lemma_call_front(Lexeme::Name(s.take(n)), lexemes(cs@.skip(next as int)));
            }
            if starts_call(cs, &name, next) {
                return true;
            }
            i = next;
        } else {
            proof {
                lemma_call_front(Lexeme::Other, lexemes(s.skip(1)));
            }
            i += 1;
        }
    }
    proof {
        assert(cs@.skip(i as int) =~= Seq::<char>::empty());
        assert(lexemes(cs@.skip(i as int)) =~= Seq::<Lexeme>::empty());
    }
    false
}

fn copy_chars(cs: &Vec<char>, lo: usize, hi: usize) -> (r: Vec<char>)
    requires
        lo <= hi <= cs@.len(),
    ensures
        r@ == cs@.subrange(lo as int, hi as int),
{
    let mut out: Vec<char> = Vec::new();
    let mut i: usize = lo;
    while i < hi
        invariant
            lo <= i <= hi <= cs@.len(),
            out@ == cs@.subrange(lo as int, i as int),
        decreases hi - i,
    {
        out.push(cs[i]);
        i += 1;
        assert(out@ =~= cs@.subrange(lo as int, i as int));
    }
    out
}

/// Refuses a view or trigger whose stored body calls a pragma table-valued
/// function. Every statement that creates a view or trigger is marked as a
/// change of the schema, refused or not.
pub fn check_stored_body(sql: &str, mutation_seen: &mut MutationSignal) -> (r: Result<
    (),
    PolicyError,
>)
    ensures
        *final(mutation_seen) == if stored_body(sql@) is Some {
            old(mutation_seen).with_ddl_attempt()
        } else {
            *old(mutation_seen)
        },
        r == if stored_body(sql@) matches Some(body) && calls_pragma(body) {
            Err::<(), PolicyError>(PolicyError::Denied)
        } else {
            Ok(())
        },
{
    let cs = chars_of(sql);
    match stored_body_at(&cs) {
        None => Ok(()),
        Some(body) => {
            mutation_seen.mark_ddl_attempt();
            if contains_pragma_table_valued_call(&cs, body) {
                Err(PolicyError::Denied)
            } else {
                Ok(())
            }
        },
    }
}

} // verus!
