//! What the stored body of a view or trigger is, and what in it is a call.
use crate::policy::decision::MutationSignal;
use crate::policy::guard;
use crate::policy::guard::{check_stored_body, Lexeme, PolicyError};
use crate::policy::words::{is_word, lemma_token};
use crate::sqltext;
use crate::text;
use vstd::prelude::*;

verus! {

/// A call is told by a name that starts with `pragma_`, in any case, directly before a
/// parenthesis, wherever it stands.
pub proof fn calls_are_told_by_their_name(first: Lexeme, lexed: Seq<Lexeme>)
    ensures
        guard::has_pragma_call(seq![first] + lexed) <==> guard::has_pragma_call(lexed) || (
        first matches Lexeme::Name(name) && "pragma_"@.is_prefix_of(text::lowercase(name))
            && lexed.len() > 0 && lexed[0] is Open),
{
    let all = seq![first] + lexed;
    if guard::has_pragma_call(lexed) {
        let k = choose|k: int|
            0 <= k < lexed.len() - 1 && guard::is_pragma_name(#[trigger] lexed[k]) && lexed[k
                + 1] is Open;
        assert(all[k + 1] == lexed[k]);
        assert(all[k + 2] == lexed[k + 1]);
        assert(guard::is_pragma_name(all[k + 1]));
    }
    if lexed.len() > 0 && lexed[0] is Open && guard::is_pragma_name(first) {
        assert(all[0] == first);
        assert(all[1] == lexed[0]);
        assert(guard::is_pragma_name(all[0]));
    }
    if guard::has_pragma_call(all) {
        let k = choose|k: int|
            0 <= k < all.len() - 1 && guard::is_pragma_name(#[trigger] all[k]) && all[k
                + 1] is Open;
        if k > 0 {
            assert(lexed[k - 1] == all[k]);
            assert(lexed[k] == all[k + 1]);
            assert(guard::is_pragma_name(lexed[k - 1]));
        } else {
            assert(all[1] == lexed[0]);
        }
    }
}

proof fn lemma_quote(name: Seq<char>, q: char, rest: Seq<char>)
    requires
        forall|i: int| 0 <= i < name.len() ==> #[trigger] name[i] != q,
        rest.len() == 0 || rest[0] != q,
    ensures
        guard::after_quote(name + seq![q] + rest, q) == rest,
        guard::quoted_name(name + seq![q] + rest, q) == name,
        guard::quote_closes(name + seq![q] + rest, q),
    decreases name.len(),
{
    let s = name + seq![q] + rest;
    if name.len() == 0 {
        assert(s[0] == q);
        assert(s.skip(1) =~= rest);
        if s.len() >= 2 {
            assert(s[1] == rest[0]);
        }
        assert(guard::quoted_name(s, q) =~= name);
    } else {
        let tail = name.skip(1);
        assert forall|i: int| 0 <= i < tail.len() implies #[trigger] tail[i] != q by {
            assert(tail[i] == name[i + 1]);
        }
        lemma_quote(tail, q, rest);
        assert(s.skip(1) =~= tail + seq![q] + rest);
        assert(s[0] == name[0]);
        assert(seq![name[0]] + tail =~= name);
    }
}

proof fn lemma_bracket(name: Seq<char>, rest: Seq<char>)
    requires
        forall|i: int| 0 <= i < name.len() ==> #[trigger] name[i] != ']',
    ensures
        guard::after_bracket(name + seq![']'] + rest) == rest,
        guard::bracket_name(name + seq![']'] + rest) == name,
        (name + seq![']'] + rest).contains(']'),
    decreases name.len(),
{
    let s = name + seq![']'] + rest;
    assert(s[name.len() as int] == ']');
    if name.len() == 0 {
        assert(s.skip(1) =~= rest);
        assert(guard::bracket_name(s) =~= name);
    } else {
        let tail = name.skip(1);
        assert forall|i: int| 0 <= i < tail.len() implies #[trigger] tail[i] != ']' by {
            assert(tail[i] == name[i + 1]);
        }
        lemma_bracket(tail, rest);
        assert(s.skip(1) =~= tail + seq![']'] + rest);
        assert(s[0] == name[0]);
        assert(seq![name[0]] + tail =~= name);
    }
}

/// A name in double quotes, back quotes or brackets is that name; text in single
/// quotes is none.
pub proof fn quoted_names_are_names(name: Seq<char>, q: char, rest: Seq<char>)
    requires
        forall|i: int| 0 <= i < name.len() ==> #[trigger] name[i] != q,
    ensures
        (q == '"' || q == '`') && (rest.len() == 0 || rest[0] != q) ==> guard::lexemes(
            seq![q] + name + seq![q] + rest,
        ) == seq![Lexeme::Name(name)] + guard::lexemes(rest),
        q == '\'' && (rest.len() == 0 || rest[0] != q) ==> guard::lexemes(
            seq![q] + name + seq![q] + rest,
        ) == seq![Lexeme::Other] + guard::lexemes(rest),
        q == ']' ==> guard::lexemes(seq!['['] + name + seq![']'] + rest) == seq![
            Lexeme::Name(name),
        ] + guard::lexemes(rest),
{
    if rest.len() == 0 || rest[0] != q {
        lemma_quote(name, q, rest);
        let s = seq![q] + name + seq![q] + rest;
        assert(s.skip(1) =~= name + seq![q] + rest);
        assert(s[0] == q);
    }
    if q == ']' {
        lemma_bracket(name, rest);
        let s = seq!['['] + name + seq![']'] + rest;
        assert(s.skip(1) =~= name + seq![']'] + rest);
        assert(s[0] == '[');
    }
}

proof fn lemma_line(comment: Seq<char>, rest: Seq<char>)
    requires
        forall|i: int| 0 <= i < comment.len() ==> #[trigger] comment[i] != '\n',
    ensures
        sqltext::after_line(comment + seq!['\n'] + rest) == rest,
    decreases comment.len(),
{
    let s = comment + seq!['\n'] + rest;
    if comment.len() == 0 {
        assert(s[0] == '\n');
        assert(s.skip(1) =~= rest);
    } else {
        let tail = comment.skip(1);
        assert forall|i: int| 0 <= i < tail.len() implies #[trigger] tail[i] != '\n' by {
            assert(tail[i] == comment[i + 1]);
        }
        lemma_line(tail, rest);
        assert(s[0] == comment[0]);
        assert(s.skip(1) =~= tail + seq!['\n'] + rest);
    }
}

proof fn lemma_block(comment: Seq<char>, rest: Seq<char>)
    requires
        forall|i: int| 0 <= i < comment.len() ==> #[trigger] comment[i] != '*',
    ensures
        sqltext::after_block(comment + seq!['*', '/'] + rest) == rest,
    decreases comment.len(),
{
    let s = comment + seq!['*', '/'] + rest;
    if comment.len() == 0 {
        assert(s[0] == '*');
        assert(s[1] == '/');
        assert(s.skip(2) =~= rest);
    } else {
        let tail = comment.skip(1);
        assert forall|i: int| 0 <= i < tail.len() implies #[trigger] tail[i] != '*' by {
            assert(tail[i] == comment[i + 1]);
        }
        lemma_block(tail, rest);
        assert(s[0] == comment[0]);
        assert(s.skip(1) =~= tail + seq!['*', '/'] + rest);
    }
}

/// Comments and white space stand between names and parentheses without parting them,
/// and nothing in a comment is a name.
pub proof fn comments_part_nothing(comment: Seq<char>, space: char, rest: Seq<char>)
    requires
        text::is_space(space),
    ensures
        (forall|i: int| 0 <= i < comment.len() ==> #[trigger] comment[i] != '\n') ==> guard::lexemes(
            seq!['-', '-'] + comment + seq!['\n'] + rest,
        ) == guard::lexemes(rest),
        (forall|i: int| 0 <= i < comment.len() ==> #[trigger] comment[i] != '*') ==> guard::lexemes(
            seq!['/', '*'] + comment + seq!['*', '/'] + rest,
        ) == guard::lexemes(rest),
        guard::lexemes(seq![space] + rest) == guard::lexemes(rest),
        guard::lexemes(seq!['('] + rest) == seq![Lexeme::Open] + guard::lexemes(rest),
{
    if forall|i: int| 0 <= i < comment.len() ==> #[trigger] comment[i] != '\n' {
        lemma_line(comment, rest);
        let s = seq!['-', '-'] + comment + seq!['\n'] + rest;
        assert(s[0] == '-' && s[1] == '-');
        assert(s.skip(2) =~= comment + seq!['\n'] + rest);
    }
    if forall|i: int| 0 <= i < comment.len() ==> #[trigger] comment[i] != '*' {
        lemma_block(comment, rest);
        let s = seq!['/', '*'] + comment + seq!['*', '/'] + rest;
        assert(s[0] == '/' && s[1] == '*');
        assert(s.skip(2) =~= comment + seq!['*', '/'] + rest);
    }
    let spaced = seq![space] + rest;
    assert(spaced.skip(1) =~= rest);
    assert(spaced[0] == space);
    let opened = seq!['('] + rest;
    assert(opened.skip(1) =~= rest);
    assert(opened[0] == '(');
}

/// What follows a name: neither a space nor a mark that names, quotes, comments or
/// lists start with.
pub open spec fn starts_a_body(rest: Seq<char>) -> bool {
    rest.len() > 0 && !text::is_space(rest[0]) && rest[0] != '.' && rest[0] != '(' && rest[0] != '-'
        && rest[0] != '/'
}

proof fn lemma_no_trivia(s: Seq<char>)
    requires
        s.len() > 0,
        !text::is_space(s[0]),
        s[0] != '-',
        s[0] != '/',
    ensures
        sqltext::skip_trivia(s) == s,
{
    assert(text::trim_start(s) == s);
}

proof fn lemma_gap(gap: Seq<char>, rest: Seq<char>)
    requires
        guard::is_gap(gap),
    ensures
        sqltext::skip_trivia(gap + rest) == sqltext::skip_trivia(rest),
{
    guard::lemma_gap_is_trimmed(gap, rest);
}

proof fn lemma_word_chars(name: Seq<char>, tail: Seq<char>)
    requires
        is_word(name),
        tail.len() > 0,
        !guard::is_word_char(tail[0]),
    ensures
        sqltext::skip_trivia(name + tail) == name + tail,
        guard::word_len(name + tail) == name.len(),
        guard::next_token(name + tail) == Some((name, tail)),
        (name + tail)[0] != '"' && (name + tail)[0] != '`' && (name + tail)[0] != '[',
{
    let s = name + tail;
    let n = name.len() as int;
    assert forall|i: int| 0 <= i < n implies guard::is_word_char(#[trigger] s[i]) by {
        assert(s[i] == name[i]);
    }
    assert(s[0] == name[0]);
    assert(s[n] == tail[0]);
    lemma_no_trivia(s);
    guard::lemma_word_len_exact(s, n);
    assert(s.take(n) =~= name);
    assert(s.skip(n) =~= tail);
}

/// A word that comes next is passed over exactly where it is the one that is looked for.
proof fn lemma_after_word(name: Seq<char>, tail: Seq<char>, word: Seq<char>)
    requires
        is_word(name),
        is_word(word),
        tail.len() > 0,
        !guard::is_word_char(tail[0]),
    ensures
        text::lowercase(name) == word ==> guard::after_word(name + tail, word) == tail,
        text::lowercase(name) != word ==> guard::after_word(name + tail, word) == name + tail,
{
    let s = name + tail;
    let lowered = text::lowercase(s);
    let n = word.len() as int;
    let m = name.len() as int;
    lemma_word_chars(name, tail);
    assert(lowered.len() == s.len());
    assert forall|i: int| 0 <= i < m implies #[trigger] lowered[i] == text::lowercase(name)[i] by {
        assert(s[i] == name[i]);
    }
    assert(s[m] == tail[0]);
    assert(lowered[m] == text::lower(tail[0]));
    assert(!guard::is_word_char(lowered[m]));
    if text::lowercase(name) == word {
        assert(n == m);
        assert(lowered.subrange(0, n) =~= word);
        assert(s.skip(n) =~= tail);
    } else if word.is_prefix_of(lowered) {
        if n < m {
            assert('a' <= name[n] <= 'z' || 'A' <= name[n] <= 'Z');
            assert(guard::is_word_char(lowered[n]));
        } else if n > m {
            assert(lowered.subrange(0, n)[m] == lowered[m]);
            assert(word[m] == lowered[m]);
            assert('a' <= word[m] <= 'z' || 'A' <= word[m] <= 'Z');
        } else {
            assert(text::lowercase(name) =~= word) by {
                assert forall|i: int| 0 <= i < n implies #[trigger] text::lowercase(name)[i]
                    == word[i] by {
                    assert(lowered.subrange(0, n)[i] == lowered[i]);
                }
            }
        }
    }
}

proof fn lemma_opening_words()
    ensures
        is_word("if"@),
        is_word("not"@),
        is_word("exists"@),
{
    reveal_strlit("if");
    reveal_strlit("not");
    reveal_strlit("exists");
}

/// The name is none of the words that may stand before one.
pub open spec fn is_own_name(name: Seq<char>) -> bool {
    is_word(name) && text::lowercase(name) != "if"@ && text::lowercase(name) != "not"@
        && text::lowercase(name) != "exists"@
}

proof fn lemma_own_name(name: Seq<char>, tail: Seq<char>)
    requires
        is_own_name(name),
        tail.len() > 0,
        !guard::is_word_char(tail[0]),
    ensures
        guard::after_heading(name + tail) == guard::after_list(guard::after_qualifiers(tail)),
{
    lemma_opening_words();
    lemma_after_word(name, tail, "if"@);
    lemma_after_word(name, tail, "not"@);
    lemma_after_word(name, tail, "exists"@);
    lemma_word_chars(name, tail);
    lemma_word_chars(name, tail);
    assert(guard::after_component(name + tail) == tail);
}

proof fn lemma_rest(gap: Seq<char>, rest: Seq<char>)
    requires
        guard::is_gap(gap),
        starts_a_body(rest),
    ensures
        guard::after_list(guard::after_qualifiers(gap + rest)) == rest,
{
    lemma_gap(gap, rest);
    lemma_no_trivia(rest);
}

/// The body of a view or trigger is all that follows its name: a single name, or one
/// behind the name of a database and a dot.
pub proof fn bodies_follow_the_name(
    name: Seq<char>,
    database: Seq<char>,
    gap: Seq<char>,
    rest: Seq<char>,
)
    requires
        is_own_name(name),
        is_own_name(database),
        guard::is_gap(gap),
        starts_a_body(rest),
    ensures
        guard::after_heading(name + (gap + rest)) == rest,
        guard::after_heading(database + (seq!['.'] + (name + (gap + rest)))) == rest,
{
    let tail = gap + rest;
    assert(tail[0] == gap[0]);
    lemma_own_name(name, tail);
    lemma_rest(gap, rest);
    let dotted = seq!['.'] + (name + tail);
    lemma_own_name(database, dotted);
    lemma_no_trivia(dotted);
    assert(dotted[0] == '.');
    assert(dotted.skip(1) =~= name + tail);
    lemma_word_chars(name, tail);
    assert(guard::after_component(name + tail) == tail);
    reveal_with_fuel(guard::after_qualifiers, 2);
    lemma_gap(gap, rest);
    lemma_no_trivia(rest);
    assert(guard::after_qualifiers(tail) == rest);
    assert(guard::after_qualifiers(dotted) == rest);
}

/// A name in double quotes, back quotes or brackets is passed over as a whole, whatever
/// it holds.
pub proof fn bodies_follow_quoted_names(
    name: Seq<char>,
    q: char,
    gap: Seq<char>,
    rest: Seq<char>,
)
    requires
        forall|i: int| 0 <= i < name.len() ==> #[trigger] name[i] != q,
        q == '"' || q == '`' || q == ']',
        guard::is_gap(gap),
        starts_a_body(rest),
    ensures
        q != ']' ==> guard::after_heading(seq![q] + name + seq![q] + (gap + rest)) == rest,
        q == ']' ==> guard::after_heading(seq!['['] + name + seq![']'] + (gap + rest)) == rest,
{
    let tail = gap + rest;
    assert(tail[0] == gap[0]);
    assert(text::is_space(gap[0]));
    let open = if q == ']' {
        '['
    } else {
        q
    };
    let s = seq![open] + name + seq![q] + tail;
    assert(s[0] == open);
    lemma_no_trivia(s);
    assert(s.skip(1) =~= name + seq![q] + tail);
    lemma_not_next(s, "if"@);
    lemma_not_next(s, "not"@);
    lemma_not_next(s, "exists"@);
    if q == ']' {
        lemma_bracket(name, tail);
    } else {
        assert(!text::is_space(q));
        lemma_quote(name, q, tail);
    }
    assert(guard::after_component(s) == tail);
    lemma_rest(gap, rest);
}

proof fn lemma_not_next(s: Seq<char>, word: Seq<char>)
    requires
        word == "if"@ || word == "not"@ || word == "exists"@,
        s.len() > 0,
        s[0] == '"' || s[0] == '`' || s[0] == '[',
    ensures
        guard::after_word(s, word) == s,
{
    lemma_opening_words();
    lemma_no_trivia(s);
    let lowered = text::lowercase(s);
    assert(lowered[0] == s[0]);
    if word.is_prefix_of(lowered) {
        assert(lowered.subrange(0, word.len() as int)[0] == lowered[0]);
        assert('a' <= word[0] <= 'z' || 'A' <= word[0] <= 'Z');
    }
}

/// `IF NOT EXISTS` before the name, in any case, is no part of the body and takes
/// nothing from it.
pub proof fn conditions_are_passed_over(
    a: Seq<char>,
    b: Seq<char>,
    c: Seq<char>,
    name: Seq<char>,
    gap: Seq<char>,
    rest: Seq<char>,
)
    requires
        is_word(a),
        is_word(b),
        is_word(c),
        text::lowercase(a) == "if"@,
        text::lowercase(b) == "not"@,
        text::lowercase(c) == "exists"@,
        is_own_name(name),
        guard::is_gap(gap),
        starts_a_body(rest),
    ensures
        guard::after_heading(a + (gap + (b + (gap + (c + (gap + (name + (gap + rest)))))))) == rest,
{
    let t3 = gap + rest;
    let s3 = name + t3;
    let t2 = gap + s3;
    let s2 = c + t2;
    let t1 = gap + s2;
    let s1 = b + t1;
    let t0 = gap + s1;
    let s0 = a + t0;
    assert(t0[0] == gap[0] && t1[0] == gap[0] && t2[0] == gap[0] && t3[0] == gap[0]);
    lemma_opening_words();
    lemma_after_word(a, t0, "if"@);
    assert(guard::after_word(s0, "if"@) == t0);
    lemma_gap(gap, s1);
    lemma_word_chars(b, t1);
    lemma_after_word(b, t1, "not"@);
    assert(guard::after_word(t0, "not"@) == t1);
    lemma_gap(gap, s2);
    lemma_word_chars(c, t2);
    lemma_after_word(c, t2, "exists"@);
    assert(guard::after_word(t1, "exists"@) == t2);
    lemma_gap(gap, s3);
    lemma_word_chars(name, t3);
    assert(guard::after_component(t2) == t3);
    lemma_rest(gap, rest);
}

/// A list of columns behind the name is no part of the body and takes nothing from it.
pub proof fn columns_are_passed_over(
    name: Seq<char>,
    gap: Seq<char>,
    columns: Seq<char>,
    rest: Seq<char>,
)
    requires
        is_own_name(name),
        guard::is_gap(gap),
        forall|i: int|
            0 <= i < columns.len() ==> #[trigger] columns[i] != '(' && columns[i] != ')' && columns[i]
                != '"' && columns[i] != '`' && columns[i] != '\'' && columns[i] != '[',
    ensures
        guard::after_heading(name + (gap + (seq!['('] + (columns + (seq![')'] + rest))))) == rest,
{
    let inner = columns + (seq![')'] + rest);
    let list = seq!['('] + inner;
    let tail = gap + list;
    assert(tail[0] == gap[0]);
    lemma_own_name(name, tail);
    lemma_gap(gap, list);
    lemma_no_trivia(list);
    assert(list[0] == '(');
    assert(list.skip(1) =~= inner);
    lemma_group(columns, rest);
    assert(guard::after_qualifiers(tail) == list);
    assert(guard::after_group(list, 0) == guard::after_group(inner, 1));
    assert(guard::after_list(list) == rest);
}

proof fn lemma_group(columns: Seq<char>, rest: Seq<char>)
    requires
        forall|i: int|
            0 <= i < columns.len() ==> #[trigger] columns[i] != '(' && columns[i] != ')' && columns[i]
                != '"' && columns[i] != '`' && columns[i] != '\'' && columns[i] != '[',
    ensures
        guard::after_group(columns + (seq![')'] + rest), 1) == rest,
    decreases columns.len(),
{
    let s = columns + (seq![')'] + rest);
    if columns.len() == 0 {
        assert(s[0] == ')');
        assert(s.skip(1) =~= rest);
    } else {
        let tail = columns.skip(1);
        assert forall|i: int| 0 <= i < tail.len() implies #[trigger] tail[i] != '(' && tail[i] != ')'
            && tail[i] != '"' && tail[i] != '`' && tail[i] != '\'' && tail[i] != '[' by {
            assert(tail[i] == columns[i + 1]);
        }
        lemma_group(tail, rest);
        assert(s[0] == columns[0]);
        assert(s.skip(1) =~= tail + (seq![')'] + rest));
    }
}

/// The whole of what follows the name of a view or trigger is its stored body, and the
/// statement is refused exactly where something in it is a call of a pragma function.
pub proof fn views_store_what_follows_their_name(
    create: Seq<char>,
    object: Seq<char>,
    name: Seq<char>,
    gap: Seq<char>,
    body: Seq<char>,
    sql: &str,
    signal: &mut MutationSignal,
    r: Result<(), PolicyError>,
)
    requires
        is_word(create),
        is_word(object),
        is_own_name(name),
        guard::is_gap(gap),
        starts_a_body(body),
        text::lowercase(create) == "create"@,
        text::lowercase(object) == "view"@ || text::lowercase(object) == "trigger"@,
        sql@ == create + gap + (object + gap + (name + (gap + body))),
        call_ensures(check_stored_body, (sql, signal), r),
    ensures
        guard::stored_body(sql@) == Some(body),
        r is Err <==> guard::has_pragma_call(guard::lexemes(body)),
        final(signal).ddl && final(signal).attempted,
{
    let named = name + (gap + body);
    let tail = gap + body;
    lemma_token(create, gap, object + gap + named);
    lemma_token(object, gap, named);
    reveal_strlit("view");
    reveal_strlit("trigger");
    reveal_strlit("temp");
    reveal_strlit("temporary");
    assert("view"@[0] == 'v' && "temp"@[0] == 't' && "temporary"@[0] == 't');
    assert("trigger"@.len() == 7 && "temp"@.len() == 4 && "temporary"@.len() == 9);
    let heading = gap + named;
    assert(tail[0] == gap[0]);
    lemma_opening_words();
    lemma_gap(gap, named);
    lemma_word_chars(name, tail);
    lemma_after_word(name, tail, "if"@);
    lemma_after_word(name, tail, "not"@);
    lemma_after_word(name, tail, "exists"@);
    lemma_stays(gap, name, tail, "if"@);
    lemma_stays(gap, name, tail, "not"@);
    lemma_stays(gap, name, tail, "exists"@);
    assert(guard::after_component(heading) == tail);
    lemma_rest(gap, body);
    assert(guard::after_heading(heading) == body);
    assert(guard::rest_of(guard::next_token(object + gap + named)) == heading);
}

/// White space before a word does not make it the one that is looked for.
proof fn lemma_stays(gap: Seq<char>, name: Seq<char>, tail: Seq<char>, word: Seq<char>)
    requires
        guard::is_gap(gap),
        is_word(name),
        is_word(word),
        tail.len() > 0,
        !guard::is_word_char(tail[0]),
        text::lowercase(name) != word,
    ensures
        guard::after_word(gap + (name + tail), word) == gap + (name + tail),
{
    let s = name + tail;
    lemma_gap(gap, s);
    lemma_word_chars(name, tail);
    lemma_after_word(name, tail, word);
    let n = word.len() as int;
    if word.is_prefix_of(text::lowercase(s)) && !(n < s.len() && guard::is_word_char(
        text::lowercase(s)[n],
    )) {
        assert(guard::after_word(s, word) == s.skip(n));
        assert(s.skip(n).len() != s.len());
    }
}

/// A character that an unquoted name may hold.
pub open spec fn is_name_char(c: char) -> bool {
    'a' <= c <= 'z' || 'A' <= c <= 'Z' || '0' <= c <= '9' || c == '_' || c == '$' || c as u32
        >= 0x80
}

proof fn lemma_name_len(name: Seq<char>, rest: Seq<char>)
    requires
        forall|i: int| 0 <= i < name.len() ==> is_name_char(#[trigger] name[i]),
        rest.len() == 0 || !is_name_char(rest[0]),
    ensures
        guard::word_len(name + rest) == name.len(),
    decreases name.len(),
{
    let s = name + rest;
    if name.len() == 0 {
        assert(s =~= rest);
    } else {
        assert(s[0] == name[0]);
        assert(s.skip(1) =~= name.skip(1) + rest);
        lemma_name_len(name.skip(1), rest);
    }
}

/// Outside quotes a run of letters, digits, underscores and dollar signs is one name,
/// unless it starts with a digit. Every other character stands for itself.
pub proof fn unquoted_names_are_names(name: Seq<char>, rest: Seq<char>, other: char)
    requires
        name.len() > 0,
        forall|i: int| 0 <= i < name.len() ==> is_name_char(#[trigger] name[i]),
        !('0' <= name[0] <= '9'),
        !text::is_space(name[0]),
        rest.len() == 0 || !is_name_char(rest[0]),
        ' ' < other < 'A' && other != '"' && other != '$' && other != '\'' && other != '('
            && other != '-' && other != '/',
    ensures
        guard::lexemes(name + rest) == seq![Lexeme::Name(name)] + guard::lexemes(rest),
        guard::lexemes(seq![other] + rest) == seq![Lexeme::Other] + guard::lexemes(rest),
{
    let s = name + rest;
    assert(s[0] == name[0]);
    assert(s.skip(1) =~= name.skip(1) + rest);
    lemma_name_len(name.skip(1), rest);
    assert(s.take(name.len() as int) =~= name);
    assert(s.skip(name.len() as int) =~= rest);
    let t = seq![other] + rest;
    assert(t[0] == other);
    assert(t.skip(1) =~= rest);
}

} // verus!
