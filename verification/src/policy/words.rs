//! What the first words of a statement decide.
use crate::merge::import;
use crate::merge::statements;
use crate::merge::statements::StatementKind;
use crate::policy::decision::MutationSignal;
use crate::policy::getter;
use crate::policy::guard;
use crate::policy::guard::{check_maintenance, check_stored_body, Lexeme, PolicyError};
use crate::sqltext;
use crate::text;
use vstd::prelude::*;

verus! {

/// A word of ASCII letters, in any case.
pub open spec fn is_word(s: Seq<char>) -> bool {
    s.len() > 0 && forall|i: int|
        0 <= i < s.len() ==> 'a' <= #[trigger] s[i] <= 'z' || 'A' <= s[i] <= 'Z'
}

/// ASCII letters have a lower and an upper case, 32 apart; all other characters have
/// none.
pub proof fn cases_are_32_apart(c: char)
    ensures
        'A' <= c <= 'Z' ==> text::lower(c) as u32 == c as u32 + 32 && text::upper(c) == c,
        'a' <= c <= 'z' ==> text::upper(c) as u32 + 32 == c as u32 && text::lower(c) == c,
        !('A' <= c <= 'Z') && !('a' <= c <= 'z') ==> text::lower(c) == c && text::upper(c) == c,
{
}

proof fn lemma_lowered(word: Seq<char>)
    requires
        is_word(word),
    ensures
        forall|i: int|
            0 <= i < text::lowercase(word).len() ==> 'a' <= #[trigger] text::lowercase(word)[i]
                <= 'z',
{
    assert forall|i: int| 0 <= i < text::lowercase(word).len() implies 'a'
        <= #[trigger] text::lowercase(word)[i] <= 'z' by {
        assert('a' <= word[i] <= 'z' || 'A' <= word[i] <= 'Z');
    }
}

/// A statement is refused as maintenance exactly where its first word is `ANALYZE` or
/// `REINDEX`, however it is written; all others are let through.
pub proof fn maintenance_is_told_by_the_first_word(
    word: Seq<char>,
    gap: Seq<char>,
    rest: Seq<char>,
    sql: &str,
    r: Result<(), PolicyError>,
)
    requires
        is_word(word),
        guard::is_gap(gap),
        text::lowercase(word) != "explain"@,
        sql@ == word + gap + rest,
        call_ensures(check_maintenance, (sql,), r),
    ensures
        r is Err <==> text::lowercase(word) == "analyze"@ || text::lowercase(word) == "reindex"@,
        r is Err ==> r->Err_0 is Maintenance,
{
    lemma_lowered(word);
    guard::lemma_leading_keyword(word, text::lowercase(word), gap, rest);
}

pub(crate) proof fn lemma_token(word: Seq<char>, gap: Seq<char>, rest: Seq<char>)
    requires
        is_word(word),
        guard::is_gap(gap),
    ensures
        guard::next_token(word + gap + rest) == Some((word, gap + rest)),
        guard::next_token(gap + rest) == guard::next_token(rest),
{
    let s = word + gap + rest;
    let n = word.len() as int;
    assert forall|i: int| 0 <= i < n implies guard::is_word_char(#[trigger] s[i]) && s[i] != '-'
        && s[i] != '/' && !text::is_space(s[i]) by {
        assert(s[i] == word[i]);
    }
    assert(s[n] == gap[0]);
    assert(text::is_space(gap[0]) && (gap[0] as u32) < 0x80);
    guard::lemma_word_len_exact(s, n);
    assert(text::trim_start(s) == s);
    assert(sqltext::skip_trivia(s) == s);
    assert(s.take(n) =~= word);
    assert(s.skip(n) =~= gap + rest);
    guard::lemma_gap_is_trimmed(gap, rest);
    assert(sqltext::skip_trivia(gap + rest) == sqltext::skip_trivia(rest));
}

/// A statement stores a body exactly where it creates a view or a trigger; then it counts
/// as a change of the schema, and it is refused exactly where the body calls a pragma
/// function.
pub proof fn bodies_are_stored_by_views_and_triggers(
    create: Seq<char>,
    object: Seq<char>,
    gap: Seq<char>,
    next: Seq<char>,
    rest: Seq<char>,
    sql: &str,
    signal: &mut MutationSignal,
    r: Result<(), PolicyError>,
)
    requires
        is_word(create),
        is_word(object),
        guard::is_gap(gap),
        guard::is_gap(next),
        text::lowercase(object) != "temp"@ && text::lowercase(object) != "temporary"@,
        sql@ == create + gap + (object + next + rest),
        call_ensures(check_stored_body, (sql, signal), r),
    ensures
        guard::stored_body(sql@) is Some <==> text::lowercase(create) == "create"@ && (
        text::lowercase(object) == "view"@ || text::lowercase(object) == "trigger"@),
        guard::stored_body(sql@) is Some ==> final(signal).ddl && final(signal).attempted,
        guard::stored_body(sql@) is None ==> r is Ok && *final(signal) == *old(signal),
        r is Err <==> guard::stored_body(sql@) is Some && guard::calls_pragma(
            guard::stored_body(sql@)->0,
        ),
        r is Err ==> r->Err_0 is Denied,
{
    lemma_token(create, gap, object + next + rest);
    lemma_token(object, next, rest);
    assert(sql@ =~= create + gap + (object + next + rest));
    assert(object + next + rest =~= object + next + rest);
}

/// A body calls a pragma function where a name that starts with `pragma_`, in any case,
/// stands before a parenthesis, wherever in the body that is behind white space.
pub proof fn pragma_calls_are_seen(prefix: Seq<char>, tail: Seq<char>, space: char, rest: Seq<char>)
    requires
        text::lowercase(prefix) == "pragma_"@,
        forall|i: int| 0 <= i < tail.len() ==> guard::is_word_char(#[trigger] tail[i]),
        text::is_space(space),
        (space as u32) < 0x80,
    ensures
        guard::calls_pragma(prefix + tail + seq!['('] + rest),
        guard::calls_pragma(seq![space] + rest) == guard::calls_pragma(rest),
{
    reveal_strlit("pragma_");
    let low = text::lowercase(prefix);
    assert(low.len() == prefix.len());
    assert(prefix.len() == "pragma_"@.len());
    assert forall|i: int| 0 <= i < 7 implies guard::is_word_char(#[trigger] prefix[i]) by {
        assert(low[i] == text::lower(prefix[i]));
        assert(low[i] == "pragma_"@[i]);
    }
    let name = prefix + tail;
    let s = name + seq!['('] + rest;
    let n = name.len() as int;
    assert(low[0] == text::lower(prefix[0]));
    assert(s[0] == prefix[0]);
    assert(guard::is_letter(s[0]));
    assert forall|i: int| 0 <= i < n - 1 implies guard::is_word_char(#[trigger] s.skip(1)[i]) by {
        if i + 1 < 7 {
            assert(s[i + 1] == prefix[i + 1]);
        } else {
            assert(s[i + 1] == tail[i + 1 - 7]);
        }
    }
    assert(s.skip(1)[n - 1] == '(');
    guard::lemma_word_len_exact(s.skip(1), n - 1);
    assert(s.take(n) =~= name);
    assert(s.skip(n) =~= seq!['('] + rest);
    let after = seq!['('] + rest;
    assert(after.skip(1) =~= rest);
    let lexed = guard::lexemes(s);
    assert(lexed == seq![Lexeme::Name(name)] + guard::lexemes(after));
    assert(guard::lexemes(after) == seq![Lexeme::Open] + guard::lexemes(rest));
    assert(text::lowercase(name).subrange(0, 7) =~= "pragma_"@) by {
        assert forall|i: int| 0 <= i < 7 implies #[trigger] text::lowercase(name)[i]
            == "pragma_"@[i] by {
            assert(low[i] == text::lower(prefix[i]));
        }
    }
    assert("pragma_"@.is_prefix_of(text::lowercase(name)));
    assert(guard::is_pragma_name(lexed[0]));
    assert(lexed[1] is Open);
    let spaced = seq![space] + rest;
    assert(spaced.skip(1) =~= rest);
}

/// Only a pragma is the reading of a setting, and only of these two settings, with nothing
/// behind the name but white space.
pub proof fn settings_are_read_by_name(
    word: Seq<char>,
    gap: Seq<char>,
    name: Seq<char>,
    tail: Seq<char>,
    sql: &str,
    r: bool,
)
    requires
        is_word(word),
        guard::is_gap(gap),
        name.len() > 0 && !text::is_space(name[0]),
        sql@ == word + gap + (name + tail),
        call_ensures(getter::is_approved_getter, (sql,), r),
    ensures
        text::lowercase(word) != "pragma"@ && word.len() == 6 ==> !r,
        text::lowercase(word) == "pragma"@ && (text::lowercase(name) == "foreign_keys"@
            || text::lowercase(name) == "recursive_triggers"@) && text::blank(tail) ==> r,
        text::lowercase(word) == "pragma"@ && (text::lowercase(name) == "foreign_keys"@
            || text::lowercase(name) == "recursive_triggers"@) && tail.len() > 0 && (tail[0] == '='
            || tail[0] == '(' || tail[0] == '.' || tail[0] == '_') ==> !r,
{
    reveal_strlit("pragma");
    reveal_strlit("foreign_keys");
    reveal_strlit("recursive_triggers");
    let s = sql@;
    let body = name + tail;
    assert(word[0] == s[0]);
    assert(!text::is_space(s[0]) && s[0] != '-' && s[0] != '/');
    assert(text::trim_start(s) == s);
    assert(sqltext::skip_trivia(s) == s);
    if word.len() == 6 {
        assert(s.take(6) =~= word);
        assert(s.skip(6) =~= gap + body);
        assert(text::is_space(gap[0]));
        guard::lemma_gap_is_trimmed(gap, body);
        assert(body[0] == name[0]);
        assert(text::trim_start(body) == body);
        assert(text::trim_start(s.skip(6)) == body);
    }
    let n = name.len() as int;
    assert(body.take(n) =~= name);
    assert(body.skip(n) =~= tail);
    if text::lowercase(word) == "pragma"@ {
        assert(text::lowercase(word).len() == 6);
        assert(text::lowercase(name).len() == n);
        if text::blank(tail) {
            lemma_blank_is_nothing(tail);
        } else if tail.len() > 0 && (tail[0] == '=' || tail[0] == '(' || tail[0] == '.' || tail[0]
            == '_') {
            assert(text::trim_start(tail) == tail);
            assert(sqltext::skip_trivia(tail) == tail);
            if text::lowercase(name) == "foreign_keys"@ {
                assert(text::lowercase(body.take(12)) == "foreign_keys"@);
                if body.len() >= 18 {
                    assert(text::lowercase(body.take(18))[0] == text::lowercase(name)[0]);
                    assert("recursive_triggers"@[0] == 'r' && "foreign_keys"@[0] == 'f');
                }
            } else if text::lowercase(name) == "recursive_triggers"@ {
                assert(text::lowercase(body.take(12))[0] == text::lowercase(name)[0]);
                assert("recursive_triggers"@[0] == 'r' && "foreign_keys"@[0] == 'f');
            }
        }
    }
}

proof fn lemma_blank_is_nothing(s: Seq<char>)
    requires
        text::blank(s),
    ensures
        sqltext::skip_trivia(s).len() == 0,
{
    guard::lemma_gap_is_trimmed(s, Seq::empty());
    assert(s + Seq::<char>::empty() =~= s);
    assert(text::trim_start(Seq::<char>::empty()).len() == 0);
}

/// The first word of a statement decides what it is to an import: objects are created
/// and rows are inserted; transactions, settings and other files are refused, and so is
/// everything else.
pub proof fn imports_take_creations_and_rows(
    word: Seq<char>,
    rest: Seq<char>,
    map: Map<Seq<char>, Seq<u8>>,
    index: nat,
)
    requires
        is_word(word),
        rest.len() > 0,
        statements::is_ascii_space(rest[0]) || rest[0] == '(',
    ensures
        ({
            let sql = word + rest;
            let upper = text::uppercase(word);
            let kind = statements::kind_of(sql);
            let fault = import::admission_fault(map, sql, index);
            &&& kind is Create <==> upper == "CREATE"@
            &&& kind is Insert <==> upper == "INSERT"@
            &&& kind is Transaction <==> upper == "BEGIN"@ || upper == "COMMIT"@ || upper
                == "ROLLBACK"@ || upper == "SAVEPOINT"@ || upper == "RELEASE"@
            &&& kind is Policy <==> upper == "PRAGMA"@ || upper == "ATTACH"@ || upper == "DETACH"@
                || upper == "VACUUM"@
            &&& upper != "CREATE"@ && upper != "INSERT"@ ==> fault is Some
            &&& kind is Transaction || kind is Policy ==> (fault matches Some(f) && f.0
                == "MERGE_POLICY_DENIED"@)
            &&& kind is Other ==> (fault matches Some(f) && f.0 == "MERGE_FORMAT_INVALID"@)
            &&& upper == "INSERT"@ && guard::stored_body(sql) is None ==> fault is None
        }),
{
    let sql = word + rest;
    reveal_strlit("CREATE");
    reveal_strlit("INSERT");
    reveal_strlit("BEGIN");
    reveal_strlit("COMMIT");
    reveal_strlit("ROLLBACK");
    reveal_strlit("SAVEPOINT");
    reveal_strlit("RELEASE");
    reveal_strlit("PRAGMA");
    reveal_strlit("ATTACH");
    reveal_strlit("DETACH");
    reveal_strlit("VACUUM");
    assert("CREATE"@[0] == 'C' && "CREATE"@[1] == 'R' && "INSERT"@[0] == 'I' && "BEGIN"@[0] == 'B'
        && "COMMIT"@[0] == 'C' && "COMMIT"@[1] == 'O' && "ROLLBACK"@[0] == 'R' && "ROLLBACK"@[1]
        == 'O' && "SAVEPOINT"@[0] == 'S' && "RELEASE"@[0] == 'R' && "RELEASE"@[1] == 'E'
        && "PRAGMA"@[0] == 'P' && "ATTACH"@[0] == 'A' && "DETACH"@[0] == 'D' && "VACUUM"@[0]
        == 'V');
    assert(sql[0] == word[0]);
    assert(statements::skip_separators(sql) == sql);
    assert(statements::statement_start(sql) == sql);
    lemma_first_word(word, rest);
}

proof fn lemma_first_word(word: Seq<char>, rest: Seq<char>)
    requires
        forall|i: int|
            0 <= i < word.len() ==> 'a' <= #[trigger] word[i] <= 'z' || 'A' <= word[i] <= 'Z',
        rest.len() > 0,
        statements::is_ascii_space(rest[0]) || rest[0] == '(',
    ensures
        statements::first_word(word + rest) == word,
    decreases word.len(),
{
    let s = word + rest;
    if word.len() == 0 {
        assert(s =~= rest);
        assert(statements::first_word(s) =~= word);
    } else {
        assert(s[0] == word[0]);
        assert(s.skip(1) =~= word.skip(1) + rest);
        assert forall|i: int| 0 <= i < word.skip(1).len() implies 'a' <= #[trigger] word.skip(
            1,
        )[i] <= 'z' || 'A' <= word.skip(1)[i] <= 'Z' by {
            assert(word.skip(1)[i] == word[i + 1]);
        }
        lemma_first_word(word.skip(1), rest);
        assert(statements::first_word(s) =~= word);
    }
}

/// One semicolon may end the reading of a setting, and nothing but white space may
/// follow it.
pub proof fn settings_end_with_one_semicolon(
    word: Seq<char>,
    gap: Seq<char>,
    name: Seq<char>,
    tail: Seq<char>,
    sql: &str,
    r: bool,
)
    requires
        is_word(word),
        guard::is_gap(gap),
        text::lowercase(word) == "pragma"@,
        text::lowercase(name) == "foreign_keys"@ || text::lowercase(name)
            == "recursive_triggers"@,
        sql@ == word + gap + (name + (seq![';'] + tail)),
        call_ensures(getter::is_approved_getter, (sql,), r),
    ensures
        text::blank(tail) ==> r,
        tail.len() > 0 && !text::is_space(tail[0]) && tail[0] != '-' && tail[0] != '/' ==> !r,
{
    reveal_strlit("pragma");
    reveal_strlit("foreign_keys");
    reveal_strlit("recursive_triggers");
    let s = sql@;
    let ended = seq![';'] + tail;
    let body = name + ended;
    let n = name.len() as int;
    let low = text::lowercase(name);
    assert(low.len() == n);
    assert(text::lowercase(word).len() == 6);
    assert(low[0] == text::lower(name[0]));
    assert(word[0] == s[0]);
    assert(text::trim_start(s) == s);
    assert(sqltext::skip_trivia(s) == s);
    assert(s.take(6) =~= word);
    assert(s.skip(6) =~= gap + body);
    assert(text::is_space(gap[0]));
    guard::lemma_gap_is_trimmed(gap, body);
    assert(body[0] == name[0]);
    assert(low[0] == 'f' || low[0] == 'r');
    assert(!text::is_space(name[0]));
    assert(text::trim_start(body) == body);
    assert(text::trim_start(s.skip(6)) == body);
    assert(body.take(n) =~= name);
    assert(body.skip(n) =~= ended);
    assert(ended[0] == ';');
    assert(text::trim_start(ended) == ended);
    assert(sqltext::skip_trivia(ended) == ended);
    assert(ended.skip(1) =~= tail);
    if text::blank(tail) {
        lemma_blank_is_nothing(tail);
    } else if tail.len() > 0 && !text::is_space(tail[0]) && tail[0] != '-' && tail[0] != '/' {
        assert(text::trim_start(tail) == tail);
        assert(sqltext::skip_trivia(tail) == tail);
        if low == "foreign_keys"@ {
            assert(text::lowercase(body.take(12)) == "foreign_keys"@);
            if body.len() >= 18 {
                assert(text::lowercase(body.take(18))[0] == low[0]);
                assert("recursive_triggers"@[0] == 'r' && "foreign_keys"@[0] == 'f');
            }
        } else {
            assert(text::lowercase(body.take(12))[0] == low[0]);
            assert("recursive_triggers"@[0] == 'r' && "foreign_keys"@[0] == 'f');
        }
    }
}

/// A temporary view or trigger stores a body too.
pub proof fn temporary_bodies_are_stored_too(
    create: Seq<char>,
    temporary: Seq<char>,
    object: Seq<char>,
    gap: Seq<char>,
    rest: Seq<char>,
    sql: &str,
    signal: &mut MutationSignal,
    r: Result<(), PolicyError>,
)
    requires
        is_word(create),
        is_word(temporary),
        is_word(object),
        guard::is_gap(gap),
        text::lowercase(temporary) == "temp"@ || text::lowercase(temporary) == "temporary"@,
        sql@ == create + gap + (temporary + gap + (object + gap + rest)),
        call_ensures(check_stored_body, (sql, signal), r),
    ensures
        guard::stored_body(sql@) is Some <==> text::lowercase(create) == "create"@ && (
        text::lowercase(object) == "view"@ || text::lowercase(object) == "trigger"@),
        guard::stored_body(sql@) is Some ==> final(signal).ddl && final(signal).attempted,
        r is Err <==> guard::stored_body(sql@) is Some && guard::calls_pragma(
            guard::stored_body(sql@)->0,
        ),
{
    lemma_token(create, gap, temporary + gap + (object + gap + rest));
    lemma_token(temporary, gap, object + gap + rest);
    lemma_token(object, gap, rest);
    assert(object + gap + rest =~= object + gap + rest);
}

} // verus!
