//! What a merge text must be like, and how it falls into statements.
use crate::merge::baseline;
use crate::merge::baseline::{parse_baseline, validate_header, Baseline};
use crate::merge::error::MergeError;
use crate::merge::import;
use crate::merge::import::{admit_statement, plan_import, ImportPlan, ImportRun};
use crate::merge::statements;
use crate::merge::statements::{split_statements, statement_kind, Lex, StatementKind};
use crate::outside;
use crate::policy::decision::MutationSignal;
use crate::policy::guard::{check_stored_body, PolicyError};
use crate::text;
use vstd::prelude::*;
use vstd::utf8::*;

verus! {

/// A text is planned only where it starts with the format header and has bare line
/// feeds, its statements are within the limit, and there are statements exactly where
/// there is a baseline.
pub proof fn plans_are_complete(text: &str, limit: usize, r: Result<ImportPlan, MergeError>)
    requires
        call_ensures(plan_import, (text, limit), r),
    ensures
        r is Ok ==> encode_utf8("-- sqlite-mcp merge-format: 1\n"@).is_prefix_of(
            encode_utf8(text@),
        ),
        r is Ok ==> forall|i: int|
            0 <= i < encode_utf8(text@).len() - 1 && #[trigger] encode_utf8(text@)[i] == 0x0d
                ==> encode_utf8(text@)[i + 1] != 0x0a,
        r matches Ok(plan) ==> plan.statements@.len() <= limit,
        r matches Ok(plan) ==> (plan.statements@.len() == 0 <==> plan.baseline@ == Map::<
            Seq<char>,
            Seq<u8>,
        >::empty()),
        !encode_utf8("-- sqlite-mcp merge-format: 1\n"@).is_prefix_of(encode_utf8(text@)) ==> (
        r matches Err(e) && e.class@ == "MERGE_FORMAT_INVALID"@ && e.message@
            == "merge text must begin with the exact LF-terminated format header"@),
{
}

/// The header is taken exactly where the text starts with it and has bare line feeds.
pub proof fn headers_are_exact(text: &str, r: Result<usize, MergeError>)
    requires
        call_ensures(validate_header, (text,), r),
    ensures
        r is Ok <==> encode_utf8("-- sqlite-mcp merge-format: 1\n"@).is_prefix_of(
            encode_utf8(text@),
        ) && forall|i: int|
            0 <= i < encode_utf8(text@).len() - 1 && #[trigger] encode_utf8(text@)[i] == 0x0d
                ==> encode_utf8(text@)[i + 1] != 0x0a,
        r matches Ok(n) ==> n == encode_utf8("-- sqlite-mcp merge-format: 1\n"@).len(),
{
}

/// The replay of a text begins exactly where the text is planned and the request is
/// not cancelled by then, and it begins with nothing done.
pub proof fn replays_begin_with_the_plan(
    text: String,
    output: String,
    byte_count: u64,
    limit: usize,
    image_limit: usize,
    cancelled: bool,
    r: Result<ImportRun, MergeError>,
    planned: Result<ImportPlan, MergeError>,
    view: &str,
)
    requires
        view@ == text@,
        call_ensures(plan_import, (view, limit), planned),
        call_ensures(
            ImportRun::prepare,
            (text, output, byte_count, limit, image_limit, cancelled),
            r,
        ),
    ensures
        r is Ok <==> planned is Ok && !cancelled,
        r matches Ok(run) ==> {
            &&& run.plan.statements@ == planned->Ok_0.statements@
            &&& run.plan.baseline@ == planned->Ok_0.baseline@
            &&& run.text == text
            &&& run.output == output
            &&& run.byte_count == byte_count
            &&& run.image_limit == image_limit
            &&& run.stage is Open
            &&& run.done == 0
            &&& !run.owner
        },
        planned is Err && r is Err ==> r->Err_0.class@ == planned->Err_0.class@
            && r->Err_0.message@ == planned->Err_0.message@,
        planned is Ok && cancelled ==> (r matches Err(e) && e.class@ == "MERGE_LIMIT_EXCEEDED"@
            && e.message@ == "merge operation cancelled"@),
{
}

/// The byte is one that quotes, or that a comment or a bracket identifier may start
/// with.
pub open spec fn is_special(c: u8) -> bool {
    c == 0x27 || c == 0x22 || c == 0x60 || c == 0x5b || c == 0x2d || c == 0x2f
}

/// In a text without quotes, brackets and comments every semicolon ends a statement,
/// and nothing else does.
pub proof fn plain_statements_end_at_semicolons(b: Seq<u8>, from: int, i: int)
    requires
        0 <= from <= i < b.len(),
        forall|j: int| from <= j < i ==> !is_special(#[trigger] b[j]),
    ensures
        statements::terminates(b, from, i) <==> b[i] == 0x3b,
{
    lemma_plain_is_code(b, from, i);
}

proof fn lemma_plain_is_code(b: Seq<u8>, from: int, i: int)
    requires
        0 <= from <= i <= b.len(),
        forall|j: int| from <= j < i ==> !is_special(#[trigger] b[j]),
    ensures
        statements::lex_state(b, from, i) is Code,
    decreases i - from,
{
    if from < i {
        lemma_plain_is_code(b, from, i - 1);
        assert(!is_special(b[i - 1]));
    }
}

/// A quote that opens in code runs to the next such quote: no semicolon in it ends a
/// statement, and behind it there is code again unless the quote is doubled.
pub proof fn quotes_hold_semicolons(b: Seq<u8>, from: int, p: int, i: int)
    requires
        0 <= from <= p < i < b.len(),
        statements::lex_state(b, from, p) is Code,
        b[p] == 0x27 || b[p] == 0x22 || b[p] == 0x60,
        forall|j: int| p < j < i ==> #[trigger] b[j] != b[p],
    ensures
        !statements::terminates(b, from, i),
        b[i] == b[p] && (i + 1 == b.len() || b[i + 1] != b[p]) ==> statements::lex_state(
            b,
            from,
            i + 1,
        ) is Code,
        b[i] == b[p] && i + 1 < b.len() && b[i + 1] == b[p] ==> !statements::terminates(
            b,
            from,
            i + 1,
        ),
    decreases i - p,
{
    lemma_inside_quotes(b, from, p, i);
}

proof fn lemma_inside_quotes(b: Seq<u8>, from: int, p: int, i: int)
    requires
        0 <= from <= p < i < b.len(),
        statements::lex_state(b, from, p) is Code,
        b[p] == 0x27 || b[p] == 0x22 || b[p] == 0x60,
        forall|j: int| p < j < i ==> #[trigger] b[j] != b[p],
    ensures
        statements::lex_state(b, from, i) == Lex::Quote(b[p]),
    decreases i - p,
{
    if p + 1 < i {
        lemma_inside_quotes(b, from, p, i - 1);
        assert(b[i - 1] != b[p]);
    }
}

/// A bracket identifier runs to its closing bracket: no semicolon in it ends a
/// statement, and behind it there is code again unless the bracket is doubled.
pub proof fn brackets_hold_semicolons(b: Seq<u8>, from: int, p: int, i: int)
    requires
        0 <= from <= p < i < b.len(),
        statements::lex_state(b, from, p) is Code,
        b[p] == 0x5b,
        forall|j: int| p < j < i ==> #[trigger] b[j] != 0x5d,
    ensures
        !statements::terminates(b, from, i),
        b[i] == 0x5d && (i + 1 == b.len() || b[i + 1] != 0x5d) ==> statements::lex_state(
            b,
            from,
            i + 1,
        ) is Code,
{
    lemma_inside_brackets(b, from, p, i);
}

proof fn lemma_inside_brackets(b: Seq<u8>, from: int, p: int, i: int)
    requires
        0 <= from <= p < i < b.len(),
        statements::lex_state(b, from, p) is Code,
        b[p] == 0x5b,
        forall|j: int| p < j < i ==> #[trigger] b[j] != 0x5d,
    ensures
        statements::lex_state(b, from, i) is Bracket,
    decreases i - p,
{
    if p + 1 < i {
        lemma_inside_brackets(b, from, p, i - 1);
        assert(b[i - 1] != 0x5d);
    }
}

/// A line comment runs to the end of its line: no semicolon in it ends a statement,
/// and the next line is code.
pub proof fn line_comments_hold_semicolons(b: Seq<u8>, from: int, p: int, i: int)
    requires
        0 <= from <= p,
        p + 1 < i < b.len(),
        statements::lex_state(b, from, p) is Code,
        b[p] == 0x2d,
        b[p + 1] == 0x2d,
        forall|j: int| p < j < i ==> #[trigger] b[j] != 0x0a,
    ensures
        !statements::terminates(b, from, i),
        b[i] == 0x0a ==> statements::lex_state(b, from, i + 1) is Code,
{
    lemma_inside_line_comment(b, from, p, i);
}

proof fn lemma_inside_line_comment(b: Seq<u8>, from: int, p: int, i: int)
    requires
        0 <= from <= p < i < b.len(),
        p + 1 < b.len(),
        statements::lex_state(b, from, p) is Code,
        b[p] == 0x2d,
        b[p + 1] == 0x2d,
        forall|j: int| p < j < i ==> #[trigger] b[j] != 0x0a,
    ensures
        statements::lex_state(b, from, i) is LineComment,
    decreases i - p,
{
    if p + 1 < i {
        lemma_inside_line_comment(b, from, p, i - 1);
        assert(b[i - 1] != 0x0a);
    }
}

/// The closing mark of a block comment stands at this place.
pub open spec fn closes_block(b: Seq<u8>, j: int) -> bool {
    b[j] == 0x2a && j + 1 < b.len() && b[j + 1] == 0x2f
}

/// A block comment runs to its closing mark: no semicolon in it ends a statement, and
/// behind the mark there is code again.
pub proof fn block_comments_hold_semicolons(b: Seq<u8>, from: int, p: int, i: int)
    requires
        0 <= from <= p,
        p + 2 <= i < b.len(),
        statements::lex_state(b, from, p) is Code,
        b[p] == 0x2f,
        b[p + 1] == 0x2a,
        forall|j: int| p + 2 <= j < i ==> !#[trigger] closes_block(b, j),
    ensures
        !statements::terminates(b, from, i),
        closes_block(b, i) ==> statements::lex_state(b, from, i + 2) is Code,
{
    lemma_inside_block(b, from, p, i);
    if closes_block(b, i) {
        assert(statements::lex_state(b, from, i + 1) is BlockClose);
    }
}

proof fn lemma_inside_block(b: Seq<u8>, from: int, p: int, i: int)
    requires
        0 <= from <= p,
        p + 2 <= i < b.len(),
        statements::lex_state(b, from, p) is Code,
        b[p] == 0x2f,
        b[p + 1] == 0x2a,
        forall|j: int| p + 2 <= j < i ==> !#[trigger] closes_block(b, j),
    ensures
        statements::lex_state(b, from, i) is Block,
    decreases i - p,
{
    if p + 2 < i {
        lemma_inside_block(b, from, p, i - 1);
        assert(!closes_block(b, i - 1));
    } else {
        reveal_with_fuel(statements::lex_state, 3);
        assert(statements::lex_state(b, from, p + 1) is BlockOpen);
    }
}

/// The statements are the whole text from the offset on, one behind the other, each
/// through the semicolon that ends it, and every such semicolon ends one. Nothing but
/// white space is behind the last, and no comment or quote is cut off.
pub proof fn statements_are_the_whole_text(
    text: &str,
    offset: usize,
    r: Result<Vec<(usize, usize)>, MergeError>,
    i: int,
    k: int,
)
    requires
        is_char_boundary(encode_utf8(text@), offset as int),
        call_ensures(split_statements, (text, offset), r),
        offset <= encode_utf8(text@).len() <= usize::MAX,
        r is Ok,
    ensures
        ({
            let b = encode_utf8(text@);
            let n = b.len() as int;
            let ranges = r->Ok_0@;
            let end = if ranges.len() == 0 {
                offset as int
            } else {
                ranges.last().1 as int
            };
            &&& 0 <= k < ranges.len() ==> {
                &&& ranges[k].0 == if k == 0 {
                    offset as int
                } else {
                    ranges[k - 1].1 as int
                }
                &&& ranges[k].0 < ranges[k].1 <= n
                &&& b[ranges[k].1 - 1] == 0x3b
                &&& statements::terminates(b, offset as int, ranges[k].1 - 1)
            }
            &&& offset <= i < n && statements::terminates(b, offset as int, i) ==> exists|m: int|
                0 <= m < ranges.len() && (#[trigger] ranges[m]).1 == i + 1
            &&& text::blank(decode_utf8(b.subrange(end, n)))
            &&& statements::lex_state(b, offset as int, n) is Code || statements::lex_state(
                b,
                offset as int,
                n,
            ) is LineComment
        }),
{
    let b = encode_utf8(text@);
    let n = b.len() as int;
    statements::lemma_ranges_shape(b, offset as int, n);
    if offset <= i < n && statements::terminates(b, offset as int, i) {
        lemma_every_end_counts(b, offset as int, n, i);
    }
    if 0 <= k < r->Ok_0@.len() {
        assert(statements::terminates(b, offset as int, r->Ok_0@[k].1 - 1));
    }
}

proof fn lemma_every_end_counts(b: Seq<u8>, from: int, to: int, i: int)
    requires
        0 <= from <= i < to <= b.len() <= usize::MAX,
        statements::terminates(b, from, i),
    ensures
        exists|m: int|
            0 <= m < statements::statement_ranges(b, from, to).len() && (
            #[trigger] statements::statement_ranges(b, from, to)[m]).1 == i + 1,
    decreases to - from,
{
    let ranges = statements::statement_ranges(b, from, to);
    if i == to - 1 {
        assert(ranges[ranges.len() - 1].1 == i + 1);
    } else {
        lemma_every_end_counts(b, from, to - 1, i);
        let before = statements::statement_ranges(b, from, to - 1);
        let m = choose|m: int| 0 <= m < before.len() && (#[trigger] before[m]).1 == i + 1;
        assert(ranges[m] == before[m]);
    }
}

/// The first word ends at a space or a parenthesis, and holds neither.
pub proof fn first_words_end_at_spaces(s: Seq<char>)
    ensures
        statements::first_word(s).len() <= s.len(),
        forall|i: int|
            0 <= i < statements::first_word(s).len() ==> statements::first_word(s)[i]
                == #[trigger] s[i] && s[i] != '(' && s[i] != ' ' && s[i] != '\t' && s[i] != '\n'
                && s[i] != '\r' && s[i] != '\x0c',
        statements::first_word(s).len() < s.len() ==> {
            let c = s[statements::first_word(s).len() as int];
            c == '(' || c == ' ' || c == '\t' || c == '\n' || c == '\r' || c == '\x0c'
        },
    decreases s.len(),
{
    if s.len() > 0 && !statements::is_ascii_space(s[0]) && s[0] != '(' {
        let rest = s.skip(1);
        first_words_end_at_spaces(rest);
        let w = statements::first_word(rest);
        assert forall|i: int| 0 <= i < statements::first_word(s).len() implies statements::first_word(
            s,
        )[i] == #[trigger] s[i] && s[i] != '(' && s[i] != ' ' && s[i] != '\t' && s[i] != '\n'
            && s[i] != '\r' && s[i] != '\x0c' by {
            if i > 0 {
                assert(w[i - 1] == rest[i - 1]);
                assert(rest[i - 1] == s[i]);
            }
        }
        if w.len() < rest.len() {
            assert(rest[w.len() as int] == s[w.len() as int + 1]);
        }
    }
}

/// What stands before a statement is passed over: spaces and semicolons, and nothing
/// else.
pub proof fn separators_are_passed_over(s: Seq<char>)
    ensures
        statements::skip_separators(s).len() <= s.len(),
        statements::skip_separators(s) == s.skip(s.len() - statements::skip_separators(s).len()),
        forall|i: int|
            0 <= i < s.len() - statements::skip_separators(s).len() ==> #[trigger] s[i] == ';'
                || s[i] == ' ' || s[i] == '\t' || s[i] == '\n' || s[i] == '\r' || s[i] == '\x0c',
        statements::skip_separators(s).len() > 0 ==> {
            let c = statements::skip_separators(s)[0];
            c != ';' && c != ' ' && c != '\t' && c != '\n' && c != '\r' && c != '\x0c'
        },
    decreases s.len(),
{
    if s.len() > 0 && (statements::is_ascii_space(s[0]) || s[0] == ';') {
        let rest = s.skip(1);
        separators_are_passed_over(rest);
        let t = statements::skip_separators(rest);
        assert(t =~= s.skip(s.len() - t.len()));
        assert forall|i: int| 0 <= i < s.len() - t.len() implies #[trigger] s[i] == ';' || s[i]
            == ' ' || s[i] == '\t' || s[i] == '\n' || s[i] == '\r' || s[i] == '\x0c' by {
            if i > 0 {
                assert(rest[i - 1] == s[i]);
            }
        }
    } else {
        assert(s.skip(0) =~= s);
    }
}

/// A statement is of the kind of its first word, in any letter case.
pub proof fn kinds_are_told_by_the_first_word(sql: &str, r: StatementKind)
    requires
        call_ensures(statement_kind, (sql,), r),
    ensures
        ({
            let word = text::uppercase(statements::first_word(statements::statement_start(sql@)));
            &&& r is Create <==> word == "CREATE"@
            &&& r is Insert ==> word == "INSERT"@
            &&& word == "INSERT"@ && word != "CREATE"@ ==> r is Insert
            &&& r is Transaction ==> word == "BEGIN"@ || word == "COMMIT"@ || word == "ROLLBACK"@
                || word == "SAVEPOINT"@ || word == "RELEASE"@
            &&& r is Policy ==> word == "PRAGMA"@ || word == "ATTACH"@ || word == "DETACH"@ || word
                == "VACUUM"@
            &&& r is Other ==> word != "BEGIN"@ && word != "COMMIT"@ && word != "ROLLBACK"@ && word
                != "SAVEPOINT"@ && word != "RELEASE"@ && word != "PRAGMA"@ && word != "ATTACH"@
                && word != "DETACH"@ && word != "VACUUM"@
        }),
{
}

/// A statement that creates an object with a baseline is refused exactly where it
/// differs from it in a single byte.
pub proof fn creations_are_held_to_their_baseline(
    found: &Baseline,
    sql: &str,
    index: u64,
    kind: StatementKind,
    name: Seq<char>,
    r: Result<(), MergeError>,
)
    requires
        call_ensures(admit_statement, (found, sql, index), r),
        call_ensures(statement_kind, (sql,), kind),
        kind is Create,
        import::created_name(sql@) == Some(name),
    ensures
        found@.contains_key(name) && found@[name] != encode_utf8(text::trim(sql@)) ==> (
        r matches Err(e) && e.class@ == "MERGE_FORMAT_INVALID"@ && e.message@
            == "schema statement "@ + outside::debug_text(name) + " differs from its baseline"@),
        r is Ok && found@.contains_key(name) ==> found@[name] == encode_utf8(text::trim(sql@)),
{
}

/// A word holds no white space, and there is one before any that follows.
pub proof fn words_hold_no_space(s: Seq<char>, n: nat)
    ensures
        import::nth_word(s, n) matches Some(w) ==> w.len() > 0 && forall|i: int|
            0 <= i < w.len() ==> !text::is_space(#[trigger] w[i]),
        n > 0 && import::nth_word(s, n) is Some ==> import::nth_word(s, (n - 1) as nat) is Some,
    decreases n,
{
    let t = text::trim_start(s);
    lemma_trimmed(s);
    lemma_solid(t);
    let k = import::solid_len(t) as int;
    if t.len() > 0 {
        if n == 0 {
            let w = t.take(k);
            assert forall|i: int| 0 <= i < w.len() implies !text::is_space(#[trigger] w[i]) by {
                assert(w[i] == t[i]);
            }
        } else {
            words_hold_no_space(t.skip(k), (n - 1) as nat);
            if n > 1 {
                assert(import::nth_word(s, (n - 1) as nat) == import::nth_word(
                    t.skip(k),
                    (n - 2) as nat,
                ));
            }
        }
    }
}

proof fn lemma_trimmed(s: Seq<char>)
    ensures
        text::trim_start(s).len() > 0 ==> !text::is_space(text::trim_start(s)[0]),
    decreases s.len(),
{
    if s.len() > 0 && text::is_space(s[0]) {
        lemma_trimmed(s.skip(1));
    }
}

proof fn lemma_solid(s: Seq<char>)
    ensures
        import::solid_len(s) <= s.len(),
        s.len() > 0 && !text::is_space(s[0]) ==> import::solid_len(s) > 0,
        forall|i: int| 0 <= i < import::solid_len(s) ==> !text::is_space(#[trigger] s[i]),
        import::solid_len(s) < s.len() ==> text::is_space(s[import::solid_len(s) as int]),
    decreases s.len(),
{
    if s.len() > 0 && !text::is_space(s[0]) {
        let rest = s.skip(1);
        lemma_solid(rest);
        assert forall|i: int| 0 <= i < import::solid_len(s) implies !text::is_space(
            #[trigger] s[i],
        ) by {
            if i > 0 {
                assert(rest[i - 1] == s[i]);
            }
        }
        if import::solid_len(s) < s.len() {
            assert(rest[import::solid_len(rest) as int] == s[import::solid_len(s) as int]);
        }
    }
}

/// A record of a baseline is taken only where it is one, has a name and a statement,
/// and its digest is that of the statement.
pub proof fn records_are_held_to_their_digest(line: Seq<u8>)
    requires
        baseline::record_of(line) is Ok,
    ensures
        encode_utf8("-- sqlite-mcp schema-hash: v1 "@).is_prefix_of(line),
        ({
            let items = baseline::split_on(
                line.skip(encode_utf8("-- sqlite-mcp schema-hash: v1 "@).len() as int),
                0x20,
            );
            let (name, sql) = baseline::record_of(line)->Ok_0;
            &&& baseline::all_fields(items)
            &&& baseline::lookup(items, encode_utf8("name_b64"@)) matches Some(v)
                && outside::url_base64_decoded(v) is Some && valid_utf8(
                outside::url_base64_decoded(v)->0,
            ) && name == decode_utf8(outside::url_base64_decoded(v)->0)
            &&& baseline::lookup(items, encode_utf8("sql_bytes"@)) matches Some(v)
                && outside::url_base64_decoded(v) == Some(sql)
            &&& baseline::lookup(items, encode_utf8("sql_sha256"@)) == Some(
                encode_utf8(outside::sha256_hex(sql)),
            )
        }),
{
}

/// A baseline that is announced is taken only where its records are closed and there
/// are no more of them than it may have; a text that announces none has an empty one.
pub proof fn baselines_are_closed(text: &str, offset: usize, r: Result<(Baseline, usize), MergeError>)
    requires
        is_char_boundary(encode_utf8(text@), offset as int),
        call_ensures(parse_baseline, (text, offset), r),
    ensures
        ({
            let b = encode_utf8(text@);
            let announced = encode_utf8("-- sqlite-mcp schema-baseline:"@).is_prefix_of(
                baseline::skip_layout(b.skip(offset as int)),
            );
            let tail = encode_utf8("-- sqlite-mcp schema-baseline-end: v1\n"@);
            &&& !announced ==> (r matches Ok(v) && v.0@ == Map::<Seq<char>, Seq<u8>>::empty()
                && v.1 == offset)
            &&& announced && r is Ok ==> tail.is_prefix_of(b.skip(r->Ok_0.1 - tail.len()))
            &&& announced && r is Ok ==> exists|n: nat, end: int|
                #[trigger] baseline::records_of(b, end, n, Map::empty()) == Ok::<
                    _,
                    (Seq<char>, Seq<char>),
                >((r->Ok_0.0@, r->Ok_0.1 - tail.len())) && n <= 1_000_000
        }),
{
    let b = encode_utf8(text@);
    let head = encode_utf8("-- sqlite-mcp schema-baseline: v1 count="@);
    let tail = encode_utf8("-- sqlite-mcp schema-baseline-end: v1\n"@);
    if r is Ok && encode_utf8("-- sqlite-mcp schema-baseline:"@).is_prefix_of(
        baseline::skip_layout(b.skip(offset as int)),
    ) {
        let end = baseline::line_break(b, offset as int)->0;
        let line = b.subrange(offset as int, end);
        let n = baseline::count_value(line.skip(head.len() as int))->0 as nat;
        assert(baseline::records_of(b, end + 1, n, Map::empty()) == Ok::<
            _,
            (Seq<char>, Seq<char>),
        >((r->Ok_0.0@, r->Ok_0.1 - tail.len())));
    }
}

/// A baseline gives back the last statement that was recorded for a name, and keeps
/// those of the other names.
pub proof fn baselines_keep_their_records(
    found: &mut Baseline,
    name: String,
    sql: Vec<u8>,
    noted: (),
    after: &Baseline,
    asked: &str,
    got: Option<&Vec<u8>>,
)
    requires
        call_ensures(Baseline::insert, (found, name, sql), noted),
        *after == *final(found),
        call_ensures(Baseline::get, (after, asked), got),
    ensures
        asked@ == name@ ==> (got matches Some(v) && v@ == sql@),
        asked@ != name@ ==> (got is Some <==> old(found)@.contains_key(asked@)),
        asked@ != name@ && got is Some ==> got->0@ == old(found)@[asked@],
{
}

/// A word: some characters, none of them white space.
pub open spec fn is_solid(s: Seq<char>) -> bool {
    s.len() > 0 && forall|i: int| 0 <= i < s.len() ==> !text::is_space(#[trigger] s[i])
}

/// White space, and some of it.
pub open spec fn is_space_run(s: Seq<char>) -> bool {
    s.len() > 0 && text::blank(s)
}

proof fn lemma_solid_prefix(word: Seq<char>, tail: Seq<char>)
    requires
        is_solid(word),
        tail.len() == 0 || text::is_space(tail[0]),
    ensures
        import::solid_len(word + tail) == word.len(),
        text::trim_start(word + tail) == word + tail,
    decreases word.len(),
{
    let s = word + tail;
    assert(s[0] == word[0]);
    let rest = word.skip(1);
    assert(s.skip(1) =~= rest + tail);
    if rest.len() > 0 {
        assert forall|i: int| 0 <= i < rest.len() implies !text::is_space(#[trigger] rest[i]) by {
            assert(rest[i] == word[i + 1]);
        }
        lemma_solid_prefix(rest, tail);
    } else {
        assert(rest + tail =~= tail);
    }
}

proof fn lemma_spaces_go(gap: Seq<char>, rest: Seq<char>)
    requires
        text::blank(gap),
    ensures
        text::trim_start(gap + rest) == text::trim_start(rest),
    decreases gap.len(),
{
    if gap.len() > 0 {
        let tail = gap.skip(1);
        assert((gap + rest).skip(1) =~= tail + rest);
        assert((gap + rest)[0] == gap[0]);
        assert forall|i: int| 0 <= i < tail.len() implies text::is_space(#[trigger] tail[i]) by {
            assert(tail[i] == gap[i + 1]);
        }
        lemma_spaces_go(tail, rest);
    } else {
        assert(gap + rest =~= rest);
    }
}

/// The object that a statement creates is named by its third word, without the marks
/// that may quote it: `CREATE`, what is created, and the name.
pub proof fn created_names_are_third_words(
    create: Seq<char>,
    kind: Seq<char>,
    name: Seq<char>,
    gap: Seq<char>,
    rest: Seq<char>,
)
    requires
        is_solid(create),
        is_solid(kind),
        is_solid(name),
        is_space_run(gap),
        rest.len() > 0,
        !text::is_space(rest.last()),
    ensures
        import::created_name(create + (gap + (kind + (gap + (name + (gap + rest)))))) == Some(
            import::strip_marks_back(import::strip_marks_front(name)),
        ),
{
    let t3 = gap + rest;
    let s3 = name + t3;
    let t2 = gap + s3;
    let s2 = kind + t2;
    let t1 = gap + s2;
    let sql = create + t1;
    assert(t1[0] == gap[0] && t2[0] == gap[0] && t3[0] == gap[0]);
    assert(text::is_space(gap[0]));
    lemma_solid_prefix(create, t1);
    lemma_solid_prefix(kind, t2);
    lemma_solid_prefix(name, t3);
    assert(sql.last() == rest.last());
    assert(text::trim_end(sql) == sql);
    assert(text::trim(sql) == sql);
    lemma_spaces_go(gap, s2);
    lemma_spaces_go(gap, s3);
    assert(sql.skip(create.len() as int) =~= t1);
    assert(s2.skip(kind.len() as int) =~= t2);
    assert(s3.take(name.len() as int) =~= name);
    assert(import::nth_word(t2, 0) == Some(name));
    assert(import::nth_word(t1, 1) == import::nth_word(t2, 0));
    assert(import::nth_word(sql, 2) == import::nth_word(t1, 1));
}

/// A name without marks at its ends stays as it is, and one in marks loses them.
pub proof fn marks_are_stripped(name: Seq<char>, open: char, close: char)
    requires
        name.len() > 0,
        name[0] != '"' && name[0] != '`' && name[0] != '[' && name[0] != ']',
        name.last() != '"' && name.last() != '`' && name.last() != '[' && name.last() != ']',
        open == '"' || open == '`' || open == '[',
        close == '"' || close == '`' || close == ']',
    ensures
        import::strip_marks_back(import::strip_marks_front(name)) == name,
        import::strip_marks_back(import::strip_marks_front(seq![open] + name + seq![close])) == name,
{
    let s = seq![open] + name + seq![close];
    let t = name + seq![close];
    assert(s.skip(1) =~= t);
    assert(s[0] == open);
    assert(t[0] == name[0]);
    assert(import::strip_marks_front(t) == t);
    assert(import::strip_marks_front(s) == t);
    assert(t.last() == close);
    assert(t.drop_last() =~= name);
    assert(import::strip_marks_back(name) == name);
}

/// A count is decimal digits, with one plus before them at most, and it fits.
pub proof fn counts_are_digits(s: &[u8], r: Option<usize>, i: int)
    requires
        call_ensures(baseline::parse_count, (s,), r),
        r is Some,
    ensures
        s@.len() > 0,
        0 < i < s@.len() ==> 0x30 <= s@[i] <= 0x39,
        0x30 <= s@[0] <= 0x39 || s@[0] == 0x2b && s@.len() > 1,
{
    let d = baseline::unsigned(s@);
    assert(baseline::count_value(s@) == r);
    assert(baseline::all_digits(d));
    if s@[0] == 0x2b {
        if 0 < i < s@.len() {
            assert(baseline::is_digit(d[i - 1]));
        }
    } else {
        assert(baseline::is_digit(d[0]));
        if 0 < i < s@.len() {
            assert(baseline::is_digit(d[i]));
        }
    }
}

/// A line ends at the first line feed.
pub proof fn lines_end_at_the_first_line_feed(bytes: &[u8], from: usize, r: Option<usize>, i: int)
    requires
        from <= bytes@.len(),
        call_ensures(baseline::line_break_at, (bytes, from), r),
    ensures
        r matches Some(p) ==> from <= p < bytes@.len() && bytes@[p as int] == 0x0a && (from <= i < p
            ==> bytes@[i] != 0x0a),
        r is None ==> (from <= i < bytes@.len() ==> bytes@[i] != 0x0a),
{
    lemma_first_line_feed(bytes@, from as int, i);
}

proof fn lemma_first_line_feed(b: Seq<u8>, from: int, i: int)
    requires
        0 <= from <= b.len(),
    ensures
        match baseline::line_break(b, from) {
            Some(p) => from <= p < b.len() && b[p] == 0x0a && (from <= i < p ==> b[i] != 0x0a),
            None => from <= i < b.len() ==> b[i] != 0x0a,
        },
    decreases b.len() - from,
{
    if from < b.len() && b[from] != 0x0a {
        lemma_first_line_feed(b, from + 1, i);
    }
}

/// A field is parted at its first equals sign, and the last field of a name counts.
pub proof fn fields_are_parted_at_the_first_equals_sign(
    key: Seq<u8>,
    value: Seq<u8>,
    items: Seq<Seq<u8>>,
    other: Seq<u8>,
)
    requires
        forall|i: int| 0 <= i < key.len() ==> #[trigger] key[i] != 0x3d,
    ensures
        ({
            let item = key + seq![0x3du8] + value;
            &&& baseline::field_key(item) == key
            &&& baseline::field_value(item) == value
            &&& baseline::lookup(items.push(item), key) == Some(value)
            &&& other != key ==> baseline::lookup(items.push(item), other) == baseline::lookup(
                items,
                other,
            )
        }),
        baseline::index_of_byte(key, 0x3d) is None,
{
    let item = key + seq![0x3du8] + value;
    lemma_first_equals(key, value);
    let n = key.len() as int;
    assert(item.take(n) =~= key);
    assert(item.skip(n + 1) =~= value);
    assert(items.push(item).drop_last() =~= items);
}

proof fn lemma_first_equals(key: Seq<u8>, value: Seq<u8>)
    requires
        forall|i: int| 0 <= i < key.len() ==> #[trigger] key[i] != 0x3d,
    ensures
        baseline::index_of_byte(key + seq![0x3du8] + value, 0x3d) == Some(key.len() as int),
        baseline::index_of_byte(key, 0x3d) is None,
    decreases key.len(),
{
    let s = key + seq![0x3du8] + value;
    if key.len() == 0 {
        assert(s[0] == 0x3d);
    } else {
        let rest = key.skip(1);
        assert forall|i: int| 0 <= i < rest.len() implies #[trigger] rest[i] != 0x3d by {
            assert(rest[i] == key[i + 1]);
        }
        lemma_first_equals(rest, value);
        assert(s[0] == key[0]);
        assert(s.skip(1) =~= rest + seq![0x3du8] + value);
    }
}

/// A line falls apart at every separator, and only there.
pub proof fn lines_fall_apart_at_separators(a: Seq<u8>, b: Seq<u8>, sep: u8)
    requires
        forall|i: int| 0 <= i < b.len() ==> #[trigger] b[i] != sep,
    ensures
        baseline::split_on(b, sep) == seq![b],
        baseline::split_on(a + seq![sep] + b, sep) == baseline::split_on(a, sep).push(b),
    decreases b.len(),
{
    let whole = a + seq![sep] + b;
    if b.len() == 0 {
        assert(b =~= Seq::<u8>::empty());
        assert(baseline::split_on(b, sep) =~= seq![b]);
        assert(whole =~= a.push(sep));
        assert(whole.drop_last() =~= a);
        assert(b =~= Seq::<u8>::empty());
    } else {
        let init = b.drop_last();
        assert forall|i: int| 0 <= i < init.len() implies #[trigger] init[i] != sep by {
            assert(init[i] == b[i]);
        }
        lines_fall_apart_at_separators(a, init, sep);
        assert(b[b.len() - 1] != sep);
        assert(init.push(b.last()) =~= b);
        let alone = baseline::split_on(init, sep);
        assert(alone == seq![init]);
        assert(alone.drop_last() =~= Seq::<Seq<u8>>::empty());
        assert(baseline::split_on(b, sep) == alone.drop_last().push(alone.last().push(b.last())));
        assert(baseline::split_on(b, sep) =~= seq![b]);
        assert(whole.drop_last() =~= a + seq![sep] + init);
        assert(whole.last() == b.last());
        let parts = baseline::split_on(a, sep).push(init);
        assert(parts.drop_last() =~= baseline::split_on(a, sep));
        assert(parts.last() == init);
    }
}

/// Creations and insertions are admitted where their stored body is and they agree with
/// the baseline; everything else is refused by its kind, and each refusal says which
/// statement it is about.
pub proof fn statements_are_admitted_by_kind(
    found: &Baseline,
    sql: &str,
    index: u64,
    kind: StatementKind,
    signal: &mut MutationSignal,
    body: Result<(), PolicyError>,
    r: Result<(), MergeError>,
)
    requires
        call_ensures(admit_statement, (found, sql, index), r),
        call_ensures(statement_kind, (sql,), kind),
        call_ensures(check_stored_body, (sql, signal), body),
    ensures
        kind is Insert ==> (r is Ok <==> body is Ok),
        kind is Create ==> (r is Ok <==> body is Ok && !(import::created_name(
            sql@,
        ) matches Some(name) && found@.contains_key(name) && found@[name] != encode_utf8(
            text::trim(sql@),
        ))),
        kind is Insert && body is Err ==> (r matches Err(e) && e.class@ == "MERGE_POLICY_DENIED"@
            && e.message@ == "statement "@ + text::decimal(index as nat) + ": "@
            + "statement is denied by SQL policy"@),
        kind is Transaction ==> (r matches Err(e) && e.class@ == "MERGE_POLICY_DENIED"@ && e.message@
            == "transaction control is not allowed in statement "@ + text::decimal(index as nat)),
        kind is Policy ==> (r matches Err(e) && e.class@ == "MERGE_POLICY_DENIED"@ && e.message@
            == "statement "@ + text::decimal(index as nat) + " is denied by merge policy"@),
        kind is Other ==> (r matches Err(e) && e.class@ == "MERGE_FORMAT_INVALID"@ && e.message@
            == "statement "@ + text::decimal(index as nat) + " is outside the merge grammar"@),
{
}

} // verus!
