//! What importing makes of an extracted text.
//!
//! The plan of an extracted text holds the statements that were extracted, in
//! their order, and nothing else.
use crate::merge::baseline;
use crate::merge::baseline::FORMAT_HEADER;
use crate::merge::import;
use crate::merge::inert;
use crate::merge::results::ImportResult;
use crate::merge::roundtrip;
use crate::merge::schema::{StatementView, TableShape};
use crate::merge::snapshot;
use crate::merge::snapshot::TableSource;
use crate::merge::statements;
use crate::merge::statements::{LINE_FEED, SEMICOLON};
use crate::merge::values::SourceValue;
use crate::outside;
use crate::policy::guard;
use crate::sqltext;
use crate::text;
use vstd::prelude::*;
use vstd::utf8::*;

verus! {

/// The texts one after the other.
pub open spec fn flat_text(pieces: Seq<Seq<char>>) -> Seq<char>
    decreases pieces.len(),
{
    if pieces.len() == 0 {
        Seq::empty()
    } else {
        flat_text(pieces.drop_last()) + pieces.last()
    }
}

/// The bytes one after the other.
pub open spec fn flat(pieces: Seq<Seq<u8>>) -> Seq<u8>
    decreases pieces.len(),
{
    if pieces.len() == 0 {
        Seq::empty()
    } else {
        flat(pieces.drop_last()) + pieces.last()
    }
}

/// Each text in UTF-8.
pub open spec fn encoded(pieces: Seq<Seq<char>>) -> Seq<Seq<u8>> {
    pieces.map_values(|p: Seq<char>| encode_utf8(p))
}

/// The ranges of pieces that stand one after the other from `from` on. A range
/// ends with the semicolon of its piece, so that the line feed behind it starts
/// the next one.
pub open spec fn piece_ranges(from: int, pieces: Seq<Seq<u8>>) -> Seq<(usize, usize)>
    decreases pieces.len(),
{
    if pieces.len() == 0 {
        Seq::empty()
    } else {
        let before = piece_ranges(from, pieces.drop_last());
        before.push(
            (
                statements::ranges_end(before, from) as usize,
                (from + flat(pieces).len() - 1) as usize,
            ),
        )
    }
}

/// The rows of a table, each with its annotation.
pub open spec fn row_pieces(
    name: Seq<char>,
    shape: TableShape,
    rows: Seq<Vec<SourceValue>>,
    n: nat,
) -> Seq<Seq<char>> {
    Seq::new(n, |i: int| snapshot::row_text(name, shape, i as nat, rows[i]@))
}

/// A table and its rows.
pub open spec fn table_pieces(statement: StatementView, source: TableSource) -> Seq<Seq<char>> {
    seq![statement.2 + "\n"@] + row_pieces(
        statement.1,
        snapshot::source_shape(statement.1, source),
        source.rows.rows@,
        source.rows.rows@.len(),
    )
}

/// The tables among the first `n` statements with their rows.
pub open spec fn tables_pieces(
    statements: Seq<StatementView>,
    sources: Seq<TableSource>,
    n: nat,
) -> Seq<Seq<char>>
    decreases n,
{
    if n == 0 {
        Seq::empty()
    } else {
        let before = tables_pieces(statements, sources, (n - 1) as nat);
        if statements[n - 1].0 is Table {
            let k = snapshot::table_count(statements.take(n - 1)) as int;
            before + table_pieces(statements[n - 1], sources[k])
        } else {
            before
        }
    }
}

/// The other statements among the first `n`.
pub open spec fn others_pieces(statements: Seq<StatementView>, n: nat) -> Seq<Seq<char>>
    decreases n,
{
    if n == 0 {
        Seq::empty()
    } else {
        let before = others_pieces(statements, (n - 1) as nat);
        if statements[n - 1].0 is Table {
            before
        } else {
            before.push(statements[n - 1].2 + "\n"@)
        }
    }
}

/// The statements of a snapshot in the order in which they are written: each
/// table with its rows, then everything else.
pub open spec fn snapshot_pieces(
    statements: Seq<StatementView>,
    sources: Seq<TableSource>,
) -> Seq<Seq<char>> {
    tables_pieces(statements, sources, statements.len()) + others_pieces(
        statements,
        statements.len(),
    )
}

/// Nothing but its last character ends a statement in this text.
pub open spec fn is_single(sql: Seq<char>) -> bool {
    let b = encode_utf8(sql);
    &&& b.len() > 0
    &&& b.last() == SEMICOLON
    &&& inert::is_closed(b.drop_last(), Some(SEMICOLON))
}

/// Every schema statement is a single statement for the importer.
pub open spec fn all_single(statements: Seq<StatementView>) -> bool {
    forall|k: int| 0 <= k < statements.len() ==> is_single((#[trigger] statements[k]).2)
}

/// The doubles of the table's rows are displayed as numbers.
pub open spec fn source_is_calm(source: TableSource) -> bool {
    forall|i: int|
        0 <= i < source.rows.rows@.len() ==> inert::row_is_calm(
            (#[trigger] source.rows.rows@[i])@,
        )
}

pub open spec fn all_calm(sources: Seq<TableSource>) -> bool {
    forall|k: int| 0 <= k < sources.len() ==> source_is_calm(#[trigger] sources[k])
}

/// The codes in the annotations of the table's rows can be read back.
pub open spec fn source_codes_read_back(name: Seq<char>, source: TableSource) -> bool {
    forall|i: int|
        0 <= i < source.rows.rows@.len() ==> inert::row_codes_read_back(
            name,
            (#[trigger] source.rows.rows@[i])@,
        )
}

/// The codes in the annotations of all tables among the first `n` statements can
/// be read back.
pub open spec fn all_codes_read_back(
    statements: Seq<StatementView>,
    sources: Seq<TableSource>,
    n: nat,
) -> bool {
    forall|k: int|
        0 <= k < n && (#[trigger] statements[k]).0 is Table ==> source_codes_read_back(
            statements[k].1,
            sources[snapshot::table_count(statements.take(k)) as int],
        )
}

/// The plan that importing reads from the text of a snapshot: the baseline of
/// its schema statements, and its statements one by one.
pub open spec fn replays(
    text: Seq<char>,
    statements: Seq<StatementView>,
    sources: Seq<TableSource>,
) -> bool {
    let pieces = encoded(snapshot_pieces(statements, sources));
    let from = encode_utf8(FORMAT_HEADER@ + snapshot::baseline_text(statements)).len() as int;
    forall|limit: nat|
        pieces.len() <= limit ==> #[trigger] import::plan_of(text, limit) == Ok::<
            import::PlanView,
            (Seq<char>, Seq<char>),
        >((roundtrip::add_all(Map::empty(), statements), piece_ranges(from, pieces)))
}

proof fn lemma_flat_text_concat(a: Seq<Seq<char>>, b: Seq<Seq<char>>)
    ensures
        flat_text(a + b) == flat_text(a) + flat_text(b),
    decreases b.len(),
{
    if b.len() == 0 {
        assert(a + b =~= a);
        assert(flat_text(a) + flat_text(b) =~= flat_text(a));
    } else {
        assert((a + b).drop_last() =~= a + b.drop_last());
        lemma_flat_text_concat(a, b.drop_last());
        assert(flat_text(a + b) =~= flat_text(a) + flat_text(b));
    }
}

proof fn lemma_flat_encoded(pieces: Seq<Seq<char>>)
    ensures
        flat(encoded(pieces)) == encode_utf8(flat_text(pieces)),
    decreases pieces.len(),
{
    if pieces.len() == 0 {
        assert(encode_utf8(Seq::<char>::empty()) =~= Seq::<u8>::empty());
    } else {
        lemma_flat_encoded(pieces.drop_last());
        assert(encoded(pieces).drop_last() =~= encoded(pieces.drop_last()));
        roundtrip::lemma_encode_concat(flat_text(pieces.drop_last()), pieces.last());
    }
}

/// The text of the rows is the pieces of the rows, and each is a piece.
proof fn lemma_rows_are_pieces(
    label: Seq<char>,
    name: Seq<char>,
    shape: TableShape,
    rows: Seq<Vec<SourceValue>>,
    n: nat,
    count: nat,
    limit: nat,
)
    requires
        n <= rows.len(),
        snapshot::rows_text(label, name, shape, rows, n, count, limit) is Ok,
    ensures
        snapshot::rows_text(label, name, shape, rows, n, count, limit)->Ok_0.0 == flat_text(
            row_pieces(name, shape, rows, n),
        ),
        forall|i: int| 0 <= i < n ==> snapshot::row_literals((#[trigger] rows[i])@) is Ok,
    decreases n,
{
    let pieces = row_pieces(name, shape, rows, n);
    if n > 0 {
        lemma_rows_are_pieces(label, name, shape, rows, (n - 1) as nat, count, limit);
        assert(pieces.drop_last() =~= row_pieces(name, shape, rows, (n - 1) as nat));
    }
}

proof fn lemma_table_is_pieces(
    label: Seq<char>,
    statement: StatementView,
    source: TableSource,
    count: nat,
    limit: nat,
)
    requires
        snapshot::table_text(label, statement, source, count, limit) is Ok,
    ensures
        snapshot::table_text(label, statement, source, count, limit)->Ok_0.0 == flat_text(
            table_pieces(statement, source),
        ),
        is_single(statement.2) && source_is_calm(source) && source_codes_read_back(
            statement.1,
            source,
        ) ==> all_pieces(encoded(table_pieces(statement, source))),
{
    let shape = snapshot::source_shape(statement.1, source);
    let rows = source.rows.rows@;
    let first = seq![statement.2 + "\n"@];
    lemma_rows_are_pieces(label, statement.1, shape, rows, rows.len(), count, limit);
    lemma_flat_text_concat(first, row_pieces(statement.1, shape, rows, rows.len()));
    assert(first.drop_last() =~= Seq::<Seq<char>>::empty());
    assert(flat_text(Seq::<Seq<char>>::empty()) =~= Seq::<char>::empty());
    assert(flat_text(first) =~= statement.2 + "\n"@);
    if is_single(statement.2) && source_is_calm(source) && source_codes_read_back(
        statement.1,
        source,
    ) {
        let pieces = table_pieces(statement, source);
        assert forall|k: int| 0 <= k < encoded(pieces).len() implies inert::is_piece(
            #[trigger] encoded(pieces)[k],
        ) by {
            if k == 0 {
                lemma_single_is_piece(statement.2);
            } else {
                let row = rows[k - 1];
                assert(pieces[k] == snapshot::row_text(statement.1, shape, (k - 1) as nat, row@));
                inert::lemma_row_is_piece(statement.1, shape, (k - 1) as nat, row@);
            }
        }
    }
}

pub open spec fn all_pieces(pieces: Seq<Seq<u8>>) -> bool {
    forall|k: int| 0 <= k < pieces.len() ==> inert::is_piece(#[trigger] pieces[k])
}

proof fn lemma_single_is_piece(sql: Seq<char>)
    requires
        is_single(sql),
    ensures
        inert::is_piece(encode_utf8(sql + "\n"@)),
{
    let b = encode_utf8(sql);
    reveal_strlit("\n");
    roundtrip::lemma_encode_concat(sql, "\n"@);
    roundtrip::lemma_ascii_codes("\n"@);
    assert(encode_utf8("\n"@) =~= seq![LINE_FEED]);
    let p = encode_utf8(sql + "\n"@);
    assert(p =~= b.push(LINE_FEED));
    assert(p.take(p.len() - 2) =~= b.drop_last());
}

#[verifier::spinoff_prover]
#[verifier::rlimit(40)]
proof fn lemma_tables_are_pieces(
    label: Seq<char>,
    statements: Seq<StatementView>,
    sources: Seq<TableSource>,
    n: nat,
    limit: nat,
)
    requires
        n <= statements.len(),
        snapshot::tables_text(label, statements, sources, n, limit) is Ok,
        sources.len() == snapshot::table_count(statements),
    ensures
        snapshot::tables_text(label, statements, sources, n, limit)->Ok_0.0 == flat_text(
            tables_pieces(statements, sources, n),
        ),
        all_single(statements) && all_calm(sources) && all_codes_read_back(statements, sources, n)
            ==> all_pieces(encoded(tables_pieces(statements, sources, n))),
    decreases n,
{
    if n > 0 {
        lemma_tables_are_pieces(label, statements, sources, (n - 1) as nat, limit);
        let s = statements[n - 1];
        let before = tables_pieces(statements, sources, (n - 1) as nat);
        if s.0 is Table {
            let k = snapshot::table_count(statements.take(n - 1)) as int;
            let c = snapshot::tables_text(label, statements, sources, (n - 1) as nat, limit)->Ok_0.1;
            let own = table_pieces(s, sources[k]);
            lemma_table_is_pieces(label, s, sources[k], c, limit);
            lemma_flat_text_concat(before, own);
            if all_single(statements) && all_calm(sources) && all_codes_read_back(
                statements,
                sources,
                n,
            ) {
                snapshot::lemma_table_count_monotone(statements, n as int);
                assert(statements.take(n as int).drop_last() =~= statements.take(n - 1));
                assert(source_is_calm(sources[k]));
                assert(source_codes_read_back(s.1, sources[k]));
                assert(encoded(before + own) =~= encoded(before) + encoded(own));
            }
        }
    }
}

proof fn lemma_others_are_pieces(statements: Seq<StatementView>, n: nat, count: nat, limit: nat)
    requires
        n <= statements.len(),
        snapshot::others_text(statements, n, count, limit) is Ok,
    ensures
        snapshot::others_text(statements, n, count, limit)->Ok_0.0 == flat_text(
            others_pieces(statements, n),
        ),
        all_single(statements) ==> all_pieces(encoded(others_pieces(statements, n))),
    decreases n,
{
    if n > 0 {
        lemma_others_are_pieces(statements, (n - 1) as nat, count, limit);
        let s = statements[n - 1];
        let before = others_pieces(statements, (n - 1) as nat);
        if !(s.0 is Table) {
            let own = s.2 + "\n"@;
            assert(before.push(own).drop_last() =~= before);
            assert(flat_text(before.push(own)) =~= flat_text(before) + s.2 + "\n"@);
            if all_single(statements) {
                lemma_single_is_piece(s.2);
                assert(encoded(before.push(own)) =~= encoded(before).push(encode_utf8(own)));
            }
        }
    }
}

/// Pieces that stand one after the other are split into one statement each.
proof fn lemma_pieces_split(before: Seq<u8>, pieces: Seq<Seq<u8>>, n: nat)
    requires
        n <= pieces.len(),
        all_pieces(pieces),
    ensures
        ({
            let w = before + flat(pieces);
            let from = before.len() as int;
            let at = from + flat(pieces.take(n as int)).len();
            &&& at <= w.len()
            &&& statements::lex_state(w, from, at) is Code
            &&& statements::statement_ranges(w, from, at) == piece_ranges(
                from,
                pieces.take(n as int),
            )
        }),
    decreases n,
{
    let w = before + flat(pieces);
    let from = before.len() as int;
    lemma_flat_prefix(pieces, n as int);
    if n == 0 {
        assert(pieces.take(0) =~= Seq::<Seq<u8>>::empty());
    } else {
        lemma_pieces_split(before, pieces, (n - 1) as nat);
        let p = pieces[n - 1];
        let earlier = flat(pieces.take(n - 1));
        assert(pieces.take(n as int).drop_last() =~= pieces.take(n - 1));
        assert(flat(pieces.take(n as int)) == earlier + p);
        let i = from + earlier.len();
        assert(w.subrange(i, i + p.len()) =~= p) by {
            assert forall|j: int| 0 <= j < p.len() implies w[i + j] == p[j] by {
                assert(flat(pieces)[earlier.len() + j] == (earlier + p)[earlier.len() + j]);
            }
        }
        inert::lemma_piece_adds_one_statement(w, from, i, p);
    }
}

proof fn lemma_flat_prefix(pieces: Seq<Seq<u8>>, n: int)
    requires
        0 <= n <= pieces.len(),
    ensures
        flat(pieces.take(n)).is_prefix_of(flat(pieces)),
    decreases pieces.len(),
{
    if n < pieces.len() {
        lemma_flat_prefix(pieces.drop_last(), n);
        assert(pieces.drop_last().take(n) =~= pieces.take(n));
    } else {
        assert(pieces.take(n) =~= pieces);
    }
}

/// A text of pieces is split into one statement each.
pub proof fn lemma_split_of_pieces(before: Seq<u8>, pieces: Seq<Seq<u8>>)
    requires
        all_pieces(pieces),
        before.len() + flat(pieces).len() <= usize::MAX,
    ensures
        statements::split_result(before + flat(pieces), before.len() as int) == Ok::<
            Seq<(usize, usize)>,
            (Seq<char>, Seq<char>),
        >(piece_ranges(before.len() as int, pieces)),
{
    let w = before + flat(pieces);
    let from = before.len() as int;
    let n = w.len() as int;
    lemma_pieces_split(before, pieces, pieces.len());
    assert(pieces.take(pieces.len() as int) =~= pieces);
    let ranges = piece_ranges(from, pieces);
    assert(statements::statement_ranges(w, from, n) == ranges);
    if pieces.len() == 0 {
        let rest = w.subrange(from, n);
        assert(rest =~= Seq::<u8>::empty());
        assert(text::blank(decode_utf8(rest)));
    } else {
        assert(inert::is_piece(pieces.last()));
        assert(flat(pieces).last() == LINE_FEED);
        let rest = w.subrange(n - 1, n);
        assert(rest =~= seq![LINE_FEED]);
        reveal_strlit("\n");
        roundtrip::lemma_ascii_codes("\n"@);
        assert(encode_utf8("\n"@) =~= rest);
        encode_utf8_decode_utf8("\n"@);
        assert(text::blank("\n"@));
    }
}

proof fn lemma_add_all_grows(map: Map<Seq<char>, Seq<u8>>, statements: Seq<StatementView>, k: Seq<char>)
    requires
        map.contains_key(k),
    ensures
        roundtrip::add_all(map, statements).contains_key(k),
    decreases statements.len(),
{
    if statements.len() > 0 {
        lemma_add_all_grows(
            map.insert(statements[0].1, encode_utf8(statements[0].2)),
            statements.skip(1),
            k,
        );
    }
}

/// The baseline of some statements is not empty.
proof fn lemma_baseline_is_inhabited(statements: Seq<StatementView>)
    requires
        statements.len() > 0,
    ensures
        roundtrip::add_all(Map::empty(), statements) != Map::<Seq<char>, Seq<u8>>::empty(),
{
    let first = Map::<Seq<char>, Seq<u8>>::empty().insert(
        statements[0].1,
        encode_utf8(statements[0].2),
    );
    lemma_add_all_grows(first, statements.skip(1), statements[0].1);
    assert(roundtrip::add_all(Map::empty(), statements).contains_key(statements[0].1));
}

/// The plan of an extracted text holds the statements that were extracted, in
/// their order, and nothing else, with the baseline of its schema statements.
///
/// Two extractions are left out that importing refuses or splits otherwise: a
/// text with a carriage return before a line feed, and a schema statement with a
/// semicolon inside, such as the body of a trigger.
pub proof fn extraction_replays(
    label: Seq<char>,
    statements: Seq<StatementView>,
    sources: Seq<TableSource>,
    limit: nat,
)
    requires
        0 < statements.len() <= baseline::BASELINE_COUNT_LIMIT,
        sources.len() == snapshot::table_count(statements),
        all_single(statements),
        all_calm(sources),
        all_codes_read_back(statements, sources, statements.len()),
        forall|k: int|
            0 <= k < statements.len() ==> roundtrip::codes_read_back(#[trigger] statements[k]),
        snapshot::snapshot_text(label, statements, sources, limit) matches Ok(v) && encode_utf8(
            v.0,
        ).len() <= usize::MAX && !baseline::contains_crlf(encode_utf8(v.0)),
    ensures
        replays(
            snapshot::snapshot_text(label, statements, sources, limit)->Ok_0.0,
            statements,
            sources,
        ),
{
    let t = snapshot::snapshot_text(label, statements, sources, limit)->Ok_0.0;
    let n = statements.len();
    let (tables, c) = snapshot::tables_text(label, statements, sources, n, limit)->Ok_0;
    let (others, d) = snapshot::others_text(statements, n, c, limit)->Ok_0;
    let base = snapshot::baseline_text(statements);
    let first = tables_pieces(statements, sources, n);
    let second = others_pieces(statements, n);
    let pieces = snapshot_pieces(statements, sources);
    lemma_tables_are_pieces(label, statements, sources, n, limit);
    lemma_others_are_pieces(statements, n, c, limit);
    lemma_flat_text_concat(first, second);
    lemma_flat_encoded(pieces);
    assert(encoded(pieces) =~= encoded(first) + encoded(second));
    let before = encode_utf8(FORMAT_HEADER@ + base);
    assert(t =~= FORMAT_HEADER@ + base + (tables + others));
    roundtrip::lemma_encode_concat(FORMAT_HEADER@ + base, tables + others);
    let b = encode_utf8(t);
    assert(b == before + flat(encoded(pieces)));
    lemma_split_of_pieces(before, encoded(pieces));
    roundtrip::baseline_reads_back(statements, tables + others);
    lemma_header_is_first(base, tables + others);
    assert(baseline::valid_header(t));
    lemma_pieces_are_counted(statements, sources, n);
    lemma_ranges_count(before.len() as int, encoded(pieces));
    lemma_baseline_is_inhabited(statements);
    let map = roundtrip::add_all(Map::empty(), statements);
    let ranges = piece_ranges(before.len() as int, encoded(pieces));
    assert(baseline::baseline_of(b, baseline::ascii(FORMAT_HEADER).len() as int) == Ok::<
        (Map<Seq<char>, Seq<u8>>, int),
        (Seq<char>, Seq<char>),
    >((map, before.len() as int)));
    assert(statements::split_result(b, before.len() as int) == Ok::<
        Seq<(usize, usize)>,
        (Seq<char>, Seq<char>),
    >(ranges));
}

/// The header is the first thing in the text.
proof fn lemma_header_is_first(base: Seq<char>, rest: Seq<char>)
    ensures
        ({
            let header = baseline::ascii(FORMAT_HEADER);
            let b = encode_utf8(FORMAT_HEADER@ + base + rest);
            &&& header.is_prefix_of(b)
            &&& encode_utf8(FORMAT_HEADER@ + base).len() == header.len() + encode_utf8(base).len()
        }),
{
    let header = baseline::ascii(FORMAT_HEADER);
    roundtrip::lemma_encode_concat(FORMAT_HEADER@ + base, rest);
    roundtrip::lemma_encode_concat(FORMAT_HEADER@, base);
    reveal_strlit("-- sqlite-mcp merge-format: 1\n");
    roundtrip::lemma_ascii_codes(FORMAT_HEADER@);
    assert(encode_utf8(FORMAT_HEADER@) =~= header);
}

proof fn lemma_ranges_count(from: int, pieces: Seq<Seq<u8>>)
    ensures
        piece_ranges(from, pieces).len() == pieces.len(),
    decreases pieces.len(),
{
    if pieces.len() > 0 {
        lemma_ranges_count(from, pieces.drop_last());
    }
}

/// Importing the text plans no statement, and reads no baseline.
pub open spec fn plans_nothing(text: Seq<char>) -> bool {
    forall|limit: nat| #[trigger]
        import::plan_of(text, limit) == Ok::<import::PlanView, (Seq<char>, Seq<char>)>(
            (Map::empty(), Seq::empty()),
        )
}

/// A database without schema is read back as one: the plan of its text is empty.
pub proof fn empty_extraction_replays(label: Seq<char>, extract_limit: nat, import_limit: nat)
    ensures
        snapshot::snapshot_text(label, Seq::empty(), Seq::empty(), extract_limit) == Ok::<
            (Seq<char>, nat),
            (Seq<char>, Seq<char>),
        >((FORMAT_HEADER@, 0)),
        import::plan_of(FORMAT_HEADER@, import_limit) == Ok::<
            import::PlanView,
            (Seq<char>, Seq<char>),
        >((Map::empty(), Seq::empty())),
{
    let b = encode_utf8(FORMAT_HEADER@);
    let header = baseline::ascii(FORMAT_HEADER);
    reveal_strlit("-- sqlite-mcp merge-format: 1\n");
    reveal_strlit("-- sqlite-mcp schema-baseline:");
    roundtrip::lemma_ascii_codes(FORMAT_HEADER@);
    assert(b =~= header);
    assert(baseline::valid_header(FORMAT_HEADER@));
    let n = header.len() as int;
    assert(b.skip(n) =~= Seq::<u8>::empty());
    assert(baseline::skip_layout(b.skip(n)) =~= Seq::<u8>::empty());
    assert(baseline::ascii("-- sqlite-mcp schema-baseline:").len() > 0);
    assert(b.subrange(n, n) =~= Seq::<u8>::empty());
    assert(statements::statement_ranges(b, n, n) =~= Seq::<(usize, usize)>::empty());
}

/// Where the pieces before the `k`th end.
proof fn lemma_range_bounds(from: int, pieces: Seq<Seq<u8>>, k: int)
    requires
        0 <= from,
        0 <= k < pieces.len(),
        all_pieces(pieces),
        from + flat(pieces).len() <= usize::MAX,
    ensures
        ({
            let r = piece_ranges(from, pieces)[k];
            let start = from + flat(pieces.take(k)).len();
            &&& r.0 == if k == 0 {
                from
            } else {
                start - 1
            }
            &&& r.1 == start + pieces[k].len() - 1
        }),
    decreases pieces.len(),
{
    let init = pieces.drop_last();
    lemma_ranges_count(from, pieces);
    lemma_ranges_count(from, init);
    assert(all_pieces(init)) by {
        assert forall|j: int| 0 <= j < init.len() implies inert::is_piece(#[trigger] init[j]) by {
            assert(init[j] == pieces[j]);
        }
    }
    if k < init.len() {
        lemma_range_bounds(from, init, k);
        assert(init.take(k) =~= pieces.take(k));
        assert(init[k] == pieces[k]);
    } else {
        assert(pieces.take(k) =~= init);
        assert(inert::is_piece(pieces[k]));
        if k > 0 {
            lemma_range_bounds(from, init, k - 1);
            assert(init.take(k - 1) =~= init.drop_last());
            assert(flat(init) == flat(init.drop_last()) + init.last());
        }
    }
}

/// Each range of the plan holds its own statement: behind the line feed that
/// the statement before it leaves, the bytes of the piece up to its semicolon.
pub proof fn ranges_hold_their_statements(before: Seq<u8>, pieces: Seq<Seq<u8>>, k: int)
    requires
        0 <= k < pieces.len(),
        all_pieces(pieces),
        before.len() + flat(pieces).len() <= usize::MAX,
    ensures
        ({
            let r = piece_ranges(before.len() as int, pieces)[k];
            (before + flat(pieces)).subrange(r.0 as int, r.1 as int) == if k == 0 {
                pieces[k].drop_last()
            } else {
                seq![LINE_FEED] + pieces[k].drop_last()
            }
        }),
{
    let w = before + flat(pieces);
    let from = before.len() as int;
    let p = pieces[k];
    let earlier = flat(pieces.take(k));
    let start = from + earlier.len();
    lemma_range_bounds(from, pieces, k);
    lemma_flat_prefix(pieces, k + 1);
    assert(pieces.take(k + 1).drop_last() =~= pieces.take(k));
    assert(flat(pieces.take(k + 1)) == earlier + p);
    assert forall|j: int| 0 <= j < p.len() implies w[start + j] == p[j] by {
        assert(flat(pieces)[earlier.len() + j] == (earlier + p)[earlier.len() + j]);
    }
    let r = piece_ranges(from, pieces)[k];
    let held = w.subrange(r.0 as int, r.1 as int);
    if k == 0 {
        assert(pieces.take(0) =~= Seq::<Seq<u8>>::empty());
        assert(held =~= p.drop_last());
    } else {
        let prior = pieces[k - 1];
        assert(inert::is_piece(prior));
        assert(pieces.take(k).drop_last() =~= pieces.take(k - 1));
        assert(earlier == flat(pieces.take(k - 1)) + prior);
        assert(w[start - 1] == LINE_FEED) by {
            assert(flat(pieces)[earlier.len() - 1] == (earlier + p)[earlier.len() - 1]);
        }
        assert(held =~= seq![LINE_FEED] + p.drop_last());
    }
}

/// The rest of a line ends at its line feed.
proof fn lemma_after_line(line: Seq<char>, rest: Seq<char>)
    requires
        !line.contains('\n'),
    ensures
        sqltext::after_line(line + "\n"@ + rest) == rest,
    decreases line.len(),
{
    reveal_strlit("\n");
    let s = line + "\n"@ + rest;
    if line.len() == 0 {
        assert(s.skip(1) =~= rest);
    } else {
        assert(line.contains(line[0]));
        assert(s.skip(1) =~= line.skip(1) + "\n"@ + rest);
        assert(!line.skip(1).contains('\n')) by {
            if line.skip(1).contains('\n') {
                let j = choose|j: int| 0 <= j < line.skip(1).len() && line.skip(1)[j] == '\n';
                assert(line[j + 1] == '\n');
            }
        }
        lemma_after_line(line.skip(1), rest);
    }
}

/// The annotation of a row is a comment of one line.
proof fn lemma_annotation_is_comment(name: Seq<char>, ordinal: nat, row: Seq<SourceValue>)
    requires
        inert::row_codes_read_back(name, row),
    ensures
        sqltext::opens_line_comment(inert::annotation_line(name, ordinal, row)),
        !inert::annotation_line(name, ordinal, row).contains('\n'),
{
    let note = inert::annotation_line(name, ordinal, row);
    let json = encode_utf8(outside::json_objects(snapshot::row_members(row)));
    reveal_strlit("-- sqlite-mcp typed-value: v1 table_b64=");
    reveal_strlit(" row=");
    reveal_strlit(" values_b64=");
    let a = "-- sqlite-mcp typed-value: v1 table_b64="@;
    let n = outside::url_base64(encode_utf8(name));
    let d = text::decimal(ordinal);
    let j = outside::url_base64(json);
    roundtrip::lemma_base64_plain(encode_utf8(name));
    roundtrip::lemma_base64_plain(json);
    roundtrip::lemma_decimal(ordinal);
    assert(note[0] == a[0] && note[1] == a[1]);
    assert(!(a + n).contains('\n'));
    assert(!(a + n + " row="@).contains('\n'));
    assert(!(a + n + " row="@ + d).contains('\n'));
    assert(!(a + n + " row="@ + d + " values_b64="@).contains('\n'));
    assert(note =~= a + n + " row="@ + d + " values_b64="@ + j);
}

/// Whatever a row holds, the importer admits its statement: it is an `INSERT`
/// and never held to a baseline or taken for a stored body.
pub proof fn rows_are_admitted(
    map: Map<Seq<char>, Seq<u8>>,
    name: Seq<char>,
    shape: TableShape,
    ordinal: nat,
    row: Seq<SourceValue>,
    index: nat,
)
    requires
        inert::row_codes_read_back(name, row),
    ensures
        import::admission_fault(
            map,
            "\n"@ + snapshot::row_text(name, shape, ordinal, row).drop_last(),
            index,
        ) is None,
{
    let note = inert::annotation_line(name, ordinal, row);
    let literals = snapshot::row_literals(row)->Ok_0;
    let statement = inert::insert_head(name, shape, literals) + ";"@;
    let sql = "\n"@ + snapshot::row_text(name, shape, ordinal, row).drop_last();
    lemma_annotation_is_comment(name, ordinal, row);
    reveal_strlit("\n");
    reveal_strlit(";");
    reveal_strlit(")");
    reveal_strlit(");\n");
    reveal_strlit("INSERT INTO ");
    reveal_strlit("INSERT");
    reveal_strlit("CREATE");
    reveal_strlit("create");
    assert(");\n"@ =~= ")"@ + ";"@ + "\n"@);
    assert(sql =~= "\n"@ + note + "\n"@ + statement);
    let behind = note + "\n"@ + statement;
    assert(sql.skip(1) =~= behind);
    assert(behind[0] == note[0] && behind[1] == note[1]);
    assert(statements::skip_separators(behind) == behind);
    assert(statements::skip_separators(sql) == behind);
    assert(text::trim_start(behind) == behind);
    assert(text::trim_start(sql) == behind);
    let line = note.skip(2);
    assert(behind.skip(2) =~= line + "\n"@ + statement);
    assert(!line.contains('\n')) by {
        if line.contains('\n') {
            let j = choose|j: int| 0 <= j < line.len() && line[j] == '\n';
            assert(note[j + 2] == '\n');
        }
    }
    lemma_after_line(line, statement);
    let word = "INSERT"@;
    assert(statement[0] == 'I' && statement[1] == 'N' && statement[2] == 'S' && statement[3] == 'E'
        && statement[4] == 'R' && statement[5] == 'T' && statement[6] == ' ');
    assert(text::trim_start(statement) == statement);
    assert(sqltext::skip_trivia(statement) == statement);
    assert(sqltext::skip_trivia(behind) == statement);
    assert(sqltext::skip_trivia(sql) == statement);
    lemma_first_word(statement, 0);
    assert(statements::first_word(statement) == word);
    assert(text::uppercase(word) =~= word);
    assert(word[0] == 'I' && "CREATE"@[0] == 'C');
    assert(statements::kind_of(sql) is Insert);
    guard::lemma_word_len(statement);
    let token = guard::next_token(sql);
    assert(token matches Some((t, _)) && t.len() > 0 && t[0] == 'I');
    let (first, _) = token->0;
    assert(text::lowercase(first)[0] == 'i');
    assert("create"@[0] == 'c');
    assert(!guard::token_is(token, "create"@));
}

/// The first word of a statement that starts with `INSERT`.
proof fn lemma_first_word(s: Seq<char>, i: int)
    requires
        0 <= i <= 6,
        s.len() > 6,
        s[0] == 'I' && s[1] == 'N' && s[2] == 'S' && s[3] == 'E' && s[4] == 'R' && s[5] == 'T'
            && s[6] == ' ',
    ensures
        statements::first_word(s.skip(i)) == "INSERT"@.skip(i),
        i == 0 ==> statements::first_word(s) == "INSERT"@,
    decreases 6 - i,
{
    reveal_strlit("INSERT");
    let w = "INSERT"@;
    assert(s.skip(0) =~= s);
    assert(w.skip(0) =~= w);
    if i < 6 {
        lemma_first_word(s, i + 1);
        assert(s.skip(i).skip(1) =~= s.skip(i + 1));
        assert(seq![w[i]] + w.skip(i + 1) =~= w.skip(i));
    } else {
        assert(w.skip(6) =~= Seq::<char>::empty());
    }
}

/// The baseline of the schema statements.
pub open spec fn baseline_map(statements: Seq<StatementView>) -> Map<Seq<char>, Seq<u8>> {
    roundtrip::add_all(Map::empty(), statements)
}

/// The importer admits each schema statement, taken by itself.
pub open spec fn all_admissible(statements: Seq<StatementView>) -> bool {
    forall|j: int, index: nat|
        0 <= j < statements.len() ==> #[trigger] import::admission_fault(
            baseline_map(statements),
            statements[j].2,
            index,
        ) is None
}

/// The importer admits every statement of the plan of a snapshot's text.
pub open spec fn is_admitted(
    text: Seq<char>,
    statements: Seq<StatementView>,
    sources: Seq<TableSource>,
) -> bool {
    let pieces = snapshot_pieces(statements, sources);
    let from = encode_utf8(FORMAT_HEADER@ + snapshot::baseline_text(statements)).len() as int;
    let ranges = piece_ranges(from, encoded(pieces));
    forall|k: int, index: nat|
        0 <= k < pieces.len() ==> #[trigger] import::admission_fault(
            baseline_map(statements),
            import::statement_at(text, ranges, k),
            index,
        ) is None
}

/// A line feed before a statement changes nothing about its admission.
proof fn lemma_line_feed_is_ignored(map: Map<Seq<char>, Seq<u8>>, sql: Seq<char>, index: nat)
    ensures
        import::admission_fault(map, "\n"@ + sql, index) == import::admission_fault(
            map,
            sql,
            index,
        ),
{
    reveal_strlit("\n");
    let s = "\n"@ + sql;
    assert(s[0] == '\n');
    assert(s.skip(1) =~= sql);
    assert(text::trim_start(s) == text::trim_start(sql));
    assert(statements::skip_separators(s) == statements::skip_separators(sql));
    assert(sqltext::skip_trivia(s) == sqltext::skip_trivia(sql));
    assert(guard::next_token(s) == guard::next_token(sql));
}

/// A piece is a statement that is admitted, and a line feed.
pub open spec fn is_admitted_piece(
    map: Map<Seq<char>, Seq<u8>>,
    piece: Seq<char>,
    index: nat,
) -> bool {
    &&& piece.len() > 0
    &&& piece.last() == '\n'
    &&& import::admission_fault(map, piece.drop_last(), index) is None
}

pub open spec fn all_admitted_pieces(
    map: Map<Seq<char>, Seq<u8>>,
    pieces: Seq<Seq<char>>,
    index: nat,
) -> bool {
    forall|k: int| 0 <= k < pieces.len() ==> is_admitted_piece(map, #[trigger] pieces[k], index)
}

proof fn lemma_row_piece_is_admitted(
    map: Map<Seq<char>, Seq<u8>>,
    name: Seq<char>,
    shape: TableShape,
    ordinal: nat,
    row: Seq<SourceValue>,
    index: nat,
)
    requires
        inert::row_codes_read_back(name, row),
    ensures
        is_admitted_piece(map, snapshot::row_text(name, shape, ordinal, row), index),
{
    let piece = snapshot::row_text(name, shape, ordinal, row);
    reveal_strlit(");\n");
    assert(piece.last() == '\n');
    rows_are_admitted(map, name, shape, ordinal, row, index);
    lemma_line_feed_is_ignored(map, piece.drop_last(), index);
}

proof fn lemma_schema_piece_is_admitted(
    map: Map<Seq<char>, Seq<u8>>,
    sql: Seq<char>,
    index: nat,
)
    requires
        import::admission_fault(map, sql, index) is None,
    ensures
        is_admitted_piece(map, sql + "\n"@, index),
{
    reveal_strlit("\n");
    assert((sql + "\n"@).drop_last() =~= sql);
}

proof fn lemma_table_pieces_are_admitted(
    map: Map<Seq<char>, Seq<u8>>,
    statement: StatementView,
    source: TableSource,
    index: nat,
)
    requires
        import::admission_fault(map, statement.2, index) is None,
        source_codes_read_back(statement.1, source),
    ensures
        all_admitted_pieces(map, table_pieces(statement, source), index),
{
    let pieces = table_pieces(statement, source);
    let shape = snapshot::source_shape(statement.1, source);
    let rows = source.rows.rows@;
    assert forall|k: int| 0 <= k < pieces.len() implies is_admitted_piece(
        map,
        #[trigger] pieces[k],
        index,
    ) by {
        if k == 0 {
            assert(pieces[0] == statement.2 + "\n"@);
            lemma_schema_piece_is_admitted(map, statement.2, index);
        } else {
            let i = k - 1;
            assert(pieces[k] == snapshot::row_text(statement.1, shape, i as nat, rows[i]@));
            assert(inert::row_codes_read_back(statement.1, rows[i]@));
            lemma_row_piece_is_admitted(map, statement.1, shape, i as nat, rows[i]@, index);
        }
    }
}

proof fn lemma_tables_pieces_are_admitted(
    statements: Seq<StatementView>,
    sources: Seq<TableSource>,
    n: nat,
    index: nat,
)
    requires
        n <= statements.len(),
        all_admissible(statements),
        all_codes_read_back(statements, sources, statements.len()),
    ensures
        all_admitted_pieces(
            baseline_map(statements),
            tables_pieces(statements, sources, n),
            index,
        ),
    decreases n,
{
    if n > 0 {
        let map = baseline_map(statements);
        lemma_tables_pieces_are_admitted(statements, sources, (n - 1) as nat, index);
        if statements[n - 1].0 is Table {
            let before = tables_pieces(statements, sources, (n - 1) as nat);
            let k = snapshot::table_count(statements.take(n - 1)) as int;
            let own = table_pieces(statements[n - 1], sources[k]);
            assert(import::admission_fault(map, statements[n - 1].2, index) is None);
            lemma_table_pieces_are_admitted(map, statements[n - 1], sources[k], index);
            let all = before + own;
            assert forall|j: int| 0 <= j < all.len() implies is_admitted_piece(
                map,
                #[trigger] all[j],
                index,
            ) by {
                if j < before.len() {
                    assert(all[j] == before[j]);
                } else {
                    assert(all[j] == own[j - before.len()]);
                }
            }
        }
    }
}

proof fn lemma_others_pieces_are_admitted(
    statements: Seq<StatementView>,
    n: nat,
    index: nat,
)
    requires
        n <= statements.len(),
        all_admissible(statements),
    ensures
        all_admitted_pieces(baseline_map(statements), others_pieces(statements, n), index),
    decreases n,
{
    if n > 0 {
        let map = baseline_map(statements);
        lemma_others_pieces_are_admitted(statements, (n - 1) as nat, index);
        if !(statements[n - 1].0 is Table) {
            let before = others_pieces(statements, (n - 1) as nat);
            let all = before.push(statements[n - 1].2 + "\n"@);
            assert(import::admission_fault(map, statements[n - 1].2, index) is None);
            lemma_schema_piece_is_admitted(map, statements[n - 1].2, index);
            assert forall|j: int| 0 <= j < all.len() implies is_admitted_piece(
                map,
                #[trigger] all[j],
                index,
            ) by {
                if j < before.len() {
                    assert(all[j] == before[j]);
                }
            }
        }
    }
}

/// The `k`th statement of the plan is the `k`th one that was written, behind the
/// line feed that the one before it leaves.
proof fn lemma_planned_statement(
    before: Seq<char>,
    pieces: Seq<Seq<char>>,
    k: int,
)
    requires
        0 <= k < pieces.len(),
        all_pieces(encoded(pieces)),
        pieces[k].len() > 0,
        pieces[k].last() == '\n',
        encode_utf8(before + flat_text(pieces)).len() <= usize::MAX,
    ensures
        ({
            let from = encode_utf8(before).len() as int;
            import::statement_at(
                before + flat_text(pieces),
                piece_ranges(from, encoded(pieces)),
                k,
            ) == if k == 0 {
                pieces[k].drop_last()
            } else {
                "\n"@ + pieces[k].drop_last()
            }
        }),
{
    let bytes = encoded(pieces);
    let head = encode_utf8(before);
    let sql = pieces[k].drop_last();
    reveal_strlit("\n");
    lemma_flat_encoded(pieces);
    roundtrip::lemma_encode_concat(before, flat_text(pieces));
    ranges_hold_their_statements(head, bytes, k);
    assert(pieces[k] =~= sql + "\n"@);
    roundtrip::lemma_encode_concat(sql, "\n"@);
    roundtrip::lemma_ascii_codes("\n"@);
    assert(encode_utf8("\n"@) =~= seq![LINE_FEED]);
    assert(bytes[k] == encode_utf8(pieces[k]));
    assert(bytes[k].drop_last() =~= encode_utf8(sql));
    if k > 0 {
        roundtrip::lemma_encode_concat("\n"@, sql);
        encode_utf8_decode_utf8("\n"@ + sql);
    } else {
        encode_utf8_decode_utf8(sql);
    }
}

/// What was extracted is admitted again: the importer admits every statement of
/// the plan of an extracted text, provided that it admits each schema statement by
/// itself. It does not admit, for one, a view that calls a pragma function.
///
/// The same two extractions are left out as for the plan.
pub proof fn extracted_statements_are_admitted(
    label: Seq<char>,
    statements: Seq<StatementView>,
    sources: Seq<TableSource>,
    limit: nat,
)
    requires
        sources.len() == snapshot::table_count(statements),
        statements.len() > 0,
        all_single(statements),
        all_calm(sources),
        all_codes_read_back(statements, sources, statements.len()),
        all_admissible(statements),
        snapshot::snapshot_text(label, statements, sources, limit) matches Ok(v) && encode_utf8(
            v.0,
        ).len() <= usize::MAX,
    ensures
        is_admitted(
            snapshot::snapshot_text(label, statements, sources, limit)->Ok_0.0,
            statements,
            sources,
        ),
{
    let t = snapshot::snapshot_text(label, statements, sources, limit)->Ok_0.0;
    let n = statements.len();
    let map = baseline_map(statements);
    let (tables, c) = snapshot::tables_text(label, statements, sources, n, limit)->Ok_0;
    let (others, _) = snapshot::others_text(statements, n, c, limit)->Ok_0;
    let base = snapshot::baseline_text(statements);
    let first = tables_pieces(statements, sources, n);
    let second = others_pieces(statements, n);
    let pieces = snapshot_pieces(statements, sources);
    lemma_tables_are_pieces(label, statements, sources, n, limit);
    lemma_others_are_pieces(statements, n, c, limit);
    lemma_flat_text_concat(first, second);
    assert(encoded(pieces) =~= encoded(first) + encoded(second));
    let before = FORMAT_HEADER@ + base;
    assert(t =~= before + flat_text(pieces));
    let ranges = piece_ranges(encode_utf8(before).len() as int, encoded(pieces));
    assert forall|k: int, index: nat| 0 <= k < pieces.len() implies #[trigger] import::admission_fault(
        map,
        import::statement_at(t, ranges, k),
        index,
    ) is None by {
        lemma_tables_pieces_are_admitted(statements, sources, n, index);
        lemma_others_pieces_are_admitted(statements, n, index);
        if k < first.len() {
            assert(pieces[k] == first[k]);
        } else {
            assert(pieces[k] == second[k - first.len()]);
        }
        assert(is_admitted_piece(map, pieces[k], index));
        lemma_planned_statement(before, pieces, k);
        lemma_line_feed_is_ignored(map, pieces[k].drop_last(), index);
    }
}

/// How many rows the tables among the first `n` statements have.
pub open spec fn row_count(
    statements: Seq<StatementView>,
    sources: Seq<TableSource>,
    n: nat,
) -> nat
    decreases n,
{
    if n == 0 {
        0
    } else {
        row_count(statements, sources, (n - 1) as nat) + if statements[n - 1].0 is Table {
            let k = snapshot::table_count(statements.take(n - 1)) as int;
            sources[k].rows.rows@.len()
        } else {
            0
        }
    }
}

/// There is a piece for every statement and for every row.
proof fn lemma_pieces_are_counted(statements: Seq<StatementView>, sources: Seq<TableSource>, n: nat)
    requires
        n <= statements.len(),
    ensures
        tables_pieces(statements, sources, n).len() + others_pieces(statements, n).len() == n
            + row_count(statements, sources, n),
    decreases n,
{
    if n > 0 {
        lemma_pieces_are_counted(statements, sources, (n - 1) as nat);
    }
}

/// A text that ends its last line.
pub open spec fn ends_line(piece: Seq<char>) -> bool {
    piece.len() > 0 && piece.last() == '\n'
}

pub open spec fn all_end_lines(pieces: Seq<Seq<char>>) -> bool {
    forall|k: int| 0 <= k < pieces.len() ==> ends_line(#[trigger] pieces[k])
}

proof fn lemma_pieces_end_lines(statements: Seq<StatementView>, sources: Seq<TableSource>, n: nat)
    requires
        n <= statements.len(),
    ensures
        all_end_lines(tables_pieces(statements, sources, n)),
        all_end_lines(others_pieces(statements, n)),
    decreases n,
{
    if n > 0 {
        lemma_pieces_end_lines(statements, sources, (n - 1) as nat);
        reveal_strlit("\n");
        let s = statements[n - 1];
        assert(ends_line(s.2 + "\n"@));
        if s.0 is Table {
            let before = tables_pieces(statements, sources, (n - 1) as nat);
            let source = sources[snapshot::table_count(statements.take(n - 1)) as int];
            let table = table_pieces(s, source);
            assert forall|k: int| 0 <= k < table.len() implies ends_line(#[trigger] table[k]) by {
                if k > 0 {
                    let shape = snapshot::source_shape(s.1, source);
                    let row = source.rows.rows@[k - 1]@;
                    reveal_strlit(");\n");
                    assert(table[k] == snapshot::row_text(s.1, shape, (k - 1) as nat, row));
                }
            }
            let all = tables_pieces(statements, sources, n);
            assert forall|k: int| 0 <= k < all.len() implies ends_line(#[trigger] all[k]) by {
                if k < before.len() {
                    assert(all[k] == before[k]);
                } else {
                    assert(all[k] == table[k - before.len()]);
                }
            }
        } else {
            let before = others_pieces(statements, (n - 1) as nat);
            let all = others_pieces(statements, n);
            assert forall|k: int| 0 <= k < all.len() implies ends_line(#[trigger] all[k]) by {
                if k < before.len() {
                    assert(all[k] == before[k]);
                }
            }
        }
    }
}

/// An import that is finished ran what was extracted, and says so: it ran every
/// schema statement and one statement for each row, each as it was written and in
/// that order, and it reports their number, the size of the text, a committed
/// output, no violated foreign key and an intact database.
///
/// The same two extractions are left out as for the plan.
pub proof fn finished_imports_ran_what_was_extracted(
    label: Seq<char>,
    statements: Seq<StatementView>,
    sources: Seq<TableSource>,
    limit: nat,
    run: import::ImportRun,
    import_limit: nat,
    reply: import::ImportReply,
    result: ImportResult,
    k: int,
)
    requires
        0 < statements.len() <= baseline::BASELINE_COUNT_LIMIT,
        sources.len() == snapshot::table_count(statements),
        all_single(statements),
        all_calm(sources),
        all_codes_read_back(statements, sources, statements.len()),
        forall|k: int|
            0 <= k < statements.len() ==> roundtrip::codes_read_back(#[trigger] statements[k]),
        snapshot::snapshot_text(label, statements, sources, limit) matches Ok(v) && encode_utf8(
            v.0,
        ).len() <= usize::MAX && !baseline::contains_crlf(encode_utf8(v.0)) && run.text@ == v.0,
        snapshot_pieces(statements, sources).len() <= import_limit,
        import::plan_of(run.text@, import_limit) == Ok::<
            import::PlanView,
            (Seq<char>, Seq<char>),
        >(run.plan@),
        run.wf(),
        run.stage is TableCount,
        run.byte_count == encode_utf8(run.text@).len(),
        import::is_import_result(run, reply, result),
        0 <= k < result.statement_count,
    ensures
        result.statement_count == statements.len() + row_count(
            statements,
            sources,
            statements.len(),
        ),
        result.statement_count == snapshot_pieces(statements, sources).len(),
        import::statement_at(run.text@, run.plan.statements@, k) == if k == 0 {
            snapshot_pieces(statements, sources)[k].drop_last()
        } else {
            "\n"@ + snapshot_pieces(statements, sources)[k].drop_last()
        },
        result.byte_count == encode_utf8(run.text@).len(),
        result.output_path == run.output,
        result.output_state@ == "Committed"@,
        result.validation.foreign_key_check.ok,
        result.validation.foreign_key_check.violations == 0,
        result.validation.integrity_check.ok,
        result.validation.integrity_check.message@ == "ok"@,
{
    let t = run.text@;
    let n = statements.len();
    extraction_replays(label, statements, sources, limit);
    let (tables, c) = snapshot::tables_text(label, statements, sources, n, limit)->Ok_0;
    let (others, _) = snapshot::others_text(statements, n, c, limit)->Ok_0;
    let base = snapshot::baseline_text(statements);
    let first = tables_pieces(statements, sources, n);
    let second = others_pieces(statements, n);
    let pieces = snapshot_pieces(statements, sources);
    lemma_tables_are_pieces(label, statements, sources, n, limit);
    lemma_others_are_pieces(statements, n, c, limit);
    lemma_flat_text_concat(first, second);
    assert(encoded(pieces) =~= encoded(first) + encoded(second));
    let before = FORMAT_HEADER@ + base;
    assert(t =~= before + flat_text(pieces));
    let from = encode_utf8(before).len() as int;
    let ranges = piece_ranges(from, encoded(pieces));
    assert(encoded(pieces).len() <= import_limit);
    assert(run.plan@.1 == ranges);
    assert(run.plan.statements@ =~= ranges);
    lemma_ranges_count(from, encoded(pieces));
    lemma_pieces_are_counted(statements, sources, n);
    lemma_pieces_end_lines(statements, sources, n);
    if k < first.len() {
        assert(pieces[k] == first[k]);
    } else {
        assert(pieces[k] == second[k - first.len()]);
    }
    assert(ends_line(pieces[k]));
    lemma_planned_statement(before, pieces, k);
}

} // verus!
