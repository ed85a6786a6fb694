//! What importing reads back of what extracting writes.
use crate::merge::baseline;
use crate::merge::baseline::FORMAT_HEADER;
use crate::merge::schema::StatementView;
use crate::merge::snapshot;
use crate::merge::statements::LINE_FEED;
use crate::outside;
use crate::text;
use vstd::prelude::*;
use vstd::utf8::*;

verus! {

/// The base64 text of these bytes uses the base64 alphabet and decodes to them.
pub open spec fn code_reads_back(bytes: Seq<u8>) -> bool {
    &&& forall|i: int|
        0 <= i < outside::url_base64(bytes).len() ==> outside::is_url_base64_char(
            #[trigger] outside::url_base64(bytes)[i],
        )
    &&& outside::url_base64_decoded(encode_utf8(outside::url_base64(bytes))) == Some(bytes)
}

/// The digest of these bytes is written in hexadecimal digits.
pub open spec fn digest_is_hex(bytes: Seq<u8>) -> bool {
    forall|i: int|
        0 <= i < outside::sha256_hex(bytes).len() ==> outside::is_lower_hex_char(
            #[trigger] outside::sha256_hex(bytes)[i],
        )
}

/// The codes in the baseline line of a statement can be read back.
pub open spec fn codes_read_back(s: StatementView) -> bool {
    &&& code_reads_back(encode_utf8(s.1))
    &&& code_reads_back(encode_utf8(s.2))
    &&& digest_is_hex(encode_utf8(s.2))
}

/// `map` with the statements added one after the other.
pub open spec fn add_all(
    map: Map<Seq<char>, Seq<u8>>,
    statements: Seq<StatementView>,
) -> Map<Seq<char>, Seq<u8>>
    decreases statements.len(),
{
    if statements.len() == 0 {
        map
    } else {
        add_all(map.insert(statements[0].1, encode_utf8(statements[0].2)), statements.skip(1))
    }
}

pub proof fn lemma_encode_concat(a: Seq<char>, b: Seq<char>)
    ensures
        encode_utf8(a + b) == encode_utf8(a) + encode_utf8(b),
    decreases a.len(),
{
    if a.len() == 0 {
        assert(a + b =~= b);
        assert(encode_utf8(a) + encode_utf8(b) =~= encode_utf8(b));
    } else {
        lemma_encode_concat(a.drop_first(), b);
        assert((a + b).drop_first() =~= a.drop_first() + b);
        assert(encode_utf8(a + b) =~= encode_utf8(a) + encode_utf8(b));
    }
}

/// A text of ASCII characters, byte by byte.
pub open spec fn codes(s: Seq<char>) -> Seq<u8> {
    Seq::new(s.len(), |i: int| s[i] as u8)
}

pub proof fn lemma_ascii_codes(s: Seq<char>)
    requires
        is_ascii_chars(s),
    ensures
        encode_utf8(s) == codes(s),
{
    is_ascii_chars_encode_utf8(s);
    assert(encode_utf8(s) =~= codes(s));
}

proof fn lemma_line_break_at(b: Seq<u8>, from: int, p: int)
    requires
        0 <= from <= p < b.len(),
        b[p] == LINE_FEED,
        forall|i: int| from <= i < p ==> b[i] != LINE_FEED,
    ensures
        baseline::line_break(b, from) == Some(p),
    decreases p - from,
{
    if from < p {
        lemma_line_break_at(b, from + 1, p);
    }
}

proof fn lemma_split_none(s: Seq<u8>, sep: u8)
    requires
        !s.contains(sep),
    ensures
        baseline::split_on(s, sep) == seq![s],
    decreases s.len(),
{
    if s.len() > 0 {
        assert(s.contains(s.last()));
        assert(!s.drop_last().contains(sep)) by {
            if s.drop_last().contains(sep) {
                let i = choose|i: int| 0 <= i < s.drop_last().len() && s.drop_last()[i] == sep;
                assert(s[i] == sep);
            }
        }
        lemma_split_none(s.drop_last(), sep);
        assert(seq![s.drop_last()].drop_last() =~= Seq::<Seq<u8>>::empty());
        assert(s.drop_last().push(s.last()) =~= s);
        assert(Seq::<Seq<u8>>::empty().push(s) =~= seq![s]);
    } else {
        assert(s =~= Seq::<u8>::empty());
    }
}

proof fn lemma_split_nonempty(s: Seq<u8>, sep: u8)
    ensures
        baseline::split_on(s, sep).len() > 0,
    decreases s.len(),
{
    if s.len() > 0 {
        lemma_split_nonempty(s.drop_last(), sep);
    }
}

proof fn lemma_split_concat(a: Seq<u8>, b: Seq<u8>, sep: u8)
    ensures
        baseline::split_on(a.push(sep) + b, sep) == baseline::split_on(a, sep)
            + baseline::split_on(b, sep),
    decreases b.len(),
{
    let all = a.push(sep) + b;
    if b.len() == 0 {
        assert(all =~= a.push(sep));
        assert(all.drop_last() =~= a);
        assert(baseline::split_on(all, sep) =~= baseline::split_on(a, sep) + baseline::split_on(
            b,
            sep,
        ));
    } else {
        lemma_split_concat(a, b.drop_last(), sep);
        assert(all.drop_last() =~= a.push(sep) + b.drop_last());
        lemma_split_nonempty(b.drop_last(), sep);
        lemma_split_nonempty(a, sep);
        let x = baseline::split_on(a, sep);
        let y = baseline::split_on(b.drop_last(), sep);
        assert(all.last() == b.last());
        if b.last() == sep {
            assert((x + y).push(Seq::empty()) =~= x + y.push(Seq::empty()));
        } else {
            assert((x + y).drop_last().push((x + y).last().push(b.last())) =~= x + y.drop_last().push(
                y.last().push(b.last()),
            ));
        }
    }
}

proof fn lemma_index_of_first(s: Seq<u8>, c: u8, i: int)
    requires
        0 <= i < s.len(),
        s[i] == c,
        forall|j: int| 0 <= j < i ==> s[j] != c,
    ensures
        baseline::index_of_byte(s, c) == Some(i),
    decreases i,
{
    if i > 0 {
        lemma_index_of_first(s.skip(1), c, i - 1);
    }
}

/// An item `key=value` whose key holds no equals sign is read as such.
proof fn lemma_item(key: Seq<u8>, value: Seq<u8>)
    requires
        !key.contains(0x3d),
    ensures
        ({
            let item = key.push(0x3d) + value;
            &&& baseline::index_of_byte(item, 0x3d) == Some(key.len() as int)
            &&& baseline::field_key(item) == key
            &&& baseline::field_value(item) == value
        }),
{
    let item = key.push(0x3d) + value;
    assert forall|j: int| 0 <= j < key.len() implies item[j] != 0x3d by {
        assert(item[j] == key[j]);
        assert(key.contains(key[j]));
    }
    lemma_index_of_first(item, 0x3d, key.len() as int);
    assert(baseline::field_key(item) =~= key);
    assert(baseline::field_value(item) =~= value);
}

/// ASCII characters without space and line feed.
pub open spec fn plain(s: Seq<char>) -> bool {
    forall|i: int|
        0 <= i < s.len() ==> '\0' <= #[trigger] s[i] <= '\u{7f}' && s[i] != ' ' && s[i] != '\n'
}

pub proof fn lemma_plain(s: Seq<char>)
    requires
        plain(s),
    ensures
        encode_utf8(s) == codes(s),
        !encode_utf8(s).contains(0x20),
        !encode_utf8(s).contains(LINE_FEED),
{
    assert(is_ascii_chars(s));
    lemma_ascii_codes(s);
    let b = codes(s);
    assert forall|i: int| 0 <= i < b.len() implies b[i] != 0x20 && b[i] != LINE_FEED by {
        assert('\0' <= s[i] <= '\u{7f}');
        assert(b[i] == s[i] as u8);
    }
}

pub proof fn lemma_base64_plain(bytes: Seq<u8>)
    requires
        code_reads_back(bytes),
    ensures
        plain(outside::url_base64(bytes)),
{
    let s = outside::url_base64(bytes);
    assert forall|i: int| 0 <= i < s.len() implies '\0' <= #[trigger] s[i] <= '\u{7f}' && s[i]
        != ' ' && s[i] != '\n' by {
        assert(outside::is_url_base64_char(s[i]));
    }
}

proof fn lemma_digest_plain(bytes: Seq<u8>)
    requires
        digest_is_hex(bytes),
    ensures
        plain(outside::sha256_hex(bytes)),
{
    let s = outside::sha256_hex(bytes);
    assert forall|i: int| 0 <= i < s.len() implies '\0' <= #[trigger] s[i] <= '\u{7f}' && s[i]
        != ' ' && s[i] != '\n' by {
        assert(outside::is_lower_hex_char(s[i]));
    }
}

proof fn lemma_word_plain(s: StatementView)
    ensures
        plain(s.0.word()),
{
    reveal_strlit("table");
    reveal_strlit("index");
    reveal_strlit("view");
    reveal_strlit("trigger");
}

/// The marks of a baseline line, byte by byte.
proof fn lemma_record_marks()
    ensures
        encode_utf8("-- sqlite-mcp schema-hash: v1 kind="@) == baseline::ascii(
            "-- sqlite-mcp schema-hash: v1 ",
        ) + encode_utf8("kind"@).push(0x3d),
        encode_utf8(" name_b64="@) == seq![0x20u8] + baseline::ascii("name_b64").push(0x3d),
        encode_utf8(" sql_sha256="@) == seq![0x20u8] + baseline::ascii("sql_sha256").push(0x3d),
        encode_utf8(" sql_bytes="@) == seq![0x20u8] + baseline::ascii("sql_bytes").push(0x3d),
        encode_utf8("\n"@) == seq![LINE_FEED],
        plain("kind"@) && plain("name_b64"@) && plain("sql_sha256"@) && plain("sql_bytes"@),
        !encode_utf8("kind"@).contains(0x3d),
        !baseline::ascii("name_b64").contains(0x3d),
        !baseline::ascii("sql_sha256").contains(0x3d),
        !baseline::ascii("sql_bytes").contains(0x3d),
        baseline::ascii("name_b64") != baseline::ascii("sql_bytes"),
        baseline::ascii("name_b64") != baseline::ascii("sql_sha256"),
        baseline::ascii("sql_sha256") != baseline::ascii("sql_bytes"),
        !baseline::ascii("-- sqlite-mcp schema-hash: v1 ").contains(LINE_FEED),
{
    reveal_strlit("-- sqlite-mcp schema-hash: v1 kind=");
    reveal_strlit("-- sqlite-mcp schema-hash: v1 ");
    reveal_strlit("kind");
    reveal_strlit(" name_b64=");
    reveal_strlit("name_b64");
    reveal_strlit(" sql_sha256=");
    reveal_strlit("sql_sha256");
    reveal_strlit(" sql_bytes=");
    reveal_strlit("sql_bytes");
    reveal_strlit("\n");
    lemma_ascii_codes("-- sqlite-mcp schema-hash: v1 kind="@);
    lemma_ascii_codes("-- sqlite-mcp schema-hash: v1 "@);
    lemma_ascii_codes("kind"@);
    lemma_ascii_codes(" name_b64="@);
    lemma_ascii_codes("name_b64"@);
    lemma_ascii_codes(" sql_sha256="@);
    lemma_ascii_codes("sql_sha256"@);
    lemma_ascii_codes(" sql_bytes="@);
    lemma_ascii_codes("sql_bytes"@);
    lemma_ascii_codes("\n"@);
    assert(codes("-- sqlite-mcp schema-hash: v1 kind="@) =~= codes(
        "-- sqlite-mcp schema-hash: v1 "@,
    ) + codes("kind"@).push(0x3d));
    assert(codes(" name_b64="@) =~= seq![0x20u8] + codes("name_b64"@).push(0x3d));
    assert(codes(" sql_sha256="@) =~= seq![0x20u8] + codes("sql_sha256"@).push(0x3d));
    assert(codes(" sql_bytes="@) =~= seq![0x20u8] + codes("sql_bytes"@).push(0x3d));
    assert(codes("\n"@) =~= seq![LINE_FEED]);
    assert(codes("name_b64"@)[0] != codes("sql_bytes"@)[0]);
    assert(codes("name_b64"@)[0] != codes("sql_sha256"@)[0]);
    assert(codes("sql_sha256"@)[4] != codes("sql_bytes"@)[4]);
}

/// A baseline line without its line feed.
pub open spec fn record_line(s: StatementView) -> Seq<u8> {
    let prefix = baseline::ascii("-- sqlite-mcp schema-hash: v1 ");
    prefix + record_payload(s)
}

/// The four items of a baseline line.
pub open spec fn record_items(s: StatementView) -> Seq<Seq<u8>> {
    seq![
        encode_utf8("kind"@).push(0x3d) + encode_utf8(s.0.word()),
        baseline::ascii("name_b64").push(0x3d) + encode_utf8(outside::url_base64(encode_utf8(s.1))),
        baseline::ascii("sql_sha256").push(0x3d) + encode_utf8(
            outside::sha256_hex(encode_utf8(s.2)),
        ),
        baseline::ascii("sql_bytes").push(0x3d) + encode_utf8(
            outside::url_base64(encode_utf8(s.2)),
        ),
    ]
}

pub open spec fn record_payload(s: StatementView) -> Seq<u8> {
    let items = record_items(s);
    items[0].push(0x20) + (items[1].push(0x20) + (items[2].push(0x20) + items[3]))
}

/// Two ways to put the same pieces together.
proof fn lemma_regroup(
    p: Seq<u8>,
    k: Seq<u8>,
    w: Seq<u8>,
    kn: Seq<u8>,
    n: Seq<u8>,
    kh: Seq<u8>,
    h: Seq<u8>,
    kq: Seq<u8>,
    q: Seq<u8>,
    sp: u8,
)
    ensures
        p + k + w + (seq![sp] + kn) + n + (seq![sp] + kh) + h + (seq![sp] + kq) + q == p + ((k
            + w).push(sp) + ((kn + n).push(sp) + ((kh + h).push(sp) + (kq + q)))),
{
    let c = kq + q;
    let b = (kh + h).push(sp) + c;
    let a = (kn + n).push(sp) + b;
    let head = p + k + w + (seq![sp] + kn) + n;
    assert(head + (seq![sp] + kh) + h + (seq![sp] + kq) + q =~= head + seq![sp] + b);
    assert(head + seq![sp] + b =~= p + k + w + seq![sp] + a);
    assert(p + k + w + seq![sp] + a =~= p + ((k + w).push(sp) + a));
}

proof fn lemma_record_bytes(s: StatementView)
    ensures
        encode_utf8(snapshot::record_text(s)) == record_line(s).push(LINE_FEED),
{
    let w = s.0.word();
    let n = outside::url_base64(encode_utf8(s.1));
    let h = outside::sha256_hex(encode_utf8(s.2));
    let q = outside::url_base64(encode_utf8(s.2));
    let t1 = "-- sqlite-mcp schema-hash: v1 kind="@ + w;
    let t2 = t1 + " name_b64="@;
    let t3 = t2 + n;
    let t4 = t3 + " sql_sha256="@;
    let t5 = t4 + h;
    let t6 = t5 + " sql_bytes="@;
    let t7 = t6 + q;
    lemma_encode_concat("-- sqlite-mcp schema-hash: v1 kind="@, w);
    lemma_encode_concat(t1, " name_b64="@);
    lemma_encode_concat(t2, n);
    lemma_encode_concat(t3, " sql_sha256="@);
    lemma_encode_concat(t4, h);
    lemma_encode_concat(t5, " sql_bytes="@);
    lemma_encode_concat(t6, q);
    lemma_encode_concat(t7, "\n"@);
    lemma_record_marks();
    lemma_regroup(
        baseline::ascii("-- sqlite-mcp schema-hash: v1 "),
        encode_utf8("kind"@).push(0x3d),
        encode_utf8(w),
        baseline::ascii("name_b64").push(0x3d),
        encode_utf8(n),
        baseline::ascii("sql_sha256").push(0x3d),
        encode_utf8(h),
        baseline::ascii("sql_bytes").push(0x3d),
        encode_utf8(q),
        0x20,
    );
    assert(encode_utf8(t7) == record_line(s));
    assert(record_line(s) + seq![LINE_FEED] =~= record_line(s).push(LINE_FEED));
}

proof fn lemma_item_is_solid(key: Seq<char>, value: Seq<char>)
    requires
        plain(key),
        plain(value),
    ensures
        !(encode_utf8(key).push(0x3d) + encode_utf8(value)).contains(0x20),
        !(encode_utf8(key).push(0x3d) + encode_utf8(value)).contains(LINE_FEED),
{
    lemma_plain(key);
    lemma_plain(value);
    let item = encode_utf8(key).push(0x3d) + encode_utf8(value);
    assert forall|i: int| 0 <= i < item.len() implies item[i] != 0x20 && item[i] != LINE_FEED by {
        if i < encode_utf8(key).len() {
            assert(encode_utf8(key).contains(item[i]));
        } else if i > encode_utf8(key).len() {
            assert(item[i] == encode_utf8(value)[i - encode_utf8(key).len() - 1]);
            assert(encode_utf8(value).contains(item[i]));
        }
    }
}

proof fn lemma_record_items_solid(s: StatementView)
    requires
        codes_read_back(s),
    ensures
        forall|k: int|
            0 <= k < 4 ==> !(#[trigger] record_items(s)[k]).contains(0x20) && !record_items(
                s,
            )[k].contains(LINE_FEED),
{
    lemma_record_marks();
    lemma_word_plain(s);
    lemma_base64_plain(encode_utf8(s.1));
    lemma_base64_plain(encode_utf8(s.2));
    lemma_digest_plain(encode_utf8(s.2));
    lemma_item_is_solid("kind"@, s.0.word());
    lemma_item_is_solid("name_b64"@, outside::url_base64(encode_utf8(s.1)));
    lemma_item_is_solid("sql_sha256"@, outside::sha256_hex(encode_utf8(s.2)));
    lemma_item_is_solid("sql_bytes"@, outside::url_base64(encode_utf8(s.2)));
}

proof fn lemma_record_split(s: StatementView)
    requires
        codes_read_back(s),
    ensures
        baseline::split_on(record_payload(s), 0x20) == record_items(s),
{
    let i = record_items(s);
    lemma_record_items_solid(s);
    assert(!i[0].contains(0x20) && !i[1].contains(0x20) && !i[2].contains(0x20)
        && !i[3].contains(0x20));
    lemma_split_none(i[0], 0x20);
    lemma_split_none(i[1], 0x20);
    lemma_split_none(i[2], 0x20);
    lemma_split_none(i[3], 0x20);
    let r2 = i[2].push(0x20) + i[3];
    let r1 = i[1].push(0x20) + r2;
    lemma_split_concat(i[2], i[3], 0x20);
    lemma_split_concat(i[1], r2, 0x20);
    lemma_split_concat(i[0], r1, 0x20);
    assert(seq![i[0]] + (seq![i[1]] + (seq![i[2]] + seq![i[3]])) =~= i);
}

proof fn lemma_record_reads_back(s: StatementView)
    requires
        codes_read_back(s),
    ensures
        baseline::record_of(record_line(s)) == Ok::<(Seq<char>, Seq<u8>), (Seq<char>, Seq<char>)>(
            (s.1, encode_utf8(s.2)),
        ),
{
    let prefix = baseline::ascii("-- sqlite-mcp schema-hash: v1 ");
    let line = record_line(s);
    let items = record_items(s);
    assert(line.skip(prefix.len() as int) =~= record_payload(s));
    assert(prefix.is_prefix_of(line));
    lemma_record_split(s);
    lemma_record_marks();
    lemma_item(encode_utf8("kind"@), encode_utf8(s.0.word()));
    lemma_item(
        baseline::ascii("name_b64"),
        encode_utf8(outside::url_base64(encode_utf8(s.1))),
    );
    lemma_item(
        baseline::ascii("sql_sha256"),
        encode_utf8(outside::sha256_hex(encode_utf8(s.2))),
    );
    lemma_item(
        baseline::ascii("sql_bytes"),
        encode_utf8(outside::url_base64(encode_utf8(s.2))),
    );
    let key_name = baseline::ascii("name_b64");
    let key_sql = baseline::ascii("sql_bytes");
    let key_digest = baseline::ascii("sql_sha256");
    let i3 = items.drop_last();
    let i2 = i3.drop_last();
    assert(items.last() == items[3] && i3.last() == items[2] && i2.last() == items[1]);
    assert(baseline::lookup(items, key_sql) == Some(baseline::field_value(items[3])));
    assert(baseline::lookup(items, key_digest) == baseline::lookup(i3, key_digest));
    assert(baseline::lookup(i3, key_digest) == Some(baseline::field_value(items[2])));
    assert(baseline::lookup(items, key_name) == baseline::lookup(i3, key_name));
    assert(baseline::lookup(i3, key_name) == baseline::lookup(i2, key_name));
    assert(baseline::lookup(i2, key_name) == Some(baseline::field_value(items[1])));
    assert(baseline::all_fields(items));
    encode_utf8_valid_utf8(s.1);
    encode_utf8_decode_utf8(s.1);
}

pub proof fn lemma_concat_lacks(a: Seq<u8>, b: Seq<u8>, c: u8)
    requires
        !a.contains(c),
        !b.contains(c),
    ensures
        !(a + b).contains(c),
{
    if (a + b).contains(c) {
        let i = choose|i: int| 0 <= i < (a + b).len() && (a + b)[i] == c;
        if i < a.len() {
            assert(a[i] == c);
        } else {
            assert(b[i - a.len()] == c);
        }
    }
}

proof fn lemma_push_lacks(a: Seq<u8>, x: u8, c: u8)
    requires
        !a.contains(c),
        x != c,
    ensures
        !a.push(x).contains(c),
{
    if a.push(x).contains(c) {
        let i = choose|i: int| 0 <= i < a.push(x).len() && a.push(x)[i] == c;
        assert(a[i] == c);
    }
}

proof fn lemma_record_line_is_one_line(s: StatementView)
    requires
        codes_read_back(s),
    ensures
        !record_line(s).contains(LINE_FEED),
{
    let i = record_items(s);
    let prefix = baseline::ascii("-- sqlite-mcp schema-hash: v1 ");
    lemma_record_marks();
    lemma_record_items_solid(s);
    assert(!i[0].contains(LINE_FEED) && !i[1].contains(LINE_FEED) && !i[2].contains(LINE_FEED)
        && !i[3].contains(LINE_FEED));
    lemma_push_lacks(i[0], 0x20, LINE_FEED);
    lemma_push_lacks(i[1], 0x20, LINE_FEED);
    lemma_push_lacks(i[2], 0x20, LINE_FEED);
    lemma_concat_lacks(i[2].push(0x20), i[3], LINE_FEED);
    lemma_concat_lacks(i[1].push(0x20), i[2].push(0x20) + i[3], LINE_FEED);
    lemma_concat_lacks(
        i[0].push(0x20),
        i[1].push(0x20) + (i[2].push(0x20) + i[3]),
        LINE_FEED,
    );
    lemma_concat_lacks(prefix, record_payload(s), LINE_FEED);
}

proof fn lemma_records_front(statements: Seq<StatementView>)
    requires
        statements.len() > 0,
    ensures
        snapshot::records_text(statements) == snapshot::record_text(statements[0])
            + snapshot::records_text(statements.skip(1)),
    decreases statements.len(),
{
    if statements.len() == 1 {
        assert(statements.drop_last() =~= Seq::<StatementView>::empty());
        assert(statements.skip(1) =~= Seq::<StatementView>::empty());
        assert(snapshot::records_text(statements) =~= snapshot::record_text(statements[0])
            + snapshot::records_text(statements.skip(1)));
    } else {
        let init = statements.drop_last();
        lemma_records_front(init);
        assert(init.skip(1) =~= statements.skip(1).drop_last());
        assert(statements.skip(1).last() == statements.last());
        assert(snapshot::records_text(statements) =~= snapshot::record_text(statements[0])
            + snapshot::records_text(statements.skip(1)));
    }
}

proof fn lemma_records_read_back(
    b: Seq<u8>,
    at: int,
    statements: Seq<StatementView>,
    map: Map<Seq<char>, Seq<u8>>,
)
    requires
        forall|k: int| 0 <= k < statements.len() ==> codes_read_back(#[trigger] statements[k]),
        0 <= at,
        at + encode_utf8(snapshot::records_text(statements)).len() <= b.len(),
        b.subrange(at, at + encode_utf8(snapshot::records_text(statements)).len()) == encode_utf8(
            snapshot::records_text(statements),
        ),
    ensures
        baseline::records_of(b, at, statements.len(), map) == Ok::<
            (Map<Seq<char>, Seq<u8>>, int),
            (Seq<char>, Seq<char>),
        >(
            (
                add_all(map, statements),
                at + encode_utf8(snapshot::records_text(statements)).len(),
            ),
        ),
    decreases statements.len(),
{
    if statements.len() > 0 {
        let s = statements[0];
        let rest = statements.skip(1);
        let all = encode_utf8(snapshot::records_text(statements));
        let tail = encode_utf8(snapshot::records_text(rest));
        let line = record_line(s);
        lemma_records_front(statements);
        lemma_encode_concat(snapshot::record_text(s), snapshot::records_text(rest));
        lemma_record_bytes(s);
        lemma_record_line_is_one_line(s);
        assert(all == line.push(LINE_FEED) + tail);
        let n = line.len() as int;
        let whole = b.subrange(at, at + all.len());
        assert(b.subrange(at, at + n) =~= line) by {
            assert forall|i: int| 0 <= i < n implies b.subrange(at, at + n)[i] == line[i] by {
                assert(whole[i] == all[i]);
            }
        }
        assert(b[at + n] == LINE_FEED) by {
            assert(whole[n] == all[n]);
        }
        assert forall|i: int| at <= i < at + n implies b[i] != LINE_FEED by {
            assert(b[i] == line[i - at]) by {
                assert(whole[i - at] == all[i - at]);
            }
            assert(line.contains(line[i - at]));
        }
        lemma_line_break_at(b, at, at + n);
        lemma_record_reads_back(s);
        assert(b.subrange(at + n + 1, at + n + 1 + tail.len()) =~= tail) by {
            assert forall|i: int| 0 <= i < tail.len() implies b.subrange(
                at + n + 1,
                at + n + 1 + tail.len(),
            )[i] == tail[i] by {
                assert(whole[n + 1 + i] == all[n + 1 + i]);
            }
        }
        assert forall|k: int| 0 <= k < rest.len() implies codes_read_back(#[trigger] rest[k]) by {
            assert(rest[k] == statements[k + 1]);
        }
        lemma_records_read_back(b, at + n + 1, rest, map.insert(s.1, encode_utf8(s.2)));
    }
}

pub proof fn lemma_decimal(n: nat)
    ensures
        plain(text::decimal(n)),
        text::decimal(n).len() > 0,
        baseline::all_digits(encode_utf8(text::decimal(n))),
        baseline::digits_value(encode_utf8(text::decimal(n))) == n,
    decreases n,
{
    let d = text::decimal(n);
    if n < 10 {
        assert(d =~= seq![text::digit(n)]);
        assert(plain(d));
        lemma_plain(d);
        let b = encode_utf8(d);
        assert(b.len() == 1 && b[0] == 0x30 + n);
        assert(b.drop_last() =~= Seq::<u8>::empty());
        assert(baseline::digits_value(b.drop_last()) == 0);
    } else {
        lemma_decimal(n / 10);
        let before = text::decimal(n / 10);
        let last = text::digit(n % 10);
        assert(d == before.push(last));
        assert forall|i: int| 0 <= i < d.len() implies '\0' <= #[trigger] d[i] <= '\u{7f}' && d[i]
            != ' ' && d[i] != '\n' by {
            if i < before.len() {
                assert(d[i] == before[i]);
            }
        }
        lemma_plain(d);
        lemma_plain(before);
        let b = encode_utf8(d);
        let prior = encode_utf8(before);
        assert(b =~= prior.push((0x30 + n % 10) as u8));
        assert(b.drop_last() =~= prior);
        assert forall|i: int| 0 <= i < b.len() implies baseline::is_digit(#[trigger] b[i]) by {
            if i < prior.len() {
                assert(baseline::is_digit(prior[i]));
            }
        }
    }
}

proof fn lemma_count_reads_back(n: nat)
    requires
        n <= usize::MAX,
    ensures
        baseline::count_value(encode_utf8(text::decimal(n))) == Some(n as usize),
        !encode_utf8(text::decimal(n)).contains(LINE_FEED),
{
    lemma_decimal(n);
    lemma_plain(text::decimal(n));
    let b = encode_utf8(text::decimal(n));
    assert(baseline::is_digit(b[0]));
    assert(baseline::unsigned(b) == b);
}

proof fn lemma_baseline_marks()
    ensures
        !baseline::ascii("-- sqlite-mcp schema-baseline: v1 count=").contains(LINE_FEED),
        baseline::ascii("-- sqlite-mcp schema-baseline:").is_prefix_of(
            baseline::ascii("-- sqlite-mcp schema-baseline: v1 count="),
        ),
        baseline::ascii("-- sqlite-mcp schema-baseline: v1 count=").len() > 0,
        baseline::ascii("-- sqlite-mcp schema-baseline: v1 count=")[0] == 0x2d,
        encode_utf8("\n"@) == seq![LINE_FEED],
{
    reveal_strlit("-- sqlite-mcp schema-baseline: v1 count=");
    reveal_strlit("-- sqlite-mcp schema-baseline:");
    reveal_strlit("\n");
    lemma_ascii_codes("-- sqlite-mcp schema-baseline: v1 count="@);
    lemma_ascii_codes("-- sqlite-mcp schema-baseline:"@);
    lemma_ascii_codes("\n"@);
    let head = codes("-- sqlite-mcp schema-baseline: v1 count="@);
    let start = codes("-- sqlite-mcp schema-baseline:"@);
    assert(head.subrange(0, start.len() as int) =~= start);
    assert(codes("\n"@) =~= seq![LINE_FEED]);
}

/// Where the pieces of a baseline lie in a text.
proof fn lemma_baseline_layout(
    hdr: Seq<u8>,
    head: Seq<u8>,
    count: Seq<u8>,
    lines: Seq<u8>,
    tail: Seq<u8>,
    after: Seq<u8>,
    opening: Seq<u8>,
)
    requires
        head.len() > 0,
        opening.is_prefix_of(head),
        !head.contains(LINE_FEED),
        !count.contains(LINE_FEED),
    ensures
        ({
            let b = hdr + (head + count + seq![LINE_FEED] + lines + tail) + after;
            let h = hdr.len() as int;
            let end = h + head.len() + count.len();
            let at = end + 1;
            let done = at + lines.len();
            &&& b.len() == done + tail.len() + after.len()
            &&& b.skip(h).len() > 0 && b.skip(h)[0] == head[0]
            &&& opening.is_prefix_of(b.skip(h))
            &&& baseline::line_break(b, h) == Some(end)
            &&& head.is_prefix_of(b.subrange(h, end))
            &&& b.subrange(h, end).skip(head.len() as int) == count
            &&& b.subrange(at, done) == lines
            &&& tail.is_prefix_of(b.skip(done))
        }),
{
    let base = head + count + seq![LINE_FEED] + lines + tail;
    let b = hdr + base + after;
    let h = hdr.len() as int;
    let end = h + head.len() + count.len();
    let at = end + 1;
    let done = at + lines.len();
    assert(b.skip(h) =~= base + after);
    let line = b.subrange(h, end);
    assert(line =~= head + count);
    assert(b[end] == LINE_FEED);
    assert(b.subrange(at, done) =~= lines);
    assert(b.skip(done) =~= tail + after);
    assert((tail + after).subrange(0, tail.len() as int) =~= tail);
    assert(head.subrange(0, opening.len() as int) =~= opening);
    assert(b.skip(h).subrange(0, opening.len() as int) =~= head.subrange(0, opening.len() as int));
    assert forall|i: int| h <= i < end implies b[i] != LINE_FEED by {
        assert(b[i] == line[i - h]);
        if i - h < head.len() {
            assert(head.contains(head[i - h]));
        } else {
            assert(count.contains(count[i - h - head.len()]));
        }
    }
    lemma_line_break_at(b, h, end);
    assert(line.subrange(0, head.len() as int) =~= head);
    assert(line.skip(head.len() as int) =~= count);
}

/// What extraction writes as the schema baseline, import reads back: every name
/// stands for the bytes of its statement, and the rest of the text follows
/// directly.
#[verifier::rlimit(40)]
pub proof fn baseline_reads_back(statements: Seq<StatementView>, rest: Seq<char>)
    requires
        statements.len() <= baseline::BASELINE_COUNT_LIMIT,
        forall|k: int| 0 <= k < statements.len() ==> codes_read_back(#[trigger] statements[k]),
    ensures
        baseline::baseline_of(
            encode_utf8(FORMAT_HEADER@ + snapshot::baseline_text(statements) + rest),
            baseline::ascii(FORMAT_HEADER).len() as int,
        ) == Ok::<(Map<Seq<char>, Seq<u8>>, int), (Seq<char>, Seq<char>)>(
            (
                add_all(Map::empty(), statements),
                (baseline::ascii(FORMAT_HEADER).len() + encode_utf8(
                    snapshot::baseline_text(statements),
                ).len()) as int,
            ),
        ),
{
    let hdr = baseline::ascii(FORMAT_HEADER);
    let head = baseline::ascii("-- sqlite-mcp schema-baseline: v1 count=");
    let count = encode_utf8(text::decimal(statements.len()));
    let lines = encode_utf8(snapshot::records_text(statements));
    let tail = baseline::ascii("-- sqlite-mcp schema-baseline-end: v1\n");
    let after = encode_utf8(rest);
    let base = encode_utf8(snapshot::baseline_text(statements));
    let b = encode_utf8(FORMAT_HEADER@ + snapshot::baseline_text(statements) + rest);
    let c1 = "-- sqlite-mcp schema-baseline: v1 count="@ + text::decimal(statements.len());
    let c2 = c1 + "\n"@;
    let c3 = c2 + snapshot::records_text(statements);
    lemma_encode_concat(
        "-- sqlite-mcp schema-baseline: v1 count="@,
        text::decimal(statements.len()),
    );
    lemma_encode_concat(c1, "\n"@);
    lemma_encode_concat(c2, snapshot::records_text(statements));
    lemma_encode_concat(c3, "-- sqlite-mcp schema-baseline-end: v1\n"@);
    lemma_encode_concat(FORMAT_HEADER@, snapshot::baseline_text(statements));
    lemma_encode_concat(FORMAT_HEADER@ + snapshot::baseline_text(statements), rest);
    lemma_baseline_marks();
    lemma_count_reads_back(statements.len());
    assert(base == head + count + seq![LINE_FEED] + lines + tail);
    assert(b == hdr + base + after);
    let h = hdr.len() as int;
    let at = h + head.len() + count.len() + 1;
    lemma_baseline_layout(
        hdr,
        head,
        count,
        lines,
        tail,
        after,
        baseline::ascii("-- sqlite-mcp schema-baseline:"),
    );
    assert(baseline::skip_layout(b.skip(h)) == b.skip(h));
    lemma_records_read_back(b, at, statements, Map::empty());
}

} // verus!
