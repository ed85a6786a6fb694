//! The format header and the schema baseline of merge text.
use crate::merge::error::MergeError;
use crate::merge::statements;
use crate::merge::statements::LINE_FEED;
use crate::outside;
use crate::outside::{decode_url_base64, digest_sha256_hex, text_of_utf8};
use crate::text::{same_bytes, same_text};
use vstd::prelude::*;
use vstd::slice::slice_subrange;
use vstd::utf8::*;

verus! {

/// The first line of every merge text.
pub const FORMAT_HEADER: &'static str = "-- sqlite-mcp merge-format: 1\n";

/// The largest number of records that a baseline may announce.
pub const BASELINE_COUNT_LIMIT: usize = 1_000_000;

/// The schema statements that a merge text was extracted with, by object name.
///
/// Entries are kept in the order in which they came; a later entry for a name
/// hides the earlier ones.
#[derive(Debug)]
pub struct Baseline {
    entries: Vec<(String, Vec<u8>)>,
}

/// What a list of entries says of each name: the last entry counts.
pub open spec fn entries_map(entries: Seq<(String, Vec<u8>)>) -> Map<Seq<char>, Seq<u8>>
    decreases entries.len(),
{
    if entries.len() == 0 {
        Map::empty()
    } else {
        entries_map(entries.drop_last()).insert(entries.last().0@, entries.last().1@)
    }
}

impl View for Baseline {
    type V = Map<Seq<char>, Seq<u8>>;

    closed spec fn view(&self) -> Map<Seq<char>, Seq<u8>> {
        entries_map(self.entries@)
    }
}

impl Baseline {
    /// A baseline without entries.
    pub fn new() -> (r: Self)
        ensures
            r@ == Map::<Seq<char>, Seq<u8>>::empty(),
    {
        Baseline { entries: Vec::new() }
    }

    /// Records the statement of an object.
    pub fn insert(&mut self, name: String, sql: Vec<u8>)
        ensures
            final(self)@ == old(self)@.insert(name@, sql@),
    {
        let ghost before = self.entries@;
        self.entries.push((name, sql));
        assert(self.entries@.drop_last() =~= before);
    }

    /// The statement of an object.
    pub fn get(&self, name: &str) -> (r: Option<&Vec<u8>>)
        ensures
            match r {
                Some(sql) => self@.contains_key(name@) && self@[name@] == sql@,
                None => !self@.contains_key(name@),
            },
    {
        let mut i: usize = self.entries.len();
        assert(self.entries@.take(i as int) =~= self.entries@);
        while i > 0
            invariant
                i <= self.entries@.len(),
                ({
                    let m = entries_map(self.entries@.take(i as int));
                    &&& m.contains_key(name@) == self@.contains_key(name@)
                    &&& m.contains_key(name@) ==> m[name@] == self@[name@]
                }),
            decreases i,
        {
            assert(self.entries@.take(i as int).drop_last() =~= self.entries@.take(i - 1));
            i -= 1;
            if same_text(self.entries[i].0.as_str(), name) {
                return Some(&self.entries[i].1);
            }
        }
        None
    }

    /// Whether there is no entry.
    pub fn is_empty(&self) -> (r: bool)
        ensures
            r == (self@ == Map::<Seq<char>, Seq<u8>>::empty()),
    {
        proof {
            if self.entries@.len() > 0 {
                assert(self@.contains_key(self.entries@.last().0@));
            }
        }
        self.entries.len() == 0
    }
}

/// The position of the first line feed at or after `from`.
pub open spec fn line_break(b: Seq<u8>, from: int) -> Option<int>
    decreases b.len() - from,
{
    if from >= b.len() {
        None
    } else if b[from] == LINE_FEED {
        Some(from)
    } else {
        line_break(b, from + 1)
    }
}

/// `s` without its leading spaces, line feeds and tabs.
pub open spec fn skip_layout(s: Seq<u8>) -> Seq<u8>
    decreases s.len(),
{
    if s.len() > 0 && (s[0] == 0x20 || s[0] == LINE_FEED || s[0] == 0x09) {
        skip_layout(s.skip(1))
    } else {
        s
    }
}

/// The number that decimal digits stand for.
pub open spec fn digits_value(d: Seq<u8>) -> nat
    decreases d.len(),
{
    if d.len() == 0 {
        0
    } else {
        (digits_value(d.drop_last()) * 10 + (d.last() - 0x30)) as nat
    }
}

pub open spec fn is_digit(c: u8) -> bool {
    0x30 <= c <= 0x39
}

/// The count that a text stands for: decimal digits, at most one plus sign
/// before them, and a value that a `usize` can hold.
pub open spec fn count_value(s: Seq<u8>) -> Option<usize> {
    let d = unsigned(s);
    if d.len() > 0 && all_digits(d) && digits_value(d) <= usize::MAX {
        Some(digits_value(d) as usize)
    } else {
        None
    }
}

/// `s` without the plus sign that it may start with.
pub open spec fn unsigned(s: Seq<u8>) -> Seq<u8> {
    if s.len() > 0 && s[0] == 0x2b {
        s.skip(1)
    } else {
        s
    }
}

pub open spec fn all_digits(d: Seq<u8>) -> bool {
    forall|i: int| 0 <= i < d.len() ==> is_digit(#[trigger] d[i])
}

/// The parts of `s` between the bytes `sep`.
pub open spec fn split_on(s: Seq<u8>, sep: u8) -> Seq<Seq<u8>>
    decreases s.len(),
{
    if s.len() == 0 {
        seq![Seq::<u8>::empty()]
    } else if s.last() == sep {
        split_on(s.drop_last(), sep).push(Seq::empty())
    } else {
        let parts = split_on(s.drop_last(), sep);
        parts.drop_last().push(parts.last().push(s.last()))
    }
}

/// The position of the first byte `c`.
pub open spec fn index_of_byte(s: Seq<u8>, c: u8) -> Option<int>
    decreases s.len(),
{
    if s.len() == 0 {
        None
    } else if s[0] == c {
        Some(0)
    } else {
        match index_of_byte(s.skip(1), c) {
            Some(i) => Some(i + 1),
            None => None,
        }
    }
}

/// Every item has the form `key=value`.
pub open spec fn all_fields(items: Seq<Seq<u8>>) -> bool {
    forall|i: int| 0 <= i < items.len() ==> index_of_byte(#[trigger] items[i], 0x3d) is Some
}

/// The key of an item.
pub open spec fn field_key(item: Seq<u8>) -> Seq<u8> {
    item.take(index_of_byte(item, 0x3d)->0)
}

/// The value of an item.
pub open spec fn field_value(item: Seq<u8>) -> Seq<u8> {
    item.skip(index_of_byte(item, 0x3d)->0 + 1)
}

/// The value of the last item with this key.
pub open spec fn lookup(items: Seq<Seq<u8>>, key: Seq<u8>) -> Option<Seq<u8>>
    decreases items.len(),
{
    if items.len() == 0 {
        None
    } else if field_key(items.last()) == key {
        Some(field_value(items.last()))
    } else {
        lookup(items.drop_last(), key)
    }
}

/// A fault of the text's form.
pub open spec fn malformed(message: &str) -> (Seq<char>, Seq<char>) {
    ("MERGE_FORMAT_INVALID"@, message@)
}

/// A fault of the text's size.
pub open spec fn excessive(message: &str) -> (Seq<char>, Seq<char>) {
    ("MERGE_LIMIT_EXCEEDED"@, message@)
}

pub open spec fn ascii(s: &str) -> Seq<u8> {
    encode_utf8(s@)
}

/// The object and the statement that one baseline line records, or the first
/// thing that is wrong with it.
pub open spec fn record_of(line: Seq<u8>) -> Result<(Seq<char>, Seq<u8>), (Seq<char>, Seq<char>)> {
    let prefix = ascii("-- sqlite-mcp schema-hash: v1 ");
    let items = split_on(line.skip(prefix.len() as int), 0x20);
    let name = lookup(items, ascii("name_b64"));
    let sql = lookup(items, ascii("sql_bytes"));
    let digest = lookup(items, ascii("sql_sha256"));
    if !prefix.is_prefix_of(line) {
        Err(malformed("invalid schema baseline record"))
    } else if !all_fields(items) {
        Err(malformed("invalid schema baseline field"))
    } else if name is None {
        Err(malformed("missing baseline name"))
    } else if outside::url_base64_decoded(name->0) is None {
        Err(malformed("invalid baseline name"))
    } else if !valid_utf8(outside::url_base64_decoded(name->0)->0) {
        Err(malformed("baseline name is not UTF-8"))
    } else if sql is None {
        Err(malformed("missing baseline SQL"))
    } else if outside::url_base64_decoded(sql->0) is None {
        Err(malformed("invalid baseline SQL"))
    } else if digest is None {
        Err(malformed("missing baseline digest"))
    } else if encode_utf8(outside::sha256_hex(outside::url_base64_decoded(sql->0)->0))
        != digest->0 {
        Err(malformed("schema baseline digest mismatch"))
    } else {
        Ok(
            (
                decode_utf8(outside::url_base64_decoded(name->0)->0),
                outside::url_base64_decoded(sql->0)->0,
            ),
        )
    }
}

/// The records of `n` lines from `at` on, added to `map`, and the position
/// behind them.
pub open spec fn records_of(b: Seq<u8>, at: int, n: nat, map: Map<Seq<char>, Seq<u8>>) -> Result<
    (Map<Seq<char>, Seq<u8>>, int),
    (Seq<char>, Seq<char>),
>
    decreases n,
{
    if n == 0 {
        Ok((map, at))
    } else {
        match line_break(b, at) {
            None => Err(malformed("unterminated schema baseline record")),
            Some(end) => match record_of(b.subrange(at, end)) {
                Err(fault) => Err(fault),
                Ok((name, sql)) => records_of(
                    b,
                    end + 1,
                    (n - 1) as nat,
                    map.insert(name, sql),
                ),
            },
        }
    }
}

/// The baseline that stands at `offset`, and the position behind it. A text
/// that announces none has an empty one.
pub open spec fn baseline_of(b: Seq<u8>, offset: int) -> Result<
    (Map<Seq<char>, Seq<u8>>, int),
    (Seq<char>, Seq<char>),
> {
    let head = ascii("-- sqlite-mcp schema-baseline: v1 count=");
    let tail = ascii("-- sqlite-mcp schema-baseline-end: v1\n");
    if !ascii("-- sqlite-mcp schema-baseline:").is_prefix_of(skip_layout(b.skip(offset))) {
        Ok((Map::empty(), offset))
    } else if line_break(b, offset) is None {
        Err(malformed("unterminated schema baseline header"))
    } else {
        let end = line_break(b, offset)->0;
        let line = b.subrange(offset, end);
        let count = count_value(line.skip(head.len() as int));
        if !head.is_prefix_of(line) {
            Err(malformed("invalid schema baseline header"))
        } else if count is None {
            Err(excessive("invalid or excessive schema baseline count"))
        } else if count->0 > BASELINE_COUNT_LIMIT {
            Err(excessive("schema baseline count exceeds limit"))
        } else {
            match records_of(b, end + 1, count->0 as nat, Map::empty()) {
                Err(fault) => Err(fault),
                Ok((map, at)) => if tail.is_prefix_of(b.skip(at)) {
                    Ok((map, at + tail.len()))
                } else {
                    Err(malformed("schema baseline is not closed"))
                },
            }
        }
    }
}

/// The subranges of `s` that a list of bounds names.
pub open spec fn parts_of(s: Seq<u8>, bounds: Seq<(usize, usize)>) -> Seq<Seq<u8>> {
    bounds.map_values(|r: (usize, usize)| s.subrange(r.0 as int, r.1 as int))
}

pub open spec fn bounds_fit(s: Seq<u8>, bounds: Seq<(usize, usize)>) -> bool {
    forall|k: int|
        0 <= k < bounds.len() ==> (#[trigger] bounds[k]).0 <= bounds[k].1 && bounds[k].1 <= s.len()
}

/// Whether `prefix` stands at `at`.
pub fn has_prefix_at(bytes: &[u8], at: usize, prefix: &[u8]) -> (r: bool)
    requires
        at <= bytes@.len(),
    ensures
        r == prefix@.is_prefix_of(bytes@.skip(at as int)),
{
    if bytes.len() - at < prefix.len() {
        return false;
    }
    let part = slice_subrange(bytes, at, at + prefix.len());
    assert(bytes@.skip(at as int).subrange(0, prefix@.len() as int) =~= part@);
    same_bytes(part, prefix)
}

/// The position of the first line feed at or after `from`.
pub fn line_break_at(bytes: &[u8], from: usize) -> (r: Option<usize>)
    requires
        from <= bytes@.len(),
    ensures
        match r {
            Some(p) => line_break(bytes@, from as int) == Some(p as int) && from <= p < bytes@.len()
                && bytes@[p as int] == LINE_FEED,
            None => line_break(bytes@, from as int) is None,
        },
{
    let mut p: usize = from;
    while p < bytes.len()
        invariant
            from <= p <= bytes@.len(),
            line_break(bytes@, p as int) == line_break(bytes@, from as int),
        decreases bytes.len() - p,
    {
        if bytes[p] == LINE_FEED {
            return Some(p);
        }
        p += 1;
    }
    None
}

fn skip_layout_at(bytes: &[u8], from: usize) -> (r: usize)
    requires
        from <= bytes@.len(),
    ensures
        from <= r <= bytes@.len(),
        bytes@.skip(r as int) == skip_layout(bytes@.skip(from as int)),
{
    let mut p: usize = from;
    while p < bytes.len() && (bytes[p] == 0x20 || bytes[p] == LINE_FEED || bytes[p] == 0x09)
        invariant
            from <= p <= bytes@.len(),
            skip_layout(bytes@.skip(p as int)) == skip_layout(bytes@.skip(from as int)),
        decreases bytes.len() - p,
    {
        assert(bytes@.skip(p as int).skip(1) =~= bytes@.skip(p + 1));
        p += 1;
    }
    p
}

proof fn lemma_digits_monotone(d: Seq<u8>, i: int)
    requires
        0 <= i <= d.len(),
        all_digits(d),
    ensures
        digits_value(d.take(i)) <= digits_value(d),
    decreases d.len(),
{
    if i < d.len() {
        lemma_digits_monotone(d.drop_last(), i);
        assert(d.drop_last().take(i) =~= d.take(i));
    } else {
        assert(d.take(i) =~= d);
    }
}

/// The count that a text stands for.
pub fn parse_count(s: &[u8]) -> (r: Option<usize>)
    ensures
        r == count_value(s@),
{
    let from: usize = if s.len() > 0 && s[0] == 0x2b {
        1
    } else {
        0
    };
    let ghost d = s@.skip(from as int);
    assert(s@.skip(0) =~= s@);
    if s.len() == from {
        return None;
    }
    let mut value: usize = 0;
    let mut i: usize = from;
    while i < s.len()
        invariant
            from <= 1,
            from <= i <= s@.len(),
            d == s@.skip(from as int),
            d == unsigned(s@),
            all_digits(d.take(i - from)),
            value == digits_value(d.take(i - from)),
        decreases s.len() - i,
    {
        let c: u8 = s[i];
        if c < 0x30 || c > 0x39 {
            assert(!is_digit(d[i - from]));
            return None;
        }
        let x: usize = (c - 0x30) as usize;
        assert(d.take(i - from + 1).drop_last() =~= d.take(i - from));
        if value > (usize::MAX - x) / 10 {
            proof {
                let v = value as int;
                assert(v * 10 + x > usize::MAX);
                if all_digits(d) {
                    lemma_digits_monotone(d, i - from + 1);
                }
            }
            return None;
        }
        value = value * 10 + x;
        assert(d.take(i - from + 1) =~= d.take(i - from).push(c));
        i += 1;
    }
    assert(d.take(d.len() as int) =~= d);
    Some(value)
}

/// The bounds of the parts of `s` from `from` on between the bytes `sep`.
fn split_bounds(s: &[u8], from: usize, sep: u8) -> (r: Vec<(usize, usize)>)
    requires
        from <= s@.len(),
    ensures
        bounds_fit(s@, r@),
        parts_of(s@, r@) == split_on(s@.skip(from as int), sep),
{
    let mut bounds: Vec<(usize, usize)> = Vec::new();
    let mut start: usize = from;
    let mut i: usize = from;
    assert(s@.subrange(from as int, from as int) =~= Seq::<u8>::empty());
    assert(parts_of(s@, bounds@).push(s@.subrange(from as int, from as int)) =~= seq![
        Seq::<u8>::empty(),
    ]);
    while i < s.len()
        invariant
            from <= start <= i <= s@.len(),
            bounds_fit(s@, bounds@),
            split_on(s@.subrange(from as int, i as int), sep) == parts_of(s@, bounds@).push(
                s@.subrange(start as int, i as int),
            ),
        decreases s.len() - i,
    {
        let ghost seen = s@.subrange(from as int, i as int);
        let ghost before = parts_of(s@, bounds@);
        let ghost open_part = s@.subrange(start as int, i as int);
        assert(s@.subrange(from as int, i + 1).drop_last() =~= seen);
        assert(split_on(seen, sep).drop_last() =~= before);
        if s[i] == sep {
            bounds.push((start, i));
            start = i + 1;
            assert(parts_of(s@, bounds@) =~= before.push(open_part));
            assert(s@.subrange(start as int, i + 1) =~= Seq::<u8>::empty());
        } else {
            assert(open_part.push(s@[i as int]) =~= s@.subrange(start as int, i + 1));
        }
        i += 1;
    }
    let ghost before = parts_of(s@, bounds@);
    bounds.push((start, i));
    assert(parts_of(s@, bounds@) =~= before.push(s@.subrange(start as int, i as int)));
    assert(s@.subrange(from as int, s@.len() as int) =~= s@.skip(from as int));
    bounds
}

/// The position of the first equals sign between two bounds.
fn equals_at(s: &[u8], lo: usize, hi: usize) -> (r: Option<usize>)
    requires
        lo <= hi <= s@.len(),
    ensures
        match r {
            Some(p) => index_of_byte(s@.subrange(lo as int, hi as int), 0x3d) == Some(p - lo) && lo
                <= p < hi,
            None => index_of_byte(s@.subrange(lo as int, hi as int), 0x3d) is None,
        },
{
    let mut p: usize = lo;
    while p < hi
        invariant
            lo <= p <= hi <= s@.len(),
            ({
                let all = index_of_byte(s@.subrange(lo as int, hi as int), 0x3d);
                match index_of_byte(s@.subrange(p as int, hi as int), 0x3d) {
                    Some(i) => all == Some(i + (p - lo)),
                    None => all is None,
                }
            }),
        decreases hi - p,
    {
        let ghost rest = s@.subrange(p as int, hi as int);
        assert(rest.skip(1) =~= s@.subrange(p + 1, hi as int));
        if s[p] == 0x3d {
            return Some(p);
        }
        p += 1;
    }
    None
}

/// Whether every part has the form `key=value`.
fn are_fields(s: &[u8], bounds: &Vec<(usize, usize)>) -> (r: bool)
    requires
        bounds_fit(s@, bounds@),
    ensures
        r == all_fields(parts_of(s@, bounds@)),
{
    let mut k: usize = 0;
    let ghost items = parts_of(s@, bounds@);
    while k < bounds.len()
        invariant
            k <= bounds@.len(),
            bounds_fit(s@, bounds@),
            items == parts_of(s@, bounds@),
            forall|i: int| 0 <= i < k ==> index_of_byte(#[trigger] items[i], 0x3d) is Some,
        decreases bounds.len() - k,
    {
        let (lo, hi) = bounds[k];
        assert(items[k as int] == s@.subrange(lo as int, hi as int));
        if equals_at(s, lo, hi).is_none() {
            return false;
        }
        k += 1;
    }
    true
}

/// The value of the last part with this key.
fn lookup_field<'a>(s: &'a [u8], bounds: &Vec<(usize, usize)>, key: &[u8]) -> (r: Option<&'a [u8]>)
    requires
        bounds_fit(s@, bounds@),
        all_fields(parts_of(s@, bounds@)),
    ensures
        match r {
            Some(value) => lookup(parts_of(s@, bounds@), key@) == Some(value@),
            None => lookup(parts_of(s@, bounds@), key@) is None,
        },
{
    let ghost items = parts_of(s@, bounds@);
    let mut k: usize = bounds.len();
    assert(items.take(k as int) =~= items);
    while k > 0
        invariant
            k <= bounds@.len(),
            bounds_fit(s@, bounds@),
            items == parts_of(s@, bounds@),
            all_fields(items),
            lookup(items.take(k as int), key@) == lookup(items, key@),
        decreases k,
    {
        assert(items.take(k as int).drop_last() =~= items.take(k - 1));
        k -= 1;
        let (lo, hi) = bounds[k];
        let ghost item = items[k as int];
        assert(item == s@.subrange(lo as int, hi as int));
        assert(index_of_byte(item, 0x3d) is Some);
        if let Some(p) = equals_at(s, lo, hi) {
            let found = slice_subrange(s, lo, p);
            assert(found@ =~= field_key(item));
            if same_bytes(found, key) {
                let value = slice_subrange(s, p + 1, hi);
                assert(value@ =~= field_value(item));
                return Some(value);
            }
        }
    }
    None
}

/// What one baseline line records.
fn parse_record(line: &[u8]) -> (r: Result<(String, Vec<u8>), MergeError>)
    ensures
        match record_of(line@) {
            Ok((name, sql)) => r matches Ok(v) && v.0@ == name && v.1@ == sql,
            Err(fault) => r matches Err(e) && e.fault() == fault && e.details is Null,
        },
{
    let prefix = "-- sqlite-mcp schema-hash: v1 ".as_bytes();
    assert(line@.skip(0) =~= line@);
    if !has_prefix_at(line, 0, prefix) {
        return Err(MergeError::new("MERGE_FORMAT_INVALID", "invalid schema baseline record"));
    }
    let bounds = split_bounds(line, prefix.len(), 0x20);
    if !are_fields(line, &bounds) {
        return Err(MergeError::new("MERGE_FORMAT_INVALID", "invalid schema baseline field"));
    }
    let name_text = match lookup_field(line, &bounds, "name_b64".as_bytes()) {
        Some(value) => value,
        None => return Err(MergeError::new("MERGE_FORMAT_INVALID", "missing baseline name")),
    };
    let name_bytes = match decode_url_base64(name_text) {
        Some(value) => value,
        None => return Err(MergeError::new("MERGE_FORMAT_INVALID", "invalid baseline name")),
    };
    let name = match text_of_utf8(name_bytes) {
        Some(value) => value,
        None => return Err(MergeError::new("MERGE_FORMAT_INVALID", "baseline name is not UTF-8")),
    };
    proof {
        encode_utf8_valid_utf8(name@);
        encode_utf8_decode_utf8(name@);
    }
    let sql_text = match lookup_field(line, &bounds, "sql_bytes".as_bytes()) {
        Some(value) => value,
        None => return Err(MergeError::new("MERGE_FORMAT_INVALID", "missing baseline SQL")),
    };
    let sql = match decode_url_base64(sql_text) {
        Some(value) => value,
        None => return Err(MergeError::new("MERGE_FORMAT_INVALID", "invalid baseline SQL")),
    };
    let digest = match lookup_field(line, &bounds, "sql_sha256".as_bytes()) {
        Some(value) => value,
        None => return Err(MergeError::new("MERGE_FORMAT_INVALID", "missing baseline digest")),
    };
    let actual = digest_sha256_hex(sql.as_slice());
    if !same_bytes(actual.as_str().as_bytes(), digest) {
        return Err(MergeError::new("MERGE_FORMAT_INVALID", "schema baseline digest mismatch"));
    }
    Ok((name, sql))
}

/// Checks the format header and gives its length.
pub fn validate_header(text: &str) -> (r: Result<usize, MergeError>)
    ensures
        match r {
            Ok(n) => valid_header(text@) && n == ascii(FORMAT_HEADER).len(),
            Err(e) => !valid_header(text@) && e.details is Null && e.fault() == malformed(
                "merge text must begin with the exact LF-terminated format header",
            ),
        },
{
    let bytes = text.as_bytes();
    let header = FORMAT_HEADER.as_bytes();
    assert(bytes@.skip(0) =~= bytes@);
    if !has_prefix_at(bytes, 0, header) || has_crlf(bytes) {
        return Err(
            MergeError::new(
                "MERGE_FORMAT_INVALID",
                "merge text must begin with the exact LF-terminated format header",
            ),
        );
    }
    Ok(header.len())
}

/// A carriage return stands directly before a line feed.
pub open spec fn contains_crlf(b: Seq<u8>) -> bool {
    exists|i: int| 0 <= i < b.len() - 1 && #[trigger] b[i] == 0x0d && b[i + 1] == LINE_FEED
}

/// The text starts with the format header and uses bare line feeds.
pub open spec fn valid_header(text: Seq<char>) -> bool {
    &&& ascii(FORMAT_HEADER).is_prefix_of(encode_utf8(text))
    &&& !contains_crlf(encode_utf8(text))
}

fn has_crlf(bytes: &[u8]) -> (r: bool)
    ensures
        r == contains_crlf(bytes@),
{
    let mut i: usize = 0;
    while i < bytes.len()
        invariant
            i <= bytes@.len(),
            forall|j: int|
                0 <= j < i && j < bytes@.len() - 1 ==> !(#[trigger] bytes@[j] == 0x0d && bytes@[j
                    + 1] == LINE_FEED),
        decreases bytes.len() - i,
    {
        if bytes.len() - i >= 2 && bytes[i] == 0x0d && bytes[i + 1] == LINE_FEED {
            return true;
        }
        i += 1;
    }
    false
}

/// Parses the schema baseline that stands at `offset`.
pub fn parse_baseline(text: &str, offset: usize) -> (r: Result<(Baseline, usize), MergeError>)
    requires
        is_char_boundary(encode_utf8(text@), offset as int),
    ensures
        match baseline_of(encode_utf8(text@), offset as int) {
            Ok((map, at)) => r matches Ok(v) && v.0@ == map && v.1 == at && is_char_boundary(
                encode_utf8(text@),
                at,
            ),
            Err(fault) => r matches Err(e) && e.fault() == fault && e.details is Null,
        },
{
    let bytes = text.as_bytes();
    let ghost b = bytes@;
    proof {
        encode_utf8_valid_utf8(text@);
        lemma_boundary_in_range(b, offset as int);
    }
    let total: usize = bytes.len();
    let first: usize = skip_layout_at(bytes, offset);
    if !has_prefix_at(bytes, first, "-- sqlite-mcp schema-baseline:".as_bytes()) {
        return Ok((Baseline::new(), offset));
    }
    let end: usize = match line_break_at(bytes, offset) {
        Some(p) => p,
        None => return Err(
            MergeError::new("MERGE_FORMAT_INVALID", "unterminated schema baseline header"),
        ),
    };
    let line = slice_subrange(bytes, offset, end);
    let head = "-- sqlite-mcp schema-baseline: v1 count=".as_bytes();
    assert(line@.skip(0) =~= line@);
    if !has_prefix_at(line, 0, head) {
        return Err(MergeError::new("MERGE_FORMAT_INVALID", "invalid schema baseline header"));
    }
    let count_text = slice_subrange(line, head.len(), line.len());
    assert(count_text@ =~= line@.skip(head@.len() as int));
    let count: usize = match parse_count(count_text) {
        Some(n) => n,
        None => return Err(
            MergeError::new("MERGE_LIMIT_EXCEEDED", "invalid or excessive schema baseline count"),
        ),
    };
    if count > BASELINE_COUNT_LIMIT {
        return Err(MergeError::new("MERGE_LIMIT_EXCEEDED", "schema baseline count exceeds limit"));
    }
    let mut baseline = Baseline::new();
    let mut at: usize = end + 1;
    let mut left: usize = count;
    while left > 0
        invariant
            bytes@ == b,
            at <= b.len() == total,
            records_of(b, at as int, left as nat, baseline@) == records_of(
                b,
                end + 1,
                count as nat,
                Map::empty(),
            ),
            baseline_of(b, offset as int) == match records_of(b, end + 1, count as nat, Map::empty()) {
                Err(fault) => Err(fault),
                Ok((map, at)) => if ascii("-- sqlite-mcp schema-baseline-end: v1\n").is_prefix_of(
                    b.skip(at),
                ) {
                    Ok((map, at + ascii("-- sqlite-mcp schema-baseline-end: v1\n").len()))
                } else {
                    Err(malformed("schema baseline is not closed"))
                },
            },
            b == encode_utf8(text@),
            valid_utf8(b),
        decreases left,
    {
        let stop: usize = match line_break_at(bytes, at) {
            Some(p) => p,
            None => return Err(
                MergeError::new("MERGE_FORMAT_INVALID", "unterminated schema baseline record"),
            ),
        };
        let (name, sql) = match parse_record(slice_subrange(bytes, at, stop)) {
            Ok(v) => v,
            Err(e) => return Err(e),
        };
        baseline.insert(name, sql);
        at = stop + 1;
        left -= 1;
    }
    let tail = "-- sqlite-mcp schema-baseline-end: v1\n".as_bytes();
    if !has_prefix_at(bytes, at, tail) {
        return Err(MergeError::new("MERGE_FORMAT_INVALID", "schema baseline is not closed"));
    }
    proof {
        lemma_boundary_after_marker(b, at as int);
    }
    Ok((baseline, at + tail.len()))
}

proof fn lemma_boundary_after_marker(b: Seq<u8>, at: int)
    requires
        valid_utf8(b),
        0 <= at <= b.len(),
        ascii("-- sqlite-mcp schema-baseline-end: v1\n").is_prefix_of(b.skip(at)),
    ensures
        is_char_boundary(b, at + ascii("-- sqlite-mcp schema-baseline-end: v1\n").len()),
        at + ascii("-- sqlite-mcp schema-baseline-end: v1\n").len() <= b.len(),
{
    let tail = ascii("-- sqlite-mcp schema-baseline-end: v1\n");
    reveal_strlit("-- sqlite-mcp schema-baseline-end: v1\n");
    is_ascii_chars_encode_utf8("-- sqlite-mcp schema-baseline-end: v1\n"@);
    let n = tail.len();
    assert(b.skip(at).subrange(0, n as int)[n - 1] == tail[n - 1]);
    statements::lemma_boundary_after_ascii(b, at + n - 1);
}

pub proof fn lemma_boundary_in_range(b: Seq<u8>, i: int)
    requires
        valid_utf8(b),
        is_char_boundary(b, i),
    ensures
        0 <= i <= b.len(),
{
    reveal_with_fuel(is_char_boundary, 2);
}

} // verus!
