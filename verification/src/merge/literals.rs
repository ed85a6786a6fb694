//! How values and names are written, and what a manifest says.
use crate::json;
use crate::merge::error::MergeError;
use crate::merge::manifest;
use crate::merge::manifest::manifest_text;
use crate::merge::results::{FileByteCounts, Files, SidecarObservation, SourceObservation};
use crate::merge::values;
use crate::merge::values::{
    quote_text, quoted_identifier, typed_value, value_literal, SourceValue,
};
use crate::outside;
use crate::text;
use vstd::prelude::*;
use vstd::utf8::*;

verus! {

/// Every quote is doubled and every other character stays, in its place.
pub proof fn quotes_are_doubled(a: Seq<char>, b: Seq<char>, c: char, q: char)
    ensures
        values::doubled(a + b, q) == values::doubled(a, q) + values::doubled(b, q),
        c == q ==> values::doubled(seq![c], q) == seq![q, q],
        c != q ==> values::doubled(seq![c], q) == seq![c],
        values::doubled(Seq::empty(), q).len() == 0,
    decreases b.len(),
{
    let one = seq![c];
    assert(one.drop_last() =~= Seq::<char>::empty());
    reveal_with_fuel(values::doubled, 2);
    if c == q {
        assert(values::doubled(one, q) =~= seq![q, q]);
    } else {
        assert(values::doubled(one, q) =~= seq![c]);
    }
    if b.len() == 0 {
        assert(a + b =~= a);
        assert(values::doubled(a, q) + values::doubled(b, q) =~= values::doubled(a, q));
    } else {
        quotes_are_doubled(a, b.drop_last(), c, q);
        assert((a + b).drop_last() =~= a + b.drop_last());
        assert(values::doubled(a + b, q) =~= values::doubled(a, q) + values::doubled(b, q));
    }
}

/// A text is quoted by a quote before it and one behind it, and a name by double
/// quotes, unless it holds a NUL.
pub proof fn names_are_quoted(
    s: &str,
    q: char,
    r: String,
    name: &str,
    quoted: Result<String, MergeError>,
)
    requires
        call_ensures(quote_text, (s, q), r),
        call_ensures(quoted_identifier, (name,), quoted),
    ensures
        r@ == seq![q] + values::doubled(s@, q) + seq![q],
        quoted is Ok <==> !name@.contains('\0'),
        quoted matches Ok(v) ==> v@ == seq!['"'] + values::doubled(name@, '"') + seq!['"'],
        quoted matches Err(e) ==> e.class@ == "MERGE_UNREPRESENTABLE_CONTENT"@,
{
}

/// A double is not finite exactly where all bits of its exponent are set.
pub proof fn infinities_have_a_full_exponent(bits: u64)
    ensures
        values::is_non_finite(bits) <==> bits % 0x8000_0000_0000_0000 >= 0x7ff0_0000_0000_0000,
{
    assert((bits / 0x10_0000_0000_0000) % 0x800 == 0x7ff <==> bits % 0x8000_0000_0000_0000
        >= 0x7ff0_0000_0000_0000) by (bit_vector);
}

/// The character that a number below sixteen is written as in a blob.
pub open spec fn upper_digit(n: int) -> char {
    "0123456789ABCDEF"@[n]
}

/// A blob is written byte by byte, each as two upper-case hexadecimal digits, the
/// higher one first.
pub proof fn bytes_are_two_digits(a: Seq<u8>, b: Seq<u8>, x: u8)
    ensures
        values::hex_bytes(a + b) == values::hex_bytes(a) + values::hex_bytes(b),
        values::hex_bytes(seq![x]) == seq![upper_digit(x as int / 16), upper_digit(x as int % 16)],
        values::hex_bytes(Seq::empty()).len() == 0,
    decreases b.len(),
{
    let one = seq![x];
    assert(one.drop_last() =~= Seq::<u8>::empty());
    reveal_with_fuel(values::hex_bytes, 2);
    reveal_strlit("0123456789ABCDEF");
    lemma_upper_digit((x / 16) as u8);
    lemma_upper_digit((x % 16) as u8);
    assert(values::hex_bytes(one) =~= seq![
        upper_digit(x as int / 16),
        upper_digit(x as int % 16),
    ]);
    if b.len() == 0 {
        assert(a + b =~= a);
        assert(values::hex_bytes(a) + values::hex_bytes(b) =~= values::hex_bytes(a));
    } else {
        bytes_are_two_digits(a, b.drop_last(), x);
        assert((a + b).drop_last() =~= a + b.drop_last());
        assert(values::hex_bytes(a + b) =~= values::hex_bytes(a) + values::hex_bytes(b));
    }
}

proof fn lemma_upper_digit(n: u8)
    requires
        n < 16,
    ensures
        values::upper_hex(n) == upper_digit(n as int),
{
    reveal_strlit("0123456789ABCDEF");
    assert(n < 10 ==> (0x30 + n) as u8 == 0x30 + n);
    assert(n >= 10 ==> (0x37 + n) as u8 == 0x37 + n);
}

/// A value is written as what it is: null by its word, an integer in decimal, text in
/// single quotes, a blob in hexadecimal digits. What has no such form is refused.
pub proof fn values_are_written_as_they_are(value: &SourceValue, r: Result<String, String>)
    requires
        call_ensures(value_literal, (value,), r),
    ensures
        *value is Null ==> (r matches Ok(s) && s@ == "NULL"@),
        *value matches SourceValue::Integer(n) ==> (r matches Ok(s) && s@ == text::signed_decimal(
            n as int,
        )),
        *value matches SourceValue::Text(bytes) ==> (r is Ok <==> valid_utf8(bytes@)
            && !bytes@.contains(0u8)) && (r matches Ok(s) ==> s@ == seq!['\''] + values::doubled(
            decode_utf8(bytes@),
            '\'',
        ) + seq!['\'']),
        *value matches SourceValue::Blob(bytes) ==> (r matches Ok(s) && s@ == "X'"@
            + values::hex_bytes(bytes@) + "'"@),
        *value matches SourceValue::Real { bits, .. } ==> (r is Ok <==> bits
            % 0x8000_0000_0000_0000 < 0x7ff0_0000_0000_0000),
        *value matches SourceValue::Real { bits, .. } ==> (bits == 0x8000_0000_0000_0000 ==> (
        r matches Ok(s) && s@ == "-0.0"@)),
        *value matches SourceValue::Real { bits, display } ==> (r is Ok && bits
            != 0x8000_0000_0000_0000 ==> {
            let shown = values::without_plus(display@);
            let s = r->Ok_0@;
            &&& shown.contains('.') || shown.contains('e') || shown.contains('E') ==> s == shown
            &&& !shown.contains('.') && !shown.contains('e') && !shown.contains('E') ==> s == shown
                + ".0"@
        }),
{
    if let SourceValue::Real { bits, .. } = *value {
        infinities_have_a_full_exponent(bits);
        if bits == 0x8000_0000_0000_0000 {
            assert(bits % 0x8000_0000_0000_0000 == 0);
        }
    }
}

/// A text without an exponent's plus stays, and a plus behind an `e` goes.
pub proof fn pluses_of_exponents_go(a: Seq<char>, b: Seq<char>)
    requires
        forall|i: int| 0 <= i < a.len() ==> #[trigger] a[i] != 'e',
    ensures
        values::without_plus(a) == a,
        values::without_plus(a + seq!['e', '+'] + b) == a + seq!['e'] + values::without_plus(b),
    decreases a.len(),
{
    let marked = seq!['e', '+'];
    if a.len() == 0 {
        assert(a + marked + b =~= marked + b);
        assert((marked + b).skip(2) =~= b);
        assert(a + seq!['e'] + values::without_plus(b) =~= seq!['e'] + values::without_plus(b));
    } else {
        let rest = a.skip(1);
        assert(a[0] != 'e');
        assert forall|i: int| 0 <= i < rest.len() implies #[trigger] rest[i] != 'e' by {
            assert(rest[i] == a[i + 1]);
        }
        pluses_of_exponents_go(rest, b);
        assert(seq![a[0]] + rest =~= a);
        let whole = a + marked + b;
        assert(whole.skip(1) =~= rest + marked + b);
        assert(whole[0] == a[0]);
        assert(values::without_plus(whole) =~= a + seq!['e'] + values::without_plus(b));
    }
}

/// An annotation says the kind of its value and, of all but null, the whole of it: an
/// integer in decimal, a double by its bits, text and blobs in base64.
pub proof fn annotations_say_the_whole_value(
    value: &SourceValue,
    r: Result<Vec<(String, String)>, String>,
)
    requires
        call_ensures(typed_value, (value,), r),
    ensures
        r matches Ok(members) ==> members@.len() == if *value is Null {
            1int
        } else {
            2int
        } && members@[0].0@ == "kind"@,
        r is Ok && !(*value is Null) ==> r->Ok_0@[1].0@ == "value"@,
        *value is Null ==> (r matches Ok(m) && m@[0].1@ == "null"@),
        *value matches SourceValue::Integer(n) ==> (r matches Ok(m) && m@[0].1@ == "integer"@
            && m@[1].1@ == text::signed_decimal(n as int)),
        *value matches SourceValue::Real { bits, .. } ==> (r matches Ok(m) && m@[0].1@
            == "real_bits"@ && m@[1].1@ == values::hex_digits(bits as nat, 16)),
        *value matches SourceValue::Text(bytes) ==> (r is Ok <==> valid_utf8(bytes@)
            && !bytes@.contains(0u8)) && (r matches Ok(m) ==> m@[0].1@ == "text"@ && m@[1].1@
            == outside::url_base64(bytes@)),
        *value matches SourceValue::Blob(bytes) ==> (r matches Ok(m) && m@[0].1@ == "blob"@
            && m@[1].1@ == outside::url_base64(bytes@)),
        *value matches SourceValue::Text(bytes) ==> (r matches Err(message) ==> message@
            == if valid_utf8(bytes@) {
            "TEXT contains NUL"@
        } else {
            "TEXT is not valid UTF-8"@
        }),
{
    if let Ok(members) = r {
        let shown = outside::members_view(members@);
        assert(shown.len() == members@.len());
        assert forall|i: int| 0 <= i < members@.len() implies #[trigger] shown[i] == (
            members@[i].0@,
            members@[i].1@,
        ) by {}
        assert(shown[0] == (members@[0].0@, members@[0].1@));
        if !(*value is Null) {
            assert(shown[1] == (members@[1].0@, members@[1].1@));
        }
    }
}

/// What a manifest says of a file.
pub open spec fn file_members(o: SidecarObservation) -> Seq<(Seq<char>, Seq<char>)> {
    seq![
        (
            "device_inode"@,
            match o.device_inode {
                Some(id) => outside::json_array(
                    seq![text::decimal(id@[0] as nat), text::decimal(id@[1] as nat)],
                ),
                None => "null"@,
            },
        ),
        ("kind"@, outside::json_string(o.kind@)),
        (
            "mtime_ns"@,
            match o.mtime_ns {
                Some(n) => text::decimal(n as nat),
                None => "null"@,
            },
        ),
        ("path"@, outside::json_string(o.path@)),
        (
            "present"@,
            if o.present {
                "true"@
            } else {
                "false"@
            },
        ),
        (
            "sha256_hex"@,
            match o.sha256_hex {
                Some(s) => outside::json_string(s@),
                None => "null"@,
            },
        ),
        (
            "size_bytes"@,
            match o.size_bytes {
                Some(n) => text::decimal(n as nat),
                None => "null"@,
            },
        ),
    ]
}

/// What a manifest says of a source.
pub open spec fn source_members(o: SourceObservation) -> Seq<(Seq<char>, Seq<char>)> {
    seq![
        ("label"@, outside::json_string(o.label@)),
        ("main"@, json::record(file_members(o.main))),
        ("phase"@, outside::json_string(o.phase@)),
        ("rollback_journal"@, json::record(file_members(o.rollback_journal))),
        ("shm"@, json::record(file_members(o.shm))),
        ("wal"@, json::record(file_members(o.wal))),
    ]
}

/// An optional path in a manifest.
pub open spec fn path_member(path: Option<String>) -> Seq<char> {
    match path {
        Some(p) => outside::json_string(p@),
        None => "null"@,
    }
}

/// What a manifest says of the sizes of the files.
pub open spec fn size_members(counts: FileByteCounts) -> Seq<(Seq<char>, Seq<char>)> {
    seq![
        ("base_sql"@, text::decimal(counts.base_sql as nat)),
        ("manifest"@, text::decimal(counts.manifest as nat)),
        ("ours_sql"@, text::decimal(counts.ours_sql as nat)),
        ("resolved_sql"@, text::decimal(counts.resolved_sql as nat)),
        ("theirs_sql"@, text::decimal(counts.theirs_sql as nat)),
    ]
}

/// What a manifest says of the paths of the files.
pub open spec fn path_members(files: Files) -> Seq<(Seq<char>, Seq<char>)> {
    seq![
        ("base_sql"@, path_member(files.base_sql)),
        ("ours_sql"@, path_member(files.ours_sql)),
        ("resolved_sql"@, path_member(files.resolved_sql)),
        ("theirs_sql"@, path_member(files.theirs_sql)),
    ]
}

/// All that a manifest says.
pub open spec fn manifest_members(
    sources: Seq<Seq<char>>,
    observations: Seq<SourceObservation>,
    files: Files,
    counts: FileByteCounts,
) -> Seq<(Seq<char>, Seq<char>)> {
    seq![
        ("canonical_source_paths"@, json::strings_json(sources)),
        ("file_byte_counts"@, json::record(size_members(counts))),
        ("files"@, json::record(path_members(files))),
        ("format_version"@, text::decimal(1)),
        ("labels"@, json::strings_json(seq!["base"@, "ours"@, "theirs"@])),
        (
            "source_observations"@,
            outside::json_array(
                Seq::new(
                    observations.len(),
                    |i: int| json::record(source_members(observations[i])),
                ),
            ),
        ),
        ("workspace_state"@, outside::json_string("Retained"@)),
    ]
}

/// A manifest holds the paths of the sources, the sizes and paths of the files, the
/// labels and all that was seen of the sources, each under its own name.
pub proof fn manifests_hold_every_part(
    sources: &Vec<String>,
    observations: &Vec<SourceObservation>,
    files: &Files,
    counts: &FileByteCounts,
    r: String,
)
    requires
        forall|i: int|
            0 <= i < observations@.len() ==> manifest::times_fit(#[trigger] observations@[i]),
        call_ensures(manifest_text, (sources, observations, files, counts), r),
    ensures
        r@ == json::record(
            manifest_members(text::views(sources@), observations@, *files, *counts),
        ) + "\n"@,
{
    lemma_manifest_members(text::views(sources@), observations@, *files, *counts);
}

#[verifier::spinoff_prover]
#[verifier::rlimit(60)]
proof fn lemma_manifest_members(
    sources: Seq<Seq<char>>,
    observations: Seq<SourceObservation>,
    files: Files,
    counts: FileByteCounts,
)
    ensures
        manifest::manifest_json(sources, observations, files, counts) == json::record(
            manifest_members(sources, observations, files, counts),
        ) + "\n"@,
{
    let shown = observations.map_values(|o: SourceObservation| manifest::observation_json(o));
    let meant = Seq::new(
        observations.len(),
        |i: int| json::record(source_members(observations[i])),
    );
    assert forall|i: int| 0 <= i < observations.len() implies shown[i] == meant[i] by {
        lemma_source_members(observations[i]);
    }
    assert(shown =~= meant);
    assert(path_members(files) =~= seq![
        ("base_sql"@, json::optional_string(files.base_sql)),
        ("ours_sql"@, json::optional_string(files.ours_sql)),
        ("resolved_sql"@, json::optional_string(files.resolved_sql)),
        ("theirs_sql"@, json::optional_string(files.theirs_sql)),
    ]);
    assert(manifest::files_json(files) == json::record(path_members(files)));
    assert(manifest::counts_json(counts) == json::record(size_members(counts)));
    let members = seq![
        ("canonical_source_paths"@, json::strings_json(sources)),
        ("file_byte_counts"@, manifest::counts_json(counts)),
        ("files"@, manifest::files_json(files)),
        ("format_version"@, text::decimal(1)),
        ("labels"@, json::strings_json(seq!["base"@, "ours"@, "theirs"@])),
        ("source_observations"@, manifest::observations_json(observations)),
        ("workspace_state"@, outside::json_string("Retained"@)),
    ];
    assert(members =~= manifest_members(sources, observations, files, counts));
}

#[verifier::spinoff_prover]
#[verifier::rlimit(60)]
proof fn lemma_source_members(o: SourceObservation)
    ensures
        manifest::observation_json(o) == json::record(source_members(o)),
{
    lemma_file_members(o.main);
    lemma_file_members(o.rollback_journal);
    lemma_file_members(o.shm);
    lemma_file_members(o.wal);
    assert(source_members(o) =~= seq![
        ("label"@, outside::json_string(o.label@)),
        ("main"@, manifest::file_json(o.main)),
        ("phase"@, outside::json_string(o.phase@)),
        ("rollback_journal"@, manifest::file_json(o.rollback_journal)),
        ("shm"@, manifest::file_json(o.shm)),
        ("wal"@, manifest::file_json(o.wal)),
    ]);
}

#[verifier::spinoff_prover]
#[verifier::rlimit(60)]
proof fn lemma_file_members(o: SidecarObservation)
    ensures
        manifest::file_json(o) == json::record(file_members(o)),
{
    assert(file_members(o) =~= seq![
        ("device_inode"@, manifest::identity_json(o.device_inode)),
        ("kind"@, outside::json_string(o.kind@)),
        ("mtime_ns"@, manifest::optional_number(manifest::option_u128(o.mtime_ns))),
        ("path"@, outside::json_string(o.path@)),
        ("present"@, json::boolean(o.present)),
        ("sha256_hex"@, json::optional_string(o.sha256_hex)),
        ("size_bytes"@, manifest::optional_number(manifest::option_u64(o.size_bytes))),
    ]);
}

/// Texts stand in an array one behind the other, each as a string.
pub proof fn arrays_hold_every_text(texts: Seq<Seq<char>>, one: Seq<char>)
    requires
        texts.len() > 0,
    ensures
        json::strings_json(seq![one]) == seq!['['] + outside::json_string(one) + seq![']'],
        json::strings_json(texts.push(one)) == json::strings_json(texts).drop_last() + seq![',']
            + outside::json_string(one) + seq![']'],
{
    let f = |s: Seq<char>| outside::json_string(s);
    let item = outside::json_string(one);
    assert(seq![one].map_values(f) =~= seq![item]);
    let parts = texts.map_values(f);
    let more = texts.push(one).map_values(f);
    assert(more =~= parts.push(item));
    assert(more.drop_last() =~= parts);
    assert(text::join(more, seq![',']) == text::join(parts, seq![',']) + seq![','] + item);
    assert(json::strings_json(texts).drop_last() =~= seq!['['] + text::join(parts, seq![',']));
    assert(json::strings_json(texts.push(one)) =~= json::strings_json(texts).drop_last() + seq![',']
        + item + seq![']']);
}

/// The members of an object stand one behind the other, with a comma between them,
/// each as its name, a colon and its value.
pub proof fn objects_hold_every_member(members: Seq<(Seq<char>, Seq<char>)>, one: (Seq<char>, Seq<char>))
    requires
        members.len() > 0,
    ensures
        json::record(seq![one]) == seq!['{'] + (outside::json_string(one.0) + seq![':'] + one.1)
            + seq!['}'],
        json::record(members.push(one)) == json::record(members).drop_last() + seq![','] + (
        outside::json_string(one.0) + seq![':'] + one.1) + seq!['}'],
{
    let f = |m: (Seq<char>, Seq<char>)| outside::json_string(m.0) + seq![':'] + m.1;
    let item = f(one);
    assert(seq![one].map_values(f) =~= seq![item]);
    let parts = members.map_values(f);
    let more = members.push(one).map_values(f);
    assert(more =~= parts.push(item));
    assert(more.drop_last() =~= parts);
    assert(text::join(more, seq![',']) == text::join(parts, seq![',']) + seq![','] + item);
    assert(json::record(members).drop_last() =~= seq!['{'] + text::join(parts, seq![',']));
    assert(json::record(members.push(one)) =~= json::record(members).drop_last() + seq![','] + item
        + seq!['}']);
}

} // verus!
