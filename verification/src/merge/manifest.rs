//! The manifest of a merge workspace: one line of JSON.
use crate::json;
use crate::json::{
    array_text, boolean_text, optional_string_text, record_text, strings_text, Member, Part,
};
use crate::merge::results::{FileByteCounts, Files, SidecarObservation, SourceObservation};
use crate::outside;
use crate::outside::json_string_of;
use crate::text;
use crate::text::decimal_text;
use vstd::prelude::*;
use vstd::utf8::*;

verus! {

/// An optional number in JSON.
pub open spec fn optional_number(o: Option<nat>) -> Seq<char> {
    match o {
        Some(n) => text::decimal(n),
        None => "null"@,
    }
}

/// A device and an inode in JSON.
pub open spec fn identity_json(o: Option<[u64; 2]>) -> Seq<char> {
    match o {
        Some(id) => outside::json_array(
            seq![text::decimal(id@[0] as nat), text::decimal(id@[1] as nat)],
        ),
        None => "null"@,
    }
}

pub open spec fn option_u64(o: Option<u64>) -> Option<nat> {
    match o {
        Some(n) => Some(n as nat),
        None => None,
    }
}

pub open spec fn option_u128(o: Option<u128>) -> Option<nat> {
    match o {
        Some(n) => Some(n as nat),
        None => None,
    }
}

/// The time of a file fits the numbers that JSON text holds here.
pub open spec fn time_fits(o: SidecarObservation) -> bool {
    o.mtime_ns matches Some(n) ==> n <= u64::MAX
}

pub open spec fn times_fit(o: SourceObservation) -> bool {
    time_fits(o.main) && time_fits(o.rollback_journal) && time_fits(o.wal) && time_fits(o.shm)
}

/// What was seen of one file.
pub open spec fn file_json(o: SidecarObservation) -> Seq<char> {
    json::record(
        seq![
            ("device_inode"@, identity_json(o.device_inode)),
            ("kind"@, outside::json_string(o.kind@)),
            ("mtime_ns"@, optional_number(option_u128(o.mtime_ns))),
            ("path"@, outside::json_string(o.path@)),
            ("present"@, json::boolean(o.present)),
            ("sha256_hex"@, json::optional_string(o.sha256_hex)),
            ("size_bytes"@, optional_number(option_u64(o.size_bytes))),
        ],
    )
}

/// What was seen of a source.
pub open spec fn observation_json(o: SourceObservation) -> Seq<char> {
    json::record(
        seq![
            ("label"@, outside::json_string(o.label@)),
            ("main"@, file_json(o.main)),
            ("phase"@, outside::json_string(o.phase@)),
            ("rollback_journal"@, file_json(o.rollback_journal)),
            ("shm"@, file_json(o.shm)),
            ("wal"@, file_json(o.wal)),
        ],
    )
}

pub open spec fn files_json(f: Files) -> Seq<char> {
    json::record(
        seq![
            ("base_sql"@, json::optional_string(f.base_sql)),
            ("ours_sql"@, json::optional_string(f.ours_sql)),
            ("resolved_sql"@, json::optional_string(f.resolved_sql)),
            ("theirs_sql"@, json::optional_string(f.theirs_sql)),
        ],
    )
}

pub open spec fn counts_json(c: FileByteCounts) -> Seq<char> {
    json::record(
        seq![
            ("base_sql"@, text::decimal(c.base_sql as nat)),
            ("manifest"@, text::decimal(c.manifest as nat)),
            ("ours_sql"@, text::decimal(c.ours_sql as nat)),
            ("resolved_sql"@, text::decimal(c.resolved_sql as nat)),
            ("theirs_sql"@, text::decimal(c.theirs_sql as nat)),
        ],
    )
}

/// Observations as a JSON array.
pub open spec fn observations_json(observations: Seq<SourceObservation>) -> Seq<char> {
    outside::json_array(observations.map_values(|o: SourceObservation| observation_json(o)))
}

/// The manifest: an object whose members stand in the order of their names, and a
/// line feed.
pub open spec fn manifest_json(
    sources: Seq<Seq<char>>,
    observations: Seq<SourceObservation>,
    files: Files,
    counts: FileByteCounts,
) -> Seq<char> {
    json::record(
        seq![
            ("canonical_source_paths"@, json::strings_json(sources)),
            ("file_byte_counts"@, counts_json(counts)),
            ("files"@, files_json(files)),
            ("format_version"@, text::decimal(1)),
            ("labels"@, json::strings_json(seq!["base"@, "ours"@, "theirs"@])),
            ("source_observations"@, observations_json(observations)),
            ("workspace_state"@, outside::json_string("Retained"@)),
        ],
    ) + "\n"@
}

fn identity_text(o: &Option<[u64; 2]>) -> (r: String)
    ensures
        r@ == identity_json(*o),
{
    match o {
        Some(id) => {
            let items: Vec<String> = vec![decimal_text(id[0]), decimal_text(id[1])];
            assert(text::views(items@) =~= seq![
                text::decimal(id@[0] as nat),
                text::decimal(id@[1] as nat),
            ]);
            array_text(&items)
        },
        None => "null".to_owned(),
    }
}

fn file_text(o: &SidecarObservation) -> (r: String)
    requires
        time_fits(*o),
    ensures
        r@ == file_json(*o),
{
    let time = match o.mtime_ns {
        Some(n) => decimal_text(n as u64),
        None => "null".to_owned(),
    };
    let size = match o.size_bytes {
        Some(n) => decimal_text(n),
        None => "null".to_owned(),
    };
    let parts: Vec<Part> = vec![
        ("device_inode", identity_text(&o.device_inode)),
        ("kind", json_string_of(o.kind.as_str())),
        ("mtime_ns", time),
        ("path", json_string_of(o.path.as_str())),
        ("present", boolean_text(o.present)),
        ("sha256_hex", optional_string_text(&o.sha256_hex)),
        ("size_bytes", size),
    ];
    let ghost members = seq![
        ("device_inode"@, identity_json(o.device_inode)),
        ("kind"@, outside::json_string(o.kind@)),
        ("mtime_ns"@, optional_number(option_u128(o.mtime_ns))),
        ("path"@, outside::json_string(o.path@)),
        ("present"@, json::boolean(o.present)),
        ("sha256_hex"@, json::optional_string(o.sha256_hex)),
        ("size_bytes"@, optional_number(option_u64(o.size_bytes))),
    ];
    assert(json::members_of(parts@) =~= members);
    record_text(&parts)
}

fn observation_text(o: &SourceObservation) -> (r: String)
    requires
        times_fit(*o),
    ensures
        r@ == observation_json(*o),
{
    let parts: Vec<Part> = vec![
        ("label", json_string_of(o.label.as_str())),
        ("main", file_text(&o.main)),
        ("phase", json_string_of(o.phase.as_str())),
        ("rollback_journal", file_text(&o.rollback_journal)),
        ("shm", file_text(&o.shm)),
        ("wal", file_text(&o.wal)),
    ];
    let ghost members = seq![
        ("label"@, outside::json_string(o.label@)),
        ("main"@, file_json(o.main)),
        ("phase"@, outside::json_string(o.phase@)),
        ("rollback_journal"@, file_json(o.rollback_journal)),
        ("shm"@, file_json(o.shm)),
        ("wal"@, file_json(o.wal)),
    ];
    assert(json::members_of(parts@) =~= members);
    record_text(&parts)
}

fn files_text(f: &Files) -> (r: String)
    ensures
        r@ == files_json(*f),
{
    let parts: Vec<Part> = vec![
        ("base_sql", optional_string_text(&f.base_sql)),
        ("ours_sql", optional_string_text(&f.ours_sql)),
        ("resolved_sql", optional_string_text(&f.resolved_sql)),
        ("theirs_sql", optional_string_text(&f.theirs_sql)),
    ];
    let ghost members = seq![
        ("base_sql"@, json::optional_string(f.base_sql)),
        ("ours_sql"@, json::optional_string(f.ours_sql)),
        ("resolved_sql"@, json::optional_string(f.resolved_sql)),
        ("theirs_sql"@, json::optional_string(f.theirs_sql)),
    ];
    assert(json::members_of(parts@) =~= members);
    record_text(&parts)
}

fn counts_text(c: &FileByteCounts) -> (r: String)
    ensures
        r@ == counts_json(*c),
{
    let parts: Vec<Part> = vec![
        ("base_sql", decimal_text(c.base_sql)),
        ("manifest", decimal_text(c.manifest)),
        ("ours_sql", decimal_text(c.ours_sql)),
        ("resolved_sql", decimal_text(c.resolved_sql)),
        ("theirs_sql", decimal_text(c.theirs_sql)),
    ];
    let ghost members = seq![
        ("base_sql"@, text::decimal(c.base_sql as nat)),
        ("manifest"@, text::decimal(c.manifest as nat)),
        ("ours_sql"@, text::decimal(c.ours_sql as nat)),
        ("resolved_sql"@, text::decimal(c.resolved_sql as nat)),
        ("theirs_sql"@, text::decimal(c.theirs_sql as nat)),
    ];
    assert(json::members_of(parts@) =~= members);
    record_text(&parts)
}

fn observations_text(observations: &Vec<SourceObservation>) -> (r: String)
    requires
        forall|i: int| 0 <= i < observations@.len() ==> times_fit(#[trigger] observations@[i]),
    ensures
        r@ == observations_json(observations@),
{
    let mut items: Vec<String> = Vec::new();
    let mut i: usize = 0;
    while i < observations.len()
        invariant
            forall|i: int| 0 <= i < observations@.len() ==> times_fit(#[trigger] observations@[i]),
            i <= observations@.len(),
            items@.len() == i,
            forall|j: int|
                0 <= j < i ==> (#[trigger] items@[j])@ == observation_json(observations@[j]),
        decreases observations.len() - i,
    {
        items.push(observation_text(&observations[i]));
        i += 1;
    }
    assert(text::views(items@) =~= observations@.map_values(
        |o: SourceObservation| observation_json(o),
    ));
    array_text(&items)
}

/// The manifest of a workspace. `sources` are the canonical paths of the three
/// databases.
pub fn manifest_text(
    sources: &Vec<String>,
    observations: &Vec<SourceObservation>,
    files: &Files,
    counts: &FileByteCounts,
) -> (r: String)
    requires
        forall|i: int| 0 <= i < observations@.len() ==> times_fit(#[trigger] observations@[i]),
    ensures
        r@ == manifest_json(text::views(sources@), observations@, *files, *counts),
{
    let labels: Vec<String> = vec!["base".to_owned(), "ours".to_owned(), "theirs".to_owned()];
    assert(text::views(labels@) =~= seq!["base"@, "ours"@, "theirs"@]);
    let parts: Vec<Part> = vec![
        ("canonical_source_paths", strings_text(sources)),
        ("file_byte_counts", counts_text(counts)),
        ("files", files_text(files)),
        ("format_version", decimal_text(1)),
        ("labels", strings_text(&labels)),
        ("source_observations", observations_text(observations)),
        ("workspace_state", json_string_of("Retained")),
    ];
    let ghost members = seq![
        ("canonical_source_paths"@, json::strings_json(text::views(sources@))),
        ("file_byte_counts"@, counts_json(*counts)),
        ("files"@, files_json(*files)),
        ("format_version"@, text::decimal(1)),
        ("labels"@, json::strings_json(seq!["base"@, "ours"@, "theirs"@])),
        ("source_observations"@, observations_json(observations@)),
        ("workspace_state"@, outside::json_string("Retained"@)),
    ];
    assert(json::members_of(parts@) =~= members);
    let mut out = record_text(&parts);
    out.append("\n");
    out
}

/// The size of a text in bytes.
pub open spec fn byte_len(s: Seq<char>) -> nat {
    encode_utf8(s).len()
}

/// The counts with another size for the manifest.
pub open spec fn counts_saying(counts: FileByteCounts, size: nat) -> FileByteCounts {
    FileByteCounts { manifest: size as u64, ..counts }
}

/// The size in bytes of the manifest that says a given size of itself.
pub open spec fn size_saying(
    sources: Seq<Seq<char>>,
    observations: Seq<SourceObservation>,
    files: Files,
    counts: FileByteCounts,
    size: nat,
) -> nat {
    byte_len(manifest_json(sources, observations, files, counts_saying(counts, size)))
}

/// The size that the manifest says of itself after a number of attempts. It starts
/// with zero, and each attempt measures the manifest that says the size before.
pub open spec fn attempted_size(
    sources: Seq<Seq<char>>,
    observations: Seq<SourceObservation>,
    files: Files,
    counts: FileByteCounts,
    attempts: nat,
) -> nat
    decreases attempts,
{
    if attempts == 0 {
        0
    } else {
        size_saying(
            sources,
            observations,
            files,
            counts,
            attempted_size(sources, observations, files, counts, (attempts - 1) as nat),
        )
    }
}

proof fn lemma_byte_len_add(a: Seq<char>, b: Seq<char>)
    ensures
        byte_len(a + b) == byte_len(a) + byte_len(b),
    decreases a.len(),
{
    if a.len() == 0 {
        assert(a + b =~= b);
    } else {
        assert((a + b).drop_first() =~= a.drop_first() + b);
        lemma_byte_len_add(a.drop_first(), b);
    }
}

proof fn lemma_join_byte_len(parts: Seq<Seq<char>>, sep: Seq<char>, i: int, x: Seq<char>)
    requires
        0 <= i < parts.len(),
    ensures
        byte_len(text::join(parts.update(i, x), sep)) + byte_len(parts[i]) == byte_len(
            text::join(parts, sep),
        ) + byte_len(x),
    decreases parts.len(),
{
    let changed = parts.update(i, x);
    if parts.len() > 1 {
        let last = parts.len() - 1;
        lemma_byte_len_add(text::join(parts.drop_last(), sep) + sep, parts.last());
        lemma_byte_len_add(text::join(parts.drop_last(), sep), sep);
        lemma_byte_len_add(text::join(changed.drop_last(), sep) + sep, changed.last());
        lemma_byte_len_add(text::join(changed.drop_last(), sep), sep);
        if i < last {
            assert(changed.drop_last() =~= parts.drop_last().update(i, x));
            lemma_join_byte_len(parts.drop_last(), sep, i, x);
        } else {
            assert(changed.drop_last() =~= parts.drop_last());
        }
    }
}

spec fn member_json(m: Member) -> Seq<char> {
    outside::json_string(m.0) + seq![':'] + m.1
}

/// Only the size of a changed member counts.
proof fn lemma_record_byte_len(members: Seq<Member>, i: int, x: Seq<char>)
    requires
        0 <= i < members.len(),
    ensures
        byte_len(json::record(members.update(i, (members[i].0, x)))) + byte_len(members[i].1)
            == byte_len(json::record(members)) + byte_len(x),
{
    let changed = members.update(i, (members[i].0, x));
    let f = |m: Member| outside::json_string(m.0) + seq![':'] + m.1;
    let a = members.map_values(f);
    let b = changed.map_values(f);
    let sep = seq![','];
    assert(b =~= a.update(i, member_json(changed[i])));
    lemma_join_byte_len(a, sep, i, member_json(changed[i]));
    lemma_byte_len_add(outside::json_string(members[i].0) + seq![':'], members[i].1);
    lemma_byte_len_add(outside::json_string(members[i].0) + seq![':'], x);
    lemma_byte_len_add(seq!['{'] + text::join(a, sep), seq!['}']);
    lemma_byte_len_add(seq!['{'], text::join(a, sep));
    lemma_byte_len_add(seq!['{'] + text::join(b, sep), seq!['}']);
    lemma_byte_len_add(seq!['{'], text::join(b, sep));
}

proof fn lemma_decimal_byte_len(n: nat)
    ensures
        byte_len(text::decimal(n)) == text::decimal(n).len(),
    decreases n,
{
    let c = text::digit(if n < 10 { n } else { n % 10 });
    let one = seq![c];
    assert(byte_len(one) == 1) by {
        assert(one.drop_first() =~= Seq::<char>::empty());
        assert(is_ascii_chars(one));
        is_ascii_chars_encode_utf8(one);
    }
    if n >= 10 {
        lemma_decimal_byte_len(n / 10);
        lemma_byte_len_add(text::decimal(n / 10), one);
        assert(text::decimal(n) =~= text::decimal(n / 10) + one);
    }
}

proof fn lemma_counts_byte_len(counts: FileByteCounts, size: nat)
    requires
        size <= u64::MAX,
    ensures
        byte_len(counts_json(counts_saying(counts, size))) + text::decimal(counts.manifest as nat).len()
            == byte_len(counts_json(counts)) + text::decimal(size).len(),
{
    let members = seq![
        ("base_sql"@, text::decimal(counts.base_sql as nat)),
        ("manifest"@, text::decimal(counts.manifest as nat)),
        ("ours_sql"@, text::decimal(counts.ours_sql as nat)),
        ("resolved_sql"@, text::decimal(counts.resolved_sql as nat)),
        ("theirs_sql"@, text::decimal(counts.theirs_sql as nat)),
    ];
    let c = counts_saying(counts, size);
    let changed = seq![
        ("base_sql"@, text::decimal(c.base_sql as nat)),
        ("manifest"@, text::decimal(c.manifest as nat)),
        ("ours_sql"@, text::decimal(c.ours_sql as nat)),
        ("resolved_sql"@, text::decimal(c.resolved_sql as nat)),
        ("theirs_sql"@, text::decimal(c.theirs_sql as nat)),
    ];
    assert(changed =~= members.update(1, (members[1].0, text::decimal(size))));
    lemma_record_byte_len(members, 1, text::decimal(size));
    lemma_decimal_byte_len(counts.manifest as nat);
    lemma_decimal_byte_len(size);
}

/// A manifest that says another size of itself differs in size by the digits of
/// that number alone.
pub proof fn manifests_differ_by_digits(
    sources: Seq<Seq<char>>,
    observations: Seq<SourceObservation>,
    files: Files,
    counts: FileByteCounts,
    size: nat,
)
    requires
        size <= u64::MAX,
    ensures
        size_saying(sources, observations, files, counts, size) + 1 == size_saying(
            sources,
            observations,
            files,
            counts,
            0,
        ) + text::decimal(size).len(),
{
    let none = counts_saying(counts, 0);
    let said = counts_saying(counts, size);
    let members = seq![
        ("canonical_source_paths"@, json::strings_json(sources)),
        ("file_byte_counts"@, counts_json(none)),
        ("files"@, files_json(files)),
        ("format_version"@, text::decimal(1)),
        ("labels"@, json::strings_json(seq!["base"@, "ours"@, "theirs"@])),
        ("source_observations"@, observations_json(observations)),
        ("workspace_state"@, outside::json_string("Retained"@)),
    ];
    let changed = seq![
        ("canonical_source_paths"@, json::strings_json(sources)),
        ("file_byte_counts"@, counts_json(said)),
        ("files"@, files_json(files)),
        ("format_version"@, text::decimal(1)),
        ("labels"@, json::strings_json(seq!["base"@, "ours"@, "theirs"@])),
        ("source_observations"@, observations_json(observations)),
        ("workspace_state"@, outside::json_string("Retained"@)),
    ];
    assert(changed =~= members.update(1, (members[1].0, counts_json(said))));
    lemma_record_byte_len(members, 1, counts_json(said));
    assert(counts_saying(none, size) == said);
    lemma_counts_byte_len(none, size);
    assert(text::decimal(0).len() == 1);
    lemma_byte_len_add(json::record(members), "\n"@);
    lemma_byte_len_add(json::record(changed), "\n"@);
}

/// How many digits a number has.
proof fn lemma_digits(n: nat)
    requires
        n < 100_000_000,
    ensures
        text::decimal(n).len() == if n < 10 {
            1int
        } else if n < 100 {
            2
        } else if n < 1000 {
            3
        } else if n < 10_000 {
            4
        } else if n < 100_000 {
            5
        } else if n < 1_000_000 {
            6
        } else if n < 10_000_000 {
            7
        } else {
            8
        },
    decreases n,
{
    if n >= 10 {
        lemma_digits(n / 10);
    }
}

/// The attempts do not depend on what the manifest said of its size before.
pub(crate) proof fn lemma_attempted_size(
    sources: Seq<Seq<char>>,
    observations: Seq<SourceObservation>,
    files: Files,
    counts: FileByteCounts,
    other: FileByteCounts,
    attempts: nat,
)
    requires
        other == (FileByteCounts { manifest: other.manifest, ..counts }),
    ensures
        attempted_size(sources, observations, files, other, attempts) == attempted_size(
            sources,
            observations,
            files,
            counts,
            attempts,
        ),
    decreases attempts,
{
    if attempts > 0 {
        let n = attempted_size(sources, observations, files, counts, (attempts - 1) as nat);
        lemma_attempted_size(sources, observations, files, counts, other, (attempts - 1) as nat);
        assert(counts_saying(counts, n) == counts_saying(other, n));
    }
}

/// A manifest can say its own size: four attempts settle it for every manifest of
/// up to ten million bytes, which is well over what is accepted.
pub proof fn four_attempts_settle(
    sources: Seq<Seq<char>>,
    observations: Seq<SourceObservation>,
    files: Files,
    counts: FileByteCounts,
)
    requires
        size_saying(sources, observations, files, counts, 0) <= 10_000_000,
    ensures
        attempted_size(sources, observations, files, counts, 4) == attempted_size(
            sources,
            observations,
            files,
            counts,
            3,
        ),
{
    reveal_with_fuel(attempted_size, 5);
    let n1 = attempted_size(sources, observations, files, counts, 1);
    let n2 = attempted_size(sources, observations, files, counts, 2);
    let n3 = attempted_size(sources, observations, files, counts, 3);
    assert(n1 == size_saying(sources, observations, files, counts, 0));
    lemma_digits(n1);
    manifests_differ_by_digits(sources, observations, files, counts, n1);
    lemma_digits(n2);
    manifests_differ_by_digits(sources, observations, files, counts, n2);
    lemma_digits(n3);
    manifests_differ_by_digits(sources, observations, files, counts, n3);
}

} // verus!
