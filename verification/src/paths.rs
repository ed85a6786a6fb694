//! Paths of database files.
use crate::merge::values::contains_char;
use crate::text;
use crate::text::{chars_of, join_texts, string_of};
use vstd::prelude::*;

verus! {

/// Why a path is refused.
#[derive(Debug, Clone)]
pub enum PathError {
    Relative,
    Nul,
    Uri,
    NotFile,
    Missing,
    /// The file system refused it.
    Io(String),
}

impl PathError {
    pub open spec fn text(self) -> Seq<char> {
        match self {
            PathError::Relative => "path must be absolute"@,
            PathError::Nul => "path contains NUL"@,
            PathError::Uri => "URI paths are not supported"@,
            PathError::NotFile => "path is not a regular file"@,
            PathError::Missing => "path does not exist"@,
            PathError::Io(m) => "path error: "@ + m@,
        }
    }

    pub fn message(&self) -> (r: String)
        ensures
            r@ == self.text(),
    {
        match self {
            PathError::Relative => "path must be absolute".to_owned(),
            PathError::Nul => "path contains NUL".to_owned(),
            PathError::Uri => "URI paths are not supported".to_owned(),
            PathError::NotFile => "path is not a regular file".to_owned(),
            PathError::Missing => "path does not exist".to_owned(),
            PathError::Io(m) => {
                let mut s = "path error: ".to_owned();
                s.append(m.as_str());
                s
            },
        }
    }
}

pub open spec fn has_uri_scheme(path: Seq<char>) -> bool {
    path.len() >= 5 && path.take(5) == seq!['f', 'i', 'l', 'e', ':']
}

/// What is wrong with a path as it is written.
pub open spec fn literal_fault(path: Seq<char>) -> Option<PathError> {
    if path.contains('\0') {
        Some(PathError::Nul)
    } else if has_uri_scheme(path) {
        Some(PathError::Uri)
    } else if path.len() == 0 || path[0] != '/' {
        Some(PathError::Relative)
    } else {
        None
    }
}

/// Checks that a path is a literal absolute path.
pub fn validate_literal(path: &str) -> (r: Result<(), PathError>)
    ensures
        match r {
            Ok(()) => literal_fault(path@) is None,
            Err(e) => literal_fault(path@) == Some(e),
        },
{
    if contains_char(path, '\0') {
        return Err(PathError::Nul);
    }
    let cs = chars_of(path);
    if cs.len() >= 5 && cs[0] == 'f' && cs[1] == 'i' && cs[2] == 'l' && cs[3] == 'e' && cs[4]
        == ':' {
        assert(path@.take(5) =~= seq!['f', 'i', 'l', 'e', ':']);
        return Err(PathError::Uri);
    }
    assert(has_uri_scheme(path@) ==> path@[0] == path@.take(5)[0] && path@[1] == path@.take(5)[1]
        && path@[2] == path@.take(5)[2] && path@[3] == path@.take(5)[3] && path@[4] == path@.take(
        5,
    )[4]);
    if cs.len() == 0 || cs[0] != '/' {
        return Err(PathError::Relative);
    }
    Ok(())
}

/// What the file system knows of a path.
#[derive(Debug, Clone)]
pub enum Lookup {
    Missing,
    Failed(String),
    /// The canonical path, and whether a regular file is there.
    Found { canonical: String, regular: bool },
}

/// The canonical path of an existing file.
pub fn existing(path: &str, found: Lookup) -> (r: Result<String, PathError>)
    ensures
        match literal_fault(path@) {
            Some(e) => r == Err::<String, PathError>(e),
            None => match found {
                Lookup::Missing => r == Err::<String, PathError>(PathError::Missing),
                Lookup::Failed(m) => r == Err::<String, PathError>(PathError::Io(m)),
                Lookup::Found { canonical, regular } => if regular {
                    r == Ok::<String, PathError>(canonical)
                } else {
                    r == Err::<String, PathError>(PathError::NotFile)
                },
            },
        },
{
    if let Err(e) = validate_literal(path) {
        return Err(e);
    }
    match found {
        Lookup::Missing => Err(PathError::Missing),
        Lookup::Failed(m) => Err(PathError::Io(m)),
        Lookup::Found { canonical, regular } => if regular {
            Ok(canonical)
        } else {
            Err(PathError::NotFile)
        },
    }
}

/// The number of characters before the first slash.
pub open spec fn segment_len(s: Seq<char>) -> nat
    decreases s.len(),
{
    if s.len() == 0 || s[0] == '/' {
        0
    } else {
        1 + segment_len(s.skip(1))
    }
}

proof fn lemma_segment_len(s: Seq<char>)
    ensures
        segment_len(s) <= s.len(),
    decreases s.len(),
{
    if s.len() > 0 && s[0] != '/' {
        lemma_segment_len(s.skip(1));
    }
}

/// A segment that names something: neither empty nor a single dot.
pub open spec fn is_component(segment: Seq<char>) -> bool {
    segment.len() > 0 && segment != seq!['.']
}

/// The segments of a path that name something.
pub open spec fn components(s: Seq<char>) -> Seq<Seq<char>>
    decreases s.len(),
    via components_decreases
{
    if s.len() == 0 {
        Seq::empty()
    } else {
        let n = segment_len(s);
        let segment = s.take(n as int);
        let rest = if n < s.len() {
            components(s.skip((n + 1) as int))
        } else {
            Seq::empty()
        };
        if is_component(segment) {
            seq![segment] + rest
        } else {
            rest
        }
    }
}

#[via_fn]
proof fn components_decreases(s: Seq<char>) {
    lemma_segment_len(s);
}

fn segment_end(cs: &Vec<char>, from: usize) -> (r: usize)
    requires
        from <= cs@.len(),
    ensures
        from <= r <= cs@.len(),
        r == from + segment_len(cs@.skip(from as int)),
        r < cs@.len() ==> cs@[r as int] == '/',
{
    let mut p: usize = from;
    while p < cs.len() && cs[p] != '/'
        invariant
            from <= p <= cs@.len(),
            p - from + segment_len(cs@.skip(p as int)) == segment_len(cs@.skip(from as int)),
        decreases cs.len() - p,
    {
        assert(cs@.skip(p as int).skip(1) =~= cs@.skip(p + 1));
        p += 1;
    }
    p
}

fn components_of(path: &str) -> (r: Vec<String>)
    ensures
        text::views(r@) == components(path@),
{
    let cs = chars_of(path);
    let mut out: Vec<String> = Vec::new();
    let mut p: usize = 0;
    assert(cs@.skip(0) =~= cs@);
    assert(text::views(out@) + components(cs@) =~= components(cs@));
    while p < cs.len()
        invariant
            cs@ == path@,
            p <= cs@.len(),
            text::views(out@) + components(cs@.skip(p as int)) == components(path@),
        decreases cs.len() - p,
    {
        let end: usize = segment_end(&cs, p);
        let ghost tail = cs@.skip(p as int);
        let ghost n = segment_len(tail);
        assert(tail.take(n as int) =~= cs@.subrange(p as int, end as int));
        let ghost before = text::views(out@);
        let ghost rest = if n < tail.len() {
            components(tail.skip((n + 1) as int))
        } else {
            Seq::empty()
        };
        if end > p && !(end - p == 1 && cs[p] == '.') {
            let segment = string_of(&cs, p, end);
            assert(is_component(segment@)) by {
                if segment@ == seq!['.'] {
                    assert(segment@[0] == cs@[p as int]);
                }
            }
            let ghost old_out = out@;
            out.push(segment);
            assert(text::views(out@) =~= text::views(old_out).push(segment@));
            assert(text::views(out@) + rest =~= before + (seq![segment@] + rest));
        } else {
            assert(!is_component(tail.take(n as int))) by {
                if end > p {
                    assert(tail.take(n as int) =~= seq!['.']);
                }
            }
            assert(text::views(out@) + rest == before + components(tail));
        }
        if end < cs.len() {
            assert(cs@.skip(end + 1) =~= tail.skip((n + 1) as int));
            p = end + 1;
        } else {
            assert(components(cs@.skip(end as int)) =~= Seq::empty());
            p = end;
        }
    }
    assert(components(cs@.skip(p as int)) =~= Seq::empty());
    assert(text::views(out@) + Seq::empty() =~= text::views(out@));
    out
}

/// The directory of a path, written without dots and doubled slashes.
pub open spec fn parent_text(path: Seq<char>) -> Seq<char> {
    seq!['/'] + text::join(components(path).drop_last(), seq!['/'])
}

/// The directory that a new file at `path` would stand in; none where the path
/// names nothing.
pub fn target_parent(path: &str) -> (r: Result<String, PathError>)
    ensures
        match r {
            Ok(parent) => literal_fault(path@) is None && components(path@).len() > 0 && parent@
                == parent_text(path@),
            Err(e) => match literal_fault(path@) {
                Some(fault) => e == fault,
                None => components(path@).len() == 0 && e is Missing,
            },
        },
{
    if let Err(e) = validate_literal(path) {
        return Err(e);
    }
    let mut parts = components_of(path);
    let ghost all = parts@;
    if parts.len() == 0 {
        return Err(PathError::Missing);
    }
    let _last = parts.pop();
    assert(text::views(parts@) =~= text::views(all).drop_last());
    let joined = join_texts(&parts, "/");
    let mut out = "/".to_owned();
    out.append(joined.as_str());
    proof {
        reveal_strlit("/");
        assert("/"@ =~= seq!['/']);
    }
    Ok(out)
}

/// A path below a canonical directory.
pub open spec fn joined_path(parent: Seq<char>, name: Seq<char>) -> Seq<char> {
    if parent.len() > 0 && parent.last() == '/' {
        parent + name
    } else {
        parent + seq!['/'] + name
    }
}

/// The path of a file to be created, and its canonical directory. `parent` is
/// what the file system says of [`target_parent`].
pub fn create_target(path: &str, parent: Result<String, String>) -> (r: Result<
    (String, String),
    PathError,
>)
    ensures
        match r {
            Ok((target, directory)) => {
                let parts = components(path@);
                &&& literal_fault(path@) is None
                &&& parts.len() > 0
                &&& parts.last() != seq!['.', '.']
                &&& parent == Ok::<String, String>(directory)
                &&& target@ == joined_path(directory@, parts.last())
            },
            Err(e) => {
                let parts = components(path@);
                match literal_fault(path@) {
                    Some(fault) => e == fault,
                    None => if parts.len() == 0 {
                        e is Missing
                    } else {
                        match parent {
                            Err(m) => e == PathError::Io(m),
                            Ok(_) => parts.last() == seq!['.', '.'] && e is Missing,
                        }
                    },
                }
            },
        },
{
    if let Err(e) = validate_literal(path) {
        return Err(e);
    }
    let parts = components_of(path);
    if parts.len() == 0 {
        return Err(PathError::Missing);
    }
    let directory = match parent {
        Ok(d) => d,
        Err(m) => {
            return Err(PathError::Io(m));
        },
    };
    let name = chars_of(parts[parts.len() - 1].as_str());
    assert(components(path@).last() == name@) by {
        assert(text::views(parts@)[parts@.len() - 1] == parts@[parts@.len() - 1]@);
    }
    if name.len() == 2 && name[0] == '.' && name[1] == '.' {
        assert(name@ =~= seq!['.', '.']);
        return Err(PathError::Missing);
    }
    assert(name@ == seq!['.', '.'] ==> name@[0] == '.' && name@[1] == '.');
    let dir = chars_of(directory.as_str());
    let mut target = directory.as_str().to_owned();
    if dir.len() == 0 || dir[dir.len() - 1] != '/' {
        target.push('/');
    }
    let named = string_of(&name, 0, name.len());
    assert(named@ =~= name@);
    target.append(named.as_str());
    assert(target@ =~= joined_path(directory@, name@));
    Ok((target, directory))
}

/// A path is taken exactly where it holds no NUL and starts at the root, and what is
/// there decides the rest.
pub proof fn existing_files_are_absolute(
    path: &str,
    literal: Result<(), PathError>,
    found: Lookup,
    r: Result<String, PathError>,
)
    requires
        call_ensures(validate_literal, (path,), literal),
        call_ensures(existing, (path, found), r),
    ensures
        literal is Ok <==> !path@.contains('\0') && path@.len() > 0 && path@[0] == '/',
        path@.contains('\0') ==> (literal matches Err(e) && e is Nul),
        literal matches Err(e) ==> e is Nul || e is Uri || e is Relative,
        r is Ok <==> literal is Ok && (found matches Lookup::Found { regular, .. } && regular),
        r matches Ok(p) ==> (found matches Lookup::Found { canonical, .. } && p == canonical),
        literal is Ok && found is Missing ==> (r matches Err(e) && e is Missing),
        literal is Ok && (found matches Lookup::Found { regular, .. } && !regular) ==> (
        r matches Err(e) && e is NotFile),
        literal matches Err(e) ==> r == Err::<String, PathError>(e),
{
    if has_uri_scheme(path@) {
        assert(path@.take(5)[0] == 'f');
        assert(path@[0] == 'f');
    }
}

/// A part of a path that names something: it holds no slash, is not empty and no
/// single dot.
pub open spec fn names_something(part: Seq<char>) -> bool {
    part.len() > 0 && part != seq!['.'] && !part.contains('/')
}

/// The parts of a path are those between its slashes that name something, in order.
pub proof fn parts_stand_between_slashes(part: Seq<char>, rest: Seq<char>)
    requires
        !part.contains('/'),
    ensures
        names_something(part) ==> components(part) == seq![part],
        names_something(part) ==> components(part + seq!['/'] + rest) == seq![part] + components(
            rest,
        ),
        !names_something(part) ==> components(part) == Seq::<Seq<char>>::empty(),
        !names_something(part) ==> components(part + seq!['/'] + rest) == components(rest),
{
    lemma_segment(part, Seq::empty());
    lemma_segment(part, seq!['/'] + rest);
    assert(part + Seq::<char>::empty() =~= part);
    let whole = part + (seq!['/'] + rest);
    assert(part + seq!['/'] + rest =~= whole);
    let n = part.len() as int;
    assert(whole.take(n) =~= part);
    assert(whole.skip(n + 1) =~= rest);
    if part.len() > 0 {
        assert(part.take(n) =~= part);
        assert(components(part) =~= if names_something(part) {
            seq![part]
        } else {
            Seq::empty()
        });
    }
    if names_something(part) {
        assert(components(whole) =~= seq![part] + components(rest));
    } else {
        assert(components(whole) =~= components(rest));
    }
}

proof fn lemma_segment(part: Seq<char>, tail: Seq<char>)
    requires
        !part.contains('/'),
        tail.len() == 0 || tail[0] == '/',
    ensures
        segment_len(part + tail) == part.len(),
    decreases part.len(),
{
    if part.len() == 0 {
        assert(part + tail =~= tail);
    } else {
        let rest = part.skip(1);
        assert(part[0] != '/') by {
            assert(part.contains(part[0]));
        }
        assert(!rest.contains('/')) by {
            if rest.contains('/') {
                let k = choose|k: int| 0 <= k < rest.len() && rest[k] == '/';
                assert(part[k + 1] == '/');
            }
        }
        lemma_segment(rest, tail);
        assert((part + tail).skip(1) =~= rest + tail);
        assert((part + tail)[0] == part[0]);
    }
}

/// A new file stands in the directory that its path names, under the last part of the
/// path, and that part is a name.
pub proof fn new_files_stand_in_their_directory(
    path: &str,
    named: Result<String, PathError>,
    parent: Result<String, String>,
    r: Result<(String, String), PathError>,
)
    requires
        call_ensures(target_parent, (path,), named),
        call_ensures(create_target, (path, parent), r),
    ensures
        named matches Ok(d) ==> components(path@).len() > 0 && d@ == seq!['/'] + text::join(
            components(path@).drop_last(),
            seq!['/'],
        ),
        r is Ok ==> named is Ok,
        r matches Ok(v) ==> {
            let name = components(path@).last();
            &&& parent == Ok::<String, String>(v.1)
            &&& name != seq!['.', '.']
            &&& v.1@.len() > 0 && v.1@.last() == '/' ==> v.0@ == v.1@ + name
            &&& v.1@.len() == 0 || v.1@.last() != '/' ==> v.0@ == v.1@ + seq!['/'] + name
        },
        named is Ok ==> (parent matches Err(m) ==> r == Err::<(String, String), PathError>(
            PathError::Io(m),
        )),
        named is Ok && parent is Ok && components(path@).last() != seq!['.', '.'] ==> r is Ok,
{
}

/// Every reason to refuse a path has its own text.
pub proof fn path_errors_say_what_is_wrong(error: PathError, r: String)
    requires
        call_ensures(PathError::message, (&error,), r),
    ensures
        error is Relative ==> r@ == "path must be absolute"@,
        error is Nul ==> r@ == "path contains NUL"@,
        error is Uri ==> r@ == "URI paths are not supported"@,
        error is NotFile ==> r@ == "path is not a regular file"@,
        error is Missing ==> r@ == "path does not exist"@,
        error matches PathError::Io(m) ==> r@ == "path error: "@ + m@,
{
}

} // verus!
