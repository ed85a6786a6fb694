//! How database files are opened and created.
use crate::merge::source::is_database_header;
use crate::merge::source;
use crate::server::error::CoreError;
use crate::server::registry::FileIdentity;
use crate::text;
use crate::text::decimal_text;
use vstd::prelude::*;
use vstd::utf8::*;

verus! {

/// Checks the first bytes of a file before it is opened: it must start as a
/// database does, so that a shorter one is none. `header` is what reading its first
/// sixteen bytes gave.
pub fn check_header(length: u64, header: Result<Vec<u8>, String>) -> (r: Result<(), CoreError>)
    ensures
        if length < 16 {
            r matches Err(e) && e is InvalidDatabase
        } else {
            match header {
                Err(m) => r == Err::<(), CoreError>(CoreError::Io(m)),
                Ok(bytes) => if bytes@ == source::database_header() {
                    r is Ok
                } else {
                    r matches Err(e) && e is InvalidDatabase
                },
            }
        },
{
    if length < 16 {
        return Err(CoreError::InvalidDatabase);
    }
    match header {
        Err(m) => Err(CoreError::Io(m)),
        Ok(bytes) => if is_database_header(bytes.as_slice()) {
            Ok(())
        } else {
            Err(CoreError::InvalidDatabase)
        },
    }
}

/// Checks that a connection has the access that was asked for. `db_readonly` is
/// what SQLite says of it; it says nothing where the database is writable.
pub fn check_access(readonly: bool, db_readonly: Option<i64>) -> (r: Result<(), CoreError>)
    ensures
        match r {
            Ok(()) => readonly || db_readonly is None || db_readonly == Some(0i64),
            Err(e) => e is InvalidDatabase && !readonly && (db_readonly matches Some(v) && v != 0),
        },
{
    let denied = match db_readonly {
        Some(v) => v != 0,
        None => false,
    };
    if !readonly && denied {
        Err(CoreError::InvalidDatabase)
    } else {
        Ok(())
    }
}

/// An identity as text.
pub open spec fn identity_text(i: FileIdentity) -> Seq<char> {
    "dev="@ + text::decimal(i.device as nat) + ", ino="@ + text::decimal(i.inode as nat)
}

fn append_identity(s: &mut String, i: FileIdentity)
    ensures
        final(s)@ == old(s)@ + identity_text(i),
{
    s.append("dev=");
    s.append(decimal_text(i.device).as_str());
    s.append(", ino=");
    s.append(decimal_text(i.inode).as_str());
    assert(s@ =~= old(s)@ + identity_text(i));
}

/// The report that a new file is no longer the one that was created.
pub open spec fn identity_report(
    target: Seq<char>,
    retained: FileIdentity,
    found: Result<FileIdentity, String>,
) -> Seq<char> {
    "created database identity changed at "@ + target + ": retained original "@ + identity_text(
        retained,
    ) + "; "@ + match found {
        Ok(i) => "target identity is "@ + identity_text(i),
        Err(m) => "target identity unavailable ("@ + m@ + ")"@,
    }
}

fn creation_identity_error(
    target: &str,
    retained: FileIdentity,
    found: Result<FileIdentity, String>,
) -> (r: CoreError)
    ensures
        r matches CoreError::Io(m) && m@ == identity_report(target@, retained, found),
{
    let mut s = "created database identity changed at ".to_owned();
    s.append(target);
    s.append(": retained original ");
    append_identity(&mut s, retained);
    s.append("; ");
    let ghost head = s@;
    match &found {
        Ok(i) => {
            s.append("target identity is ");
            append_identity(&mut s, *i);
            assert(s@ =~= head + ("target identity is "@ + identity_text(*i)));
        },
        Err(m) => {
            s.append("target identity unavailable (");
            s.append(m.as_str());
            s.append(")");
            assert(s@ =~= head + ("target identity unavailable ("@ + m@ + ")"@));
        },
    }
    CoreError::Io(s)
}

/// Checks that a new file is still the one that was created: the descriptor and
/// the path both lead to it.
pub fn check_creation_identity(
    target: &str,
    retained: FileIdentity,
    descriptor: Result<FileIdentity, String>,
    found: Result<FileIdentity, String>,
) -> (r: Result<(), CoreError>)
    ensures
        match r {
            Ok(()) => descriptor == Ok::<FileIdentity, String>(retained) && found == Ok::<
                FileIdentity,
                String,
            >(retained),
            Err(e) => (descriptor != Ok::<FileIdentity, String>(retained) || found != Ok::<
                FileIdentity,
                String,
            >(retained)) && (e matches CoreError::Io(m) && m@ == identity_report(
                target@,
                retained,
                found,
            )),
        },
{
    let same_descriptor = match &descriptor {
        Ok(i) => *i == retained,
        Err(_) => false,
    };
    let same_target = match &found {
        Ok(i) => *i == retained,
        Err(_) => false,
    };
    if !same_descriptor || !same_target {
        return Err(creation_identity_error(target, retained, found));
    }
    Ok(())
}

/// A file is opened exactly where it is long enough and its first bytes could be read
/// and are those of a database, and only with the access that was asked for.
pub proof fn only_databases_are_opened(
    length: u64,
    header: Result<Vec<u8>, String>,
    r: Result<(), CoreError>,
    readonly: bool,
    db_readonly: Option<i64>,
    access: Result<(), CoreError>,
)
    requires
        call_ensures(check_header, (length, header), r),
        call_ensures(check_access, (readonly, db_readonly), access),
    ensures
        r is Ok <==> length >= 16 && (header matches Ok(bytes) && bytes@ == encode_utf8(
            "SQLite format 3\0"@,
        )),
        length >= 16 ==> (header matches Err(m) ==> r == Err::<(), CoreError>(CoreError::Io(m))),
        r is Err && !(length >= 16 && header is Err) ==> r->Err_0 is InvalidDatabase,
        access is Ok <==> readonly || (db_readonly matches Some(v) ==> v == 0),
        access matches Err(e) ==> e is InvalidDatabase,
{
}

/// A new file is taken exactly where the descriptor and the path both still lead to
/// the file that was created.
pub proof fn created_files_are_kept_track_of(
    target: &str,
    retained: FileIdentity,
    descriptor: Result<FileIdentity, String>,
    found: Result<FileIdentity, String>,
    r: Result<(), CoreError>,
)
    requires
        call_ensures(check_creation_identity, (target, retained, descriptor, found), r),
    ensures
        r is Ok <==> (descriptor matches Ok(d) && d.device == retained.device && d.inode
            == retained.inode) && (found matches Ok(f) && f.device == retained.device && f.inode
            == retained.inode),
        r matches Err(e) ==> e is Io,
{
}

} // verus!
