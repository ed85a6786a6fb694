//! Paths and files.
use sqlite_mcp_core::paths::{
    create_target, existing, target_parent, validate_literal, Lookup, PathError,
};
use sqlite_mcp_core::server::files::{check_access, check_creation_identity, check_header};
use sqlite_mcp_core::server::registry::FileIdentity;
use sqlite_mcp_core::CoreError;

#[test]
fn paths_are_literal_and_absolute() {
    assert!(validate_literal("/data/app.sqlite").is_ok());
    assert!(validate_literal("/").is_ok());
    for (path, message) in [
        ("", "path must be absolute"),
        ("app.sqlite", "path must be absolute"),
        ("~/app.sqlite", "path must be absolute"),
        ("file:///data/app.sqlite", "URI paths are not supported"),
        ("file:", "URI paths are not supported"),
        ("/data/\0", "path contains NUL"),
        ("file:\0", "path contains NUL"),
    ] {
        assert_eq!(validate_literal(path).unwrap_err().message(), message, "{path:?}");
    }
}

#[test]
fn existing_files_are_resolved() {
    let found = Lookup::Found { canonical: "/real/a".into(), regular: true };
    assert_eq!(existing("/a", found).unwrap(), "/real/a");
    let dir = Lookup::Found { canonical: "/real".into(), regular: false };
    assert!(matches!(existing("/a", dir), Err(PathError::NotFile)));
    assert_eq!(existing("/a", Lookup::Missing).unwrap_err().message(), "path does not exist");
    assert_eq!(
        existing("/a", Lookup::Failed("denied".into())).unwrap_err().message(),
        "path error: denied"
    );
    assert!(matches!(existing("a", Lookup::Missing), Err(PathError::Relative)));
}

#[test]
fn targets_stand_in_their_canonical_directory() {
    for (path, parent, target) in [
        ("/a/b", "/a", "/real/b"),
        ("/a//b/", "/a", "/real/b"),
        ("/a/./b/.", "/a", "/real/b"),
        ("/a/../b", "/a/..", "/real/b"),
        ("/b", "/", "/real/b"),
    ] {
        assert_eq!(target_parent(path).unwrap(), parent, "{path:?}");
        let (t, d) = create_target(path, Ok("/real".into())).unwrap();
        assert_eq!((t.as_str(), d.as_str()), (target, "/real"), "{path:?}");
        let expected = std::path::Path::new(path);
        assert_eq!(expected.file_name().unwrap().to_str().unwrap(), "b");
    }
    let (t, _) = create_target("/b", Ok("/".into())).unwrap();
    assert_eq!(t, "/b");
}

#[test]
fn targets_without_a_name_are_missing() {
    assert!(matches!(create_target("/", Ok("/".into())), Err(PathError::Missing)));
    assert!(matches!(target_parent("/./"), Err(PathError::Missing)));
    assert!(matches!(create_target("/a/..", Ok("/a".into())), Err(PathError::Missing)));
    assert_eq!(
        create_target("/a/b", Err("gone".into())).unwrap_err().message(),
        "path error: gone"
    );
    assert!(matches!(create_target("b", Ok("/".into())), Err(PathError::Relative)));
    assert!(matches!(target_parent("b"), Err(PathError::Relative)));
}

#[test]
fn only_initialized_databases_are_opened() {
    let header = b"SQLite format 3\0".to_vec();
    assert!(check_header(4096, Ok(header.clone())).is_ok());
    assert!(matches!(check_header(0, Ok(header)), Err(CoreError::InvalidDatabase)));
    assert!(matches!(
        check_header(16, Ok(b"SQLite format 4\0".to_vec())),
        Err(CoreError::InvalidDatabase)
    ));
    assert!(matches!(
        check_header(10, Err("failed to fill whole buffer".into())),
        Err(CoreError::InvalidDatabase)
    ));
    assert!(matches!(check_header(15, Err("short".into())), Err(CoreError::InvalidDatabase)));
    assert_eq!(check_header(16, Err("gone".into())).unwrap_err().message(), "I/O: gone");
}

#[test]
fn access_is_never_downgraded() {
    assert!(check_access(false, None).is_ok());
    assert!(check_access(false, Some(0)).is_ok());
    assert!(check_access(true, Some(1)).is_ok());
    assert!(matches!(check_access(false, Some(1)), Err(CoreError::InvalidDatabase)));
}

#[test]
fn a_created_file_keeps_its_identity() {
    let ours = FileIdentity { device: 1, inode: 2 };
    let other = FileIdentity { device: 1, inode: 3 };
    assert!(check_creation_identity("/t", ours, Ok(ours), Ok(ours)).is_ok());
    assert_eq!(
        check_creation_identity("/t", ours, Ok(ours), Ok(other)).unwrap_err().message(),
        "I/O: created database identity changed at /t: retained original dev=1, ino=2; \
         target identity is dev=1, ino=3"
    );
    assert_eq!(
        check_creation_identity("/t", ours, Ok(ours), Err("gone".into())).unwrap_err().message(),
        "I/O: created database identity changed at /t: retained original dev=1, ino=2; \
         target identity unavailable (gone)"
    );
    assert!(check_creation_identity("/t", ours, Err("bad".into()), Ok(ours)).is_err());
}
