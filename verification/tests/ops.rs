use capfs::open_options::{DirBuilder, OpenOptions, OpenOptionsExt};
use capfs::FsErrorKind;
use capfs::FsState;

#[test]
fn write_read_round_trip() {
    let mut fs = FsState::new();
    let root = fs.root();
    root.write(&mut fs, "file", b"hello world").unwrap();
    assert_eq!(root.read(&fs, "file").unwrap(), b"hello world");
    assert_eq!(root.read_to_string(&fs, "file").unwrap(), "hello world");
    assert_eq!(root.metadata(&fs, "file").unwrap().len(), 11);
    // Writing again replaces the contents whole.
    root.write(&mut fs, "file", b"x").unwrap();
    assert_eq!(root.read(&fs, "file").unwrap(), b"x");
}

#[test]
fn read_to_string_rejects_bad_utf8() {
    let mut fs = FsState::new();
    let root = fs.root();
    root.write(&mut fs, "file", &[0xffu8, 0xfe, 0x41]).unwrap();
    let e = root.read_to_string(&fs, "file").unwrap_err();
    assert_eq!(e.kind(), FsErrorKind::InvalidUtf8);
    assert_eq!(root.read(&fs, "file").unwrap(), vec![0xffu8, 0xfe, 0x41]);
}

#[test]
fn absolute_paths_are_rejected_everywhere() {
    let mut fs = FsState::new();
    let root = fs.root();
    root.create_dir(&mut fs, "dir").unwrap();
    assert_eq!(root.open_dir(&fs, "/dir").unwrap_err().kind(), FsErrorKind::EscapesRoot);
    assert_eq!(root.metadata(&fs, "/").unwrap_err().kind(), FsErrorKind::EscapesRoot);
    assert_eq!(root.create_dir(&mut fs, "/x").unwrap_err().kind(), FsErrorKind::EscapesRoot);
    assert_eq!(root.write(&mut fs, "/x", b"a").unwrap_err().kind(), FsErrorKind::EscapesRoot);
    assert_eq!(root.remove_file(&mut fs, "/dir").unwrap_err().kind(), FsErrorKind::EscapesRoot);
    assert_eq!(
        root.rename(&mut fs, "/a", &root, "b").unwrap_err().kind(),
        FsErrorKind::EscapesRoot
    );
    assert!(!root.exists_at(&fs, "/dir"));
}

#[test]
fn dotdot_past_root_is_rejected() {
    let mut fs = FsState::new();
    let root = fs.root();
    root.create_dir(&mut fs, "dir").unwrap();
    assert_eq!(root.open_dir(&fs, "../x").unwrap_err().kind(), FsErrorKind::EscapesRoot);
    assert_eq!(root.open_dir(&fs, "..").unwrap_err().kind(), FsErrorKind::EscapesRoot);
    assert_eq!(root.metadata(&fs, "./../dir").unwrap_err().kind(), FsErrorKind::EscapesRoot);
    // From a subdirectory, one `..` is fine; two escape.
    let d = root.open_dir(&fs, "dir").unwrap();
    assert_eq!(d.open_dir(&fs, "..").unwrap_err().kind(), FsErrorKind::EscapesRoot);
    assert!(root.open_dir(&fs, "dir/..").is_ok());
    assert_eq!(root.open_dir(&fs, "dir/../..").unwrap_err().kind(), FsErrorKind::EscapesRoot);
}

#[test]
fn nul_bytes_are_invalid_input() {
    let mut fs = FsState::new();
    let root = fs.root();
    assert_eq!(root.metadata(&fs, "a\0b").unwrap_err().kind(), FsErrorKind::InvalidInput);
    assert_eq!(root.create_dir(&mut fs, "a\0").unwrap_err().kind(), FsErrorKind::InvalidInput);
    assert_eq!(root.symlink(&mut fs, "a\0", "l").unwrap_err().kind(), FsErrorKind::InvalidInput);
}

#[test]
fn create_dir_and_errors() {
    let mut fs = FsState::new();
    let root = fs.root();
    root.create_dir(&mut fs, "dir").unwrap();
    assert!(root.is_dir(&fs, "dir"));
    assert_eq!(root.create_dir(&mut fs, "dir").unwrap_err().kind(), FsErrorKind::AlreadyExists);
    assert_eq!(root.create_dir(&mut fs, "a/b").unwrap_err().kind(), FsErrorKind::NotFound);
    root.write(&mut fs, "file", b"x").unwrap();
    assert_eq!(
        root.create_dir(&mut fs, "file/sub").unwrap_err().kind(),
        FsErrorKind::NotADirectory
    );
}

#[test]
fn create_dir_all_builds_the_chain() {
    let mut fs = FsState::new();
    let root = fs.root();
    root.create_dir_all(&mut fs, "a/b/c").unwrap();
    assert!(root.is_dir(&fs, "a/b/c"));
    // Doing it again is a no-op.
    root.create_dir_all(&mut fs, "a/b/c").unwrap();
    // An existing file in the way is an error, and what was created
    // before the failure stays.
    root.write(&mut fs, "a/b/f", b"x").unwrap();
    assert_eq!(
        root.create_dir_all(&mut fs, "a/b/f/d").unwrap_err().kind(),
        FsErrorKind::NotADirectory
    );
    assert_eq!(root.create_dir_all(&mut fs, "a/b/f").unwrap_err().kind(), FsErrorKind::AlreadyExists);
    // `..` inside the chain walks back up through what was just made.
    root.create_dir_all(&mut fs, "p/../q/r").unwrap();
    assert!(root.is_dir(&fs, "p"));
    assert!(root.is_dir(&fs, "q/r"));
}

#[test]
fn create_dir_with_uses_the_builder() {
    let mut fs = FsState::new();
    let root = fs.root();
    let one = DirBuilder::new();
    root.create_dir_with(&mut fs, "plain", &one).unwrap();
    assert!(root.is_dir(&fs, "plain"));
    assert_eq!(root.create_dir_with(&mut fs, "x/y", &one).unwrap_err().kind(), FsErrorKind::NotFound);
    let rec = DirBuilder::new().recursive(true).mode(0o750);
    root.create_dir_with(&mut fs, "x/y", &rec).unwrap();
    assert!(root.is_dir(&fs, "x/y"));
    assert_eq!(root.metadata(&fs, "x/y").unwrap().permissions().mode(), 0o750);
}

#[test]
fn remove_file_and_remove_dir() {
    let mut fs = FsState::new();
    let root = fs.root();
    root.write(&mut fs, "file", b"x").unwrap();
    root.create_dir(&mut fs, "dir").unwrap();
    root.write(&mut fs, "dir/inner", b"y").unwrap();
    assert_eq!(root.remove_file(&mut fs, "dir").unwrap_err().kind(), FsErrorKind::IsADirectory);
    assert_eq!(root.remove_dir(&mut fs, "file").unwrap_err().kind(), FsErrorKind::NotADirectory);
    assert_eq!(root.remove_dir(&mut fs, "dir").unwrap_err().kind(), FsErrorKind::DirectoryNotEmpty);
    assert_eq!(root.remove_file(&mut fs, "gone").unwrap_err().kind(), FsErrorKind::NotFound);
    root.remove_file(&mut fs, "dir/inner").unwrap();
    root.remove_dir(&mut fs, "dir").unwrap();
    assert!(!root.exists_at(&fs, "dir"));
    root.remove_file(&mut fs, "file").unwrap();
    assert!(!root.exists_at(&fs, "file"));
    // Removing a symlink removes the link, not its target.
    root.write(&mut fs, "target", b"z").unwrap();
    root.symlink(&mut fs, "target", "link").unwrap();
    root.remove_file(&mut fs, "link").unwrap();
    assert!(root.exists_at(&fs, "target"));
    assert!(!root.exists_at(&fs, "link"));
}

#[test]
fn remove_dir_all_unlinks_the_subtree() {
    let mut fs = FsState::new();
    let root = fs.root();
    root.create_dir_all(&mut fs, "a/b/c").unwrap();
    root.write(&mut fs, "a/b/f", b"x").unwrap();
    root.remove_dir_all(&mut fs, "a").unwrap();
    assert!(!root.exists_at(&fs, "a"));
    assert!(!root.exists_at(&fs, "a/b/f"));
    assert_eq!(root.remove_dir_all(&mut fs, "a").unwrap_err().kind(), FsErrorKind::NotFound);
}

#[test]
fn rename_moves_and_replaces() {
    let mut fs = FsState::new();
    let root = fs.root();
    root.write(&mut fs, "a", b"one").unwrap();
    root.create_dir(&mut fs, "sub").unwrap();
    // Plain move.
    root.rename(&mut fs, "a", &root, "b").unwrap();
    assert!(!root.exists_at(&fs, "a"));
    assert_eq!(root.read(&fs, "b").unwrap(), b"one");
    // Move into another directory.
    let sub = root.open_dir(&fs, "sub").unwrap();
    root.rename(&mut fs, "b", &sub, "c").unwrap();
    assert_eq!(root.read(&fs, "sub/c").unwrap(), b"one");
    // Replacing an existing file.
    root.write(&mut fs, "d", b"two").unwrap();
    root.rename(&mut fs, "d", &sub, "c").unwrap();
    assert_eq!(root.read(&fs, "sub/c").unwrap(), b"two");
    // A directory may not replace a file, nor a file a directory.
    root.create_dir(&mut fs, "dir2").unwrap();
    root.write(&mut fs, "f2", b"x").unwrap();
    assert_eq!(
        root.rename(&mut fs, "dir2", &root, "f2").unwrap_err().kind(),
        FsErrorKind::NotADirectory
    );
    assert_eq!(
        root.rename(&mut fs, "f2", &root, "dir2").unwrap_err().kind(),
        FsErrorKind::IsADirectory
    );
    // A directory replaces only an empty directory.
    root.create_dir(&mut fs, "empty").unwrap();
    root.rename(&mut fs, "dir2", &root, "empty").unwrap();
    assert!(root.is_dir(&fs, "empty"));
    assert!(!root.exists_at(&fs, "dir2"));
    // Renaming to itself is a no-op.
    root.rename(&mut fs, "f2", &root, "f2").unwrap();
    assert_eq!(root.read(&fs, "f2").unwrap(), b"x");
    assert_eq!(root.rename(&mut fs, "gone", &root, "x").unwrap_err().kind(), FsErrorKind::NotFound);
}

#[test]
fn trailing_separators_on_mutating_operations() {
    let mut fs = FsState::new();
    let root = fs.root();
    root.create_dir(&mut fs, "dir").unwrap();
    root.write(&mut fs, "dir/f", b"x").unwrap();
    // File operations reject a trailing separator.
    assert_eq!(root.remove_file(&mut fs, "dir/f/").unwrap_err().kind(), FsErrorKind::InvalidInput);
    assert_eq!(root.symlink(&mut fs, "t", "l/").unwrap_err().kind(), FsErrorKind::InvalidInput);
    assert_eq!(
        root.hard_link(&mut fs, "dir/f/", &root, "g").unwrap_err().kind(),
        FsErrorKind::InvalidInput
    );
    // Directory operations take it in stride.
    root.create_dir(&mut fs, "made/").unwrap();
    assert!(root.is_dir(&fs, "made"));
    root.remove_file(&mut fs, "dir/f").unwrap();
    root.remove_dir(&mut fs, "dir/").unwrap();
    assert!(!root.exists_at(&fs, "dir"));
}

#[test]
fn rename_between_hard_links_is_a_no_op() {
    let mut fs = FsState::new();
    let root = fs.root();
    root.write(&mut fs, "a", b"x").unwrap();
    root.hard_link(&mut fs, "a", &root, "b").unwrap();
    root.rename(&mut fs, "a", &root, "b").unwrap();
    assert!(root.exists_at(&fs, "a"));
    assert!(root.exists_at(&fs, "b"));
}

#[test]
fn copy_carries_bytes_and_permissions() {
    let mut fs = FsState::new();
    let root = fs.root();
    let opts = OpenOptions::new().write(true).create(true).mode(0o600);
    root.open_with(&mut fs, "src", &opts).unwrap();
    root.write(&mut fs, "src", b"abc").unwrap();
    let n = root.copy(&mut fs, "src", &root, "dst").unwrap();
    assert_eq!(n, 3);
    assert_eq!(root.read(&fs, "dst").unwrap(), b"abc");
    assert_eq!(root.metadata(&fs, "dst").unwrap().permissions().mode(), 0o600);
    // The source stays.
    assert_eq!(root.read(&fs, "src").unwrap(), b"abc");
    assert_eq!(root.copy(&mut fs, "gone", &root, "x").unwrap_err().kind(), FsErrorKind::NotFound);
    root.create_dir(&mut fs, "dir").unwrap();
    assert_eq!(root.copy(&mut fs, "dir", &root, "x").unwrap_err().kind(), FsErrorKind::IsADirectory);
}

#[test]
fn hard_link_shares_the_object() {
    let mut fs = FsState::new();
    let root = fs.root();
    root.write(&mut fs, "a", b"shared").unwrap();
    root.hard_link(&mut fs, "a", &root, "b").unwrap();
    assert_eq!(
        root.metadata(&fs, "a").unwrap().ino(),
        root.metadata(&fs, "b").unwrap().ino()
    );
    // Writing through one name is seen through the other.
    root.write(&mut fs, "a", b"changed").unwrap();
    assert_eq!(root.read(&fs, "b").unwrap(), b"changed");
    // A directory cannot be hard-linked; an existing target is kept.
    root.create_dir(&mut fs, "dir").unwrap();
    assert_eq!(
        root.hard_link(&mut fs, "dir", &root, "x").unwrap_err().kind(),
        FsErrorKind::PermissionDenied
    );
    assert_eq!(
        root.hard_link(&mut fs, "a", &root, "b").unwrap_err().kind(),
        FsErrorKind::AlreadyExists
    );
}

#[test]
fn open_with_flag_rules() {
    let mut fs = FsState::new();
    let root = fs.root();
    root.write(&mut fs, "file", b"data").unwrap();
    // No access requested.
    let none = OpenOptions::new();
    assert_eq!(root.open_with(&mut fs, "file", &none).unwrap_err().kind(), FsErrorKind::InvalidInput);
    // Truncate without write.
    let t = OpenOptions::new().read(true).truncate(true);
    assert_eq!(root.open_with(&mut fs, "file", &t).unwrap_err().kind(), FsErrorKind::InvalidInput);
    // Create without write or append.
    let c = OpenOptions::new().read(true).create(true);
    assert_eq!(root.open_with(&mut fs, "file", &c).unwrap_err().kind(), FsErrorKind::InvalidInput);
    // create_new refuses an existing file.
    let cn = OpenOptions::new().write(true).create_new(true);
    assert_eq!(root.open_with(&mut fs, "file", &cn).unwrap_err().kind(), FsErrorKind::AlreadyExists);
    root.open_with(&mut fs, "fresh", &cn).unwrap();
    assert!(root.is_file(&fs, "fresh"));
    // Truncating empties the file.
    let tw = OpenOptions::new().write(true).truncate(true);
    root.open_with(&mut fs, "file", &tw).unwrap();
    assert_eq!(root.metadata(&fs, "file").unwrap().len(), 0);
    // Opening a directory as a file fails.
    root.create_dir(&mut fs, "dir").unwrap();
    let r = OpenOptions::new().read(true);
    assert_eq!(root.open_with(&mut fs, "dir", &r).unwrap_err().kind(), FsErrorKind::IsADirectory);
    // Opening a missing file without create fails.
    assert_eq!(root.open_with(&mut fs, "gone", &r).unwrap_err().kind(), FsErrorKind::NotFound);
}

#[test]
fn open_through_dangling_symlink_creates_the_target() {
    let mut fs = FsState::new();
    let root = fs.root();
    root.symlink(&mut fs, "target", "link").unwrap();
    assert!(!root.exists_at(&fs, "link"));
    root.write(&mut fs, "link", b"made").unwrap();
    assert_eq!(root.read(&fs, "target").unwrap(), b"made");
}

#[test]
fn open_options_ext_defaults_and_setters() {
    let ext = OpenOptionsExt::new();
    assert_eq!(ext.mode, 0o666);
    assert_eq!(ext.custom_flags, 0);
    let ext = ext.mode(0o640).custom_flags(7);
    assert_eq!(ext.mode, 0o640);
    assert_eq!(ext.custom_flags, 7);
}

#[test]
fn timestamps_are_a_distinguishable_unsupported_state() {
    let mut fs = FsState::new();
    let root = fs.root();
    root.write(&mut fs, "file", b"x").unwrap();
    let m = root.metadata(&fs, "file").unwrap();
    assert_eq!(m.modified().unwrap_err().kind(), FsErrorKind::Unsupported);
    assert_eq!(m.accessed().unwrap_err().kind(), FsErrorKind::Unsupported);
    assert_eq!(m.created().unwrap_err().kind(), FsErrorKind::Unsupported);
}

#[test]
fn canonicalize_is_never_absolute() {
    let mut fs = FsState::new();
    let root = fs.root();
    root.create_dir_all(&mut fs, "a/b").unwrap();
    root.symlink(&mut fs, "a", "link").unwrap();
    for p in ["a/b", "a/./b/../b/", "link/b", "a//b"] {
        let t = root.canonicalize(&fs, p).unwrap();
        assert!(!t.starts_with('/'));
        assert_eq!(t, "a/b");
    }
}

#[test]
fn socket_operations_are_a_capability_gap() {
    let mut fs = FsState::new();
    let root = fs.root();
    root.create_dir(&mut fs, "dir").unwrap();
    assert_eq!(root.bind_unix_listener("dir/sock").unwrap_err().kind(), FsErrorKind::Unsupported);
    assert_eq!(root.connect_unix_stream("dir/sock").unwrap_err().kind(), FsErrorKind::Unsupported);
    assert_eq!(root.bind_unix_datagram("dir/sock").unwrap_err().kind(), FsErrorKind::Unsupported);
    assert_eq!(root.connect_unix_datagram("dir/sock").unwrap_err().kind(), FsErrorKind::Unsupported);
    assert_eq!(
        root.send_to_unix_datagram_addr(b"hi", "dir/sock").unwrap_err().kind(),
        FsErrorKind::Unsupported
    );
}
