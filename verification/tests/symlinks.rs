use capfs::FsErrorKind;
use capfs::FsState;

#[test]
fn basic_symlinks() {
    let mut fs = FsState::new();
    let root = fs.root();
    root.create(&mut fs, "file").unwrap();
    root.create_dir(&mut fs, "dir").unwrap();
    root.symlink(&mut fs, "file", "file_symlink_file").unwrap();
    root.symlink(&mut fs, "dir", "dir_symlink_dir").unwrap();
    root.symlink(&mut fs, "file_symlink_file", "file_symlink").unwrap();
    root.symlink(&mut fs, "dir_symlink_dir", "dir_symlink").unwrap();

    assert!(root.metadata(&fs, "file_symlink_file").unwrap().is_file());
    assert!(root.metadata(&fs, "dir_symlink_dir").unwrap().is_dir());
    assert!(root.metadata(&fs, "file_symlink").unwrap().is_file());
    assert!(root.metadata(&fs, "dir_symlink").unwrap().is_dir());
    assert!(root.symlink_metadata(&fs, "file_symlink_file").unwrap().is_symlink());
    assert!(root.symlink_metadata(&fs, "dir_symlink_dir").unwrap().is_symlink());
    assert!(root.open(&mut fs, "file_symlink").is_ok());
    assert!(root.open_dir(&fs, "dir_symlink").is_ok());
}

#[test]
fn symlink_absolute() {
    let mut fs = FsState::new();
    let root = fs.root();
    root.create(&mut fs, "file").unwrap();
    root.create_dir(&mut fs, "dir").unwrap();
    root.symlink(&mut fs, "/thing", "thing_symlink_file").unwrap();
    root.symlink(&mut fs, "/file", "file_symlink_file").unwrap();
    root.symlink(&mut fs, "/dir", "dir_symlink_dir").unwrap();

    let e = root.metadata(&fs, "thing_symlink_file").unwrap_err();
    assert_eq!(e.message(), "a path led outside of the filesystem");
    let e = root.open(&mut fs, "file_symlink_file").unwrap_err();
    assert_eq!(e.message(), "a path led outside of the filesystem");
    let e = root.open_dir(&fs, "dir_symlink_dir").unwrap_err();
    assert_eq!(e.message(), "a path led outside of the filesystem");
}

#[test]
fn readlink_absolute() {
    let mut fs = FsState::new();
    let root = fs.root();
    root.create(&mut fs, "file").unwrap();
    root.create_dir(&mut fs, "dir").unwrap();
    root.symlink(&mut fs, "/thing", "thing_symlink").unwrap();
    root.symlink(&mut fs, "/file", "file_symlink_file").unwrap();
    root.symlink(&mut fs, "/dir", "dir_symlink_dir").unwrap();

    assert_eq!(root.read_link(&fs, "thing_symlink").unwrap(), "/thing");
    assert_eq!(root.read_link(&fs, "file_symlink_file").unwrap(), "/file");
    assert_eq!(root.read_link(&fs, "dir_symlink_dir").unwrap(), "/dir");
    let e = root.metadata(&fs, "thing_symlink").unwrap_err();
    assert_eq!(e.message(), "a path led outside of the filesystem");
}

#[test]
fn open_dir_nofollow() {
    let mut fs = FsState::new();
    let root = fs.root();
    root.create(&mut fs, "file").unwrap();
    root.create_dir(&mut fs, "dir").unwrap();
    root.symlink(&mut fs, "file", "symlink_file").unwrap();
    root.symlink(&mut fs, "dir", "symlink_dir").unwrap();
    root.symlink(&mut fs, "dir/", "symlink_dir_slash").unwrap();
    root.symlink(&mut fs, "dir/.", "symlink_dir_slashdot").unwrap();
    root.symlink(&mut fs, "dir/..", "symlink_dir_slashdotdot").unwrap();
    root.symlink(&mut fs, "dir/../", "symlink_dir_slashdotdotslash").unwrap();
    root.symlink(&mut fs, ".", "symlink_dot").unwrap();
    root.symlink(&mut fs, "./", "symlink_dotslash").unwrap();

    // A plain directory opens; a file or a leaf symlink does not.
    assert!(root.open_dir_nofollow(&fs, "dir").is_ok());
    assert_eq!(
        root.open_dir_nofollow(&fs, "file").unwrap_err().kind(),
        FsErrorKind::NotADirectory
    );
    assert_eq!(
        root.open_dir_nofollow(&fs, "symlink_dir").unwrap_err().kind(),
        FsErrorKind::UnexpectedSymlink
    );
    assert_eq!(
        root.open_dir_nofollow(&fs, "symlink_file").unwrap_err().kind(),
        FsErrorKind::UnexpectedSymlink
    );

    // A trailing separator, `.` or `..` makes the true final component
    // no longer the symlink, so the link before it is followed.
    assert!(root.open_dir_nofollow(&fs, "symlink_dir/").is_ok());
    assert!(root.open_dir_nofollow(&fs, "symlink_dir/.").is_ok());
    assert_eq!(root.open_dir_nofollow(&fs, "symlink_dir/..").unwrap(), root);
    assert_eq!(root.open_dir_nofollow(&fs, "symlink_dir/../").unwrap(), root);
    assert_eq!(root.open_dir_nofollow(&fs, "dir/..").unwrap(), root);

    // A symlink whose own text carries the trailing separator is still
    // a symlink in final position.
    assert_eq!(
        root.open_dir_nofollow(&fs, "symlink_dir_slash").unwrap_err().kind(),
        FsErrorKind::UnexpectedSymlink
    );
    assert_eq!(
        root.open_dir_nofollow(&fs, "symlink_dir_slashdot").unwrap_err().kind(),
        FsErrorKind::UnexpectedSymlink
    );
    assert_eq!(
        root.open_dir_nofollow(&fs, "symlink_dot").unwrap_err().kind(),
        FsErrorKind::UnexpectedSymlink
    );

    // Walking away and back does not change what the leaf is.
    assert_eq!(
        root.open_dir_nofollow(&fs, "dir/../symlink_dir").unwrap_err().kind(),
        FsErrorKind::UnexpectedSymlink
    );
    assert_eq!(
        root.open_dir_nofollow(&fs, "/./").unwrap_err().kind(),
        FsErrorKind::EscapesRoot
    );
}

#[test]
fn symlink_chain_over_limit_fails() {
    let mut fs = FsState::new();
    let root = fs.root();
    root.create_dir(&mut fs, "dir").unwrap();
    // A chain of fifty links, one past the next, ending at a real
    // directory: longer than the expansion bound.
    root.symlink(&mut fs, "dir", "link0").unwrap();
    for i in 1..50u32 {
        let target = format!("link{}", i - 1);
        let link = format!("link{}", i);
        root.symlink(&mut fs, &target, &link).unwrap();
    }
    let e = root.open_dir(&fs, "link49").unwrap_err();
    assert_eq!(e.kind(), FsErrorKind::TooManySymlinks);
    assert_eq!(e.message(), "too many levels of symbolic links");
    // A short chain is fine.
    assert!(root.open_dir(&fs, "link3").is_ok());
    // A cycle fails the same way instead of spinning.
    root.symlink(&mut fs, "loop_b", "loop_a").unwrap();
    root.symlink(&mut fs, "loop_a", "loop_b").unwrap();
    assert_eq!(
        root.metadata(&fs, "loop_a").unwrap_err().kind(),
        FsErrorKind::TooManySymlinks
    );
}

#[test]
fn symlink_identity_follows_to_same_object() {
    let mut fs = FsState::new();
    let root = fs.root();
    root.create_dir(&mut fs, "dir").unwrap();
    root.symlink(&mut fs, "dir", "dir_symlink_dir").unwrap();
    let d1 = root.open_dir(&fs, "dir").unwrap();
    let d2 = root.open_dir(&fs, "dir_symlink_dir").unwrap();
    assert_eq!(d1, d2);
    assert_eq!(
        root.metadata(&fs, "dir").unwrap().ino(),
        root.metadata(&fs, "dir_symlink_dir").unwrap().ino()
    );
    assert_eq!(
        root.open_dir_nofollow(&fs, "dir_symlink_dir").unwrap_err().kind(),
        FsErrorKind::UnexpectedSymlink
    );
    assert!(root.open_dir_nofollow(&fs, "dir").is_ok());
}

#[test]
fn symlink_metadata_reports_link_metadata_follows() {
    let mut fs = FsState::new();
    let root = fs.root();
    root.write(&mut fs, "file", b"payload").unwrap();
    root.symlink(&mut fs, "file", "link").unwrap();
    let lm = root.symlink_metadata(&fs, "link").unwrap();
    assert!(lm.is_symlink());
    assert!(!lm.is_file());
    let m = root.metadata(&fs, "link").unwrap();
    assert!(m.is_file());
    assert_eq!(m.len(), 7);
}
