use capfs::path::{parse_path, Component};
use capfs::FsErrorKind;
use capfs::FsState;

fn names(p: &capfs::path::ParsedPath) -> Vec<String> {
    let mut out = Vec::new();
    for c in p.components.iter() {
        match c {
            Component::CurDir => out.push(String::from(".")),
            Component::ParentDir => out.push(String::from("..")),
            Component::Normal(n) => out.push(n.clone()),
        }
    }
    out
}

#[test]
fn parse_splits_on_separators() {
    let p = parse_path("a/b/c").unwrap();
    assert!(!p.absolute);
    assert!(!p.trailing);
    assert_eq!(names(&p), vec!["a", "b", "c"]);
    // Repeated separators collapse.
    let p = parse_path("a//b///c").unwrap();
    assert_eq!(names(&p), vec!["a", "b", "c"]);
}

#[test]
fn parse_classifies_dots() {
    let p = parse_path("./a/../b").unwrap();
    assert_eq!(names(&p), vec![".", "a", "..", "b"]);
    // Three dots are an ordinary name.
    let p = parse_path(".../a").unwrap();
    assert_eq!(names(&p), vec!["...", "a"]);
}

#[test]
fn parse_marks_absolute_and_trailing() {
    let p = parse_path("/a/b").unwrap();
    assert!(p.absolute);
    assert!(!p.trailing);
    assert_eq!(names(&p), vec!["a", "b"]);
    let p = parse_path("a/b/").unwrap();
    assert!(!p.absolute);
    assert!(p.trailing);
    assert_eq!(names(&p), vec!["a", "b"]);
    let p = parse_path("").unwrap();
    assert!(!p.absolute);
    assert!(!p.trailing);
    assert_eq!(names(&p).len(), 0);
}

#[test]
fn parse_rejects_nul() {
    let e = parse_path("a\0b").unwrap_err();
    assert_eq!(e.kind(), FsErrorKind::InvalidInput);
}

#[test]
fn empty_path_resolves_to_the_directory_itself() {
    let mut fs = FsState::new();
    let root = fs.root();
    root.create_dir(&mut fs, "dir").unwrap();
    assert!(root.metadata(&fs, "").unwrap().is_dir());
    let d = root.open_dir(&fs, "").unwrap();
    assert_eq!(d, root);
    assert_eq!(root.open_dir(&fs, ".").unwrap(), root);
}

#[test]
fn canonicalize_normalizes_the_walk() {
    let mut fs = FsState::new();
    let root = fs.root();
    root.create_dir_all(&mut fs, "a/b").unwrap();
    root.symlink(&mut fs, "a/b", "link").unwrap();
    assert_eq!(root.canonicalize(&fs, "a/./b/").unwrap(), "a/b");
    assert_eq!(root.canonicalize(&fs, "a/b/..").unwrap(), "a");
    assert_eq!(root.canonicalize(&fs, "link").unwrap(), "a/b");
    assert_eq!(root.canonicalize(&fs, "link/..").unwrap(), "a");
    assert_eq!(root.canonicalize(&fs, "").unwrap(), "");
    assert_eq!(root.canonicalize(&fs, "/a").unwrap_err().kind(), FsErrorKind::EscapesRoot);
}

#[test]
fn read_dir_lists_in_order() {
    let mut fs = FsState::new();
    let root = fs.root();
    root.create_dir(&mut fs, "dir").unwrap();
    root.write(&mut fs, "dir/one", b"1").unwrap();
    root.create_dir(&mut fs, "dir/two").unwrap();
    root.symlink(&mut fs, "one", "dir/three").unwrap();
    let mut rd = root.read_dir(&fs, "dir").unwrap();
    assert_eq!(rd.len(), 3);
    let e1 = rd.next_entry().unwrap();
    assert_eq!(e1.file_name(), "one");
    assert!(e1.metadata(&fs).unwrap().is_file());
    let e2 = rd.next_entry().unwrap();
    assert_eq!(e2.file_name(), "two");
    assert!(e2.open_dir(&fs).is_ok());
    let e3 = rd.next_entry().unwrap();
    assert_eq!(e3.file_name(), "three");
    assert!(e3.symlink_metadata(&fs).unwrap().is_symlink());
    assert!(e3.metadata(&fs).unwrap().is_file());
    assert!(rd.next_entry().is_none());
}

#[test]
fn dir_entry_opens_and_removes() {
    let mut fs = FsState::new();
    let root = fs.root();
    root.create_dir(&mut fs, "dir").unwrap();
    root.write(&mut fs, "dir/f", b"data").unwrap();
    let sub = root.open_dir(&fs, "dir").unwrap();
    let mut rd = sub.entries(&fs).unwrap();
    let e = rd.next_entry().unwrap();
    assert_eq!(e.file_name(), "f");
    assert!(e.open(&mut fs).is_ok());
    e.remove_file(&mut fs).unwrap();
    assert!(!root.exists_at(&fs, "dir/f"));
}

#[test]
fn remove_open_dir_unlinks_the_handle() {
    let mut fs = FsState::new();
    let root = fs.root();
    root.create_dir(&mut fs, "dir").unwrap();
    root.write(&mut fs, "dir/f", b"data").unwrap();
    let d = root.open_dir(&fs, "dir").unwrap();
    // The handle still works after the directory is unlinked.
    d.remove_open_dir(&mut fs).unwrap();
    assert!(!root.exists_at(&fs, "dir"));
    let d2 = root.try_clone().unwrap();
    assert_eq!(d2, root);
}

#[test]
fn handles_survive_renames() {
    let mut fs = FsState::new();
    let root = fs.root();
    root.create_dir(&mut fs, "dir").unwrap();
    root.write(&mut fs, "dir/f", b"data").unwrap();
    let d = root.open_dir(&fs, "dir").unwrap();
    root.rename(&mut fs, "dir", &root, "moved").unwrap();
    // The handle names the object, not the path.
    assert_eq!(d.read(&fs, "f").unwrap(), b"data");
    assert_eq!(root.open_dir(&fs, "moved").unwrap(), d);
}

#[test]
fn exists_swallows_errors() {
    let mut fs = FsState::new();
    let root = fs.root();
    root.write(&mut fs, "file", b"x").unwrap();
    assert!(root.exists_at(&fs, "file"));
    assert!(root.is_file(&fs, "file"));
    assert!(!root.is_dir(&fs, "file"));
    assert!(!root.exists_at(&fs, "missing"));
    assert!(!root.exists_at(&fs, "/etc"));
    assert!(!root.exists_at(&fs, "a\0b"));
    // A broken symlink does not exist through the following stat.
    root.symlink(&mut fs, "missing", "dangling").unwrap();
    assert!(!root.exists_at(&fs, "dangling"));
    assert!(!root.is_dir(&fs, "dangling"));
}

#[test]
fn confinement_holds_from_a_subdirectory() {
    let mut fs = FsState::new();
    let root = fs.root();
    root.create_dir_all(&mut fs, "outer/inner").unwrap();
    root.write(&mut fs, "secret", b"top").unwrap();
    let inner = root.open_dir(&fs, "outer/inner").unwrap();
    // The inner handle cannot reach the root's file in any phrasing.
    assert_eq!(inner.read(&fs, "../../secret").unwrap_err().kind(), FsErrorKind::EscapesRoot);
    assert_eq!(inner.read(&fs, "/secret").unwrap_err().kind(), FsErrorKind::EscapesRoot);
    root.symlink(&mut fs, "../../secret", "outer/inner/leak").unwrap();
    assert_eq!(inner.read(&fs, "leak").unwrap_err().kind(), FsErrorKind::EscapesRoot);
    // But the root handle itself still reads it.
    assert_eq!(root.read(&fs, "secret").unwrap(), b"top");
}
