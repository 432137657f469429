use nexos::vfs::Vfs;

#[test]
fn write_then_read_gives_back_contents() {
    let mut vfs = Vfs::new();
    vfs.write_file("/tmp/a", "one").unwrap();
    vfs.write_file("/tmp/b", "two").unwrap();
    vfs.write_file("/tmp/a", "three").unwrap();
    assert_eq!(vfs.read_file("/tmp/a").unwrap(), "three");
    assert_eq!(vfs.read_file("/tmp/b").unwrap(), "two");
}

#[test]
fn write_into_missing_directory_fails() {
    let mut vfs = Vfs::new();
    assert!(vfs.write_file("/nope/a", "x").is_err());
    assert!(!vfs.exists_path("/nope/a"));
}

#[test]
fn mkdir_makes_directory_owned_as_asked() {
    let mut vfs = Vfs::new();
    vfs.mkdir_with_owner("/tmp/d", 7, 8).unwrap();
    assert!(vfs.is_dir("/tmp/d"));
    let m = vfs.get_meta("/tmp/d").unwrap();
    assert_eq!((m.uid, m.gid), (7, 8));
    assert!(vfs.mkdir("/tmp/d").is_err());
}

#[test]
fn rm_recursive_removes_subtree_only() {
    let mut vfs = Vfs::new();
    vfs.mkdir("/tmp/d").unwrap();
    vfs.write_file("/tmp/d/f", "x").unwrap();
    vfs.write_file("/tmp/dx", "y").unwrap();
    vfs.rm_recursive("/tmp/d").unwrap();
    assert!(!vfs.exists_path("/tmp/d"));
    assert!(!vfs.exists_path("/tmp/d/f"));
    assert!(vfs.exists_path("/tmp/dx"));
}

#[test]
fn resolving_twice_changes_nothing() {
    let mut vfs = Vfs::new();
    vfs.cwd = "/home/user".to_string();
    let once = vfs.resolve_path("../user/./docs/../x").unwrap();
    assert_eq!(once, "/home/user/x");
    assert_eq!(vfs.resolve_path(&once).unwrap(), once);
}

#[test]
fn list_dir_is_sorted_by_name() {
    let mut vfs = Vfs::new();
    vfs.write_file("/tmp/b", "").unwrap();
    vfs.write_file("/tmp/a", "").unwrap();
    let names: Vec<String> = vfs.list_dir("/tmp").unwrap().into_iter().map(|e| e.name).collect();
    assert_eq!(names, vec!["a", "b"]);
}
