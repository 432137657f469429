use nexos::command::{chmod, rm};
use nexos::permissions::{check_access, AccessMode};
use nexos::vfs::{Meta, Vfs};

#[test]
fn root_may_access_anything() {
    let meta = Meta { mode: 0, uid: 5, gid: 5, mtime: 0 };
    assert!(check_access(&meta, AccessMode::Read, 0, 0).is_ok());
    assert!(check_access(&meta, AccessMode::Write, 0, 9).is_ok());
    assert_eq!(check_access(&meta, AccessMode::Read, 7, 7).unwrap_err(), "Permission denied");
}

#[test]
fn chmod_by_non_owner_changes_nothing() {
    let mut vfs = Vfs::new();
    vfs.write_file("/tmp/f", "x").unwrap();
    let mut m = vfs.get_meta("/tmp/f").unwrap();
    m.uid = 1000;
    m.mode = 0o644;
    vfs.set_meta("/tmp/f", m);
    let out = chmod::execute(&mut vfs, &["777", "/tmp/f"], 2000).unwrap();
    assert!(out.contains("Operation not permitted"));
    assert_eq!(vfs.get_meta("/tmp/f").unwrap(), m);
}

#[test]
fn sticky_directory_protects_other_users_files() {
    let mut vfs = Vfs::new();
    vfs.write_file("/tmp/f", "x").unwrap();
    let mut m = vfs.get_meta("/tmp/f").unwrap();
    m.uid = 1000;
    vfs.set_meta("/tmp/f", m);
    assert_eq!(rm::execute(&mut vfs, &["/tmp/f"], 2000, 2000).unwrap_err(), "Operation not permitted");
    assert!(vfs.exists_path("/tmp/f"));
    assert!(rm::execute(&mut vfs, &["/tmp/f"], 1000, 1000).is_ok());
    assert!(!vfs.exists_path("/tmp/f"));
}
