use nexos::command::chown::execute;
use nexos::vfs::Vfs;
use nexos::users::UserDatabase;

#[test]
fn chown_as_root_by_uid() {
    let mut vfs = Vfs::new();
    let user_db = UserDatabase::from_vfs(&vfs);
    vfs.touch("/tmp/f.txt").unwrap();
    // Root can always chown — use numeric UID since no /etc/passwd in test VFS
    let out = execute(&mut vfs, &["0", "/tmp/f.txt"], 0, &user_db).unwrap();
    assert!(out.is_empty());
    assert_eq!(vfs.get_meta("/tmp/f.txt").unwrap().uid, 0);
}

#[test]
fn chown_denied_for_non_root() {
    let mut vfs = Vfs::new();
    let user_db = UserDatabase::from_vfs(&vfs);
    vfs.touch("/tmp/f.txt").unwrap();
    let err = execute(&mut vfs, &["0", "/tmp/f.txt"], 1000, &user_db).unwrap_err();
    assert!(err.contains("Operation not permitted"));
}

#[test]
fn chown_nonexistent_file() {
    let mut vfs = Vfs::new();
    let user_db = UserDatabase::from_vfs(&vfs);
    let out = execute(&mut vfs, &["0", "/nonexistent"], 0, &user_db).unwrap();
    assert!(out.contains("No such file or directory"));
}

#[test]
fn chown_missing_operand() {
    let mut vfs = Vfs::new();
    let user_db = UserDatabase::from_vfs(&vfs);
    assert!(execute(&mut vfs, &[], 0, &user_db).is_err());
}

#[test]
fn chown_invalid_user() {
    let mut vfs = Vfs::new();
    let user_db = UserDatabase::from_vfs(&vfs);
    let err = execute(&mut vfs, &["nonexistent", "/tmp"], 0, &user_db).unwrap_err();
    assert!(err.contains("invalid user"));
}
