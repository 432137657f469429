use nexos::command::ls::execute;
use nexos::vfs::Vfs;
use nexos::users::UserDatabase;

#[test]
fn list_directory() {
    let mut vfs = Vfs::new();
    vfs.write_file("/tmp/a.txt", "").unwrap();
    vfs.mkdir("/tmp/sub").unwrap();
    let user_db = UserDatabase::from_vfs(&vfs);
    let out = execute(&vfs, &["/tmp"], &user_db).unwrap();
    assert!(out.contains("a.txt"));
    assert!(out.contains("sub/"));
}

#[test]
fn list_file_shows_name() {
    let mut vfs = Vfs::new();
    vfs.write_file("/tmp/f.txt", "").unwrap();
    let user_db = UserDatabase::from_vfs(&vfs);
    let out = execute(&vfs, &["/tmp/f.txt"], &user_db).unwrap();
    assert!(out.contains("f.txt"));
}

#[test]
fn long_format() {
    let mut vfs = Vfs::new();
    vfs.write_file("/tmp/f.txt", "hello").unwrap();
    vfs.mkdir("/tmp/d").unwrap();
    let user_db = UserDatabase::from_vfs(&vfs);
    let out = execute(&vfs, &["-l", "/tmp"], &user_db).unwrap();
    // Should contain permission strings
    assert!(out.contains("rw"));
    // Should contain owner/group (unknown in test VFS without /etc/passwd)
    assert!(out.contains("unknown"));
    // Should contain file size
    assert!(out.contains("5")); // "hello" is 5 bytes
                                // Should contain the file name
    assert!(out.contains("f.txt"));
}

#[test]
fn empty_directory() {
    let mut vfs = Vfs::new();
    vfs.mkdir("/tmp/empty").unwrap();
    let user_db = UserDatabase::from_vfs(&vfs);
    let out = execute(&vfs, &["/tmp/empty"], &user_db).unwrap();
    assert!(!out.is_empty());
}

#[test]
fn nonexistent_path() {
    let vfs = Vfs::new();
    let user_db = UserDatabase::from_vfs(&vfs);
    assert!(execute(&vfs, &["/nonexistent"], &user_db).is_err());
}

#[test]
fn sorted_output() {
    let mut vfs = Vfs::new();
    vfs.write_file("/tmp/b.txt", "").unwrap();
    vfs.write_file("/tmp/a.txt", "").unwrap();
    vfs.write_file("/tmp/c.txt", "").unwrap();
    let user_db = UserDatabase::from_vfs(&vfs);
    let out = execute(&vfs, &["/tmp"], &user_db).unwrap();
    let a = out.find("a.txt").unwrap();
    let b = out.find("b.txt").unwrap();
    let c = out.find("c.txt").unwrap();
    assert!(a < b);
    assert!(b < c);
}
