use nexos::command::cat::execute;
use nexos::vfs::Vfs;

#[test]
fn read_single_file() {
    let mut vfs = Vfs::new();
    vfs.write_file("/tmp/f.txt", "hello").unwrap();
    let out = execute(&vfs, &["/tmp/f.txt"], 0, 0).unwrap();
    assert!(out.contains("hello"));
}

#[test]
fn read_multiple_files() {
    let mut vfs = Vfs::new();
    vfs.write_file("/tmp/a.txt", "AAA").unwrap();
    vfs.write_file("/tmp/b.txt", "BBB").unwrap();
    let out = execute(&vfs, &["/tmp/a.txt", "/tmp/b.txt"], 0, 0).unwrap();
    assert!(out.contains("AAA"));
    assert!(out.contains("BBB"));
}

#[test]
fn nonexistent_file_errors() {
    let vfs = Vfs::new();
    assert!(execute(&vfs, &["/nope"], 0, 0).is_err());
}

#[test]
fn directory_errors() {
    let vfs = Vfs::new();
    assert!(execute(&vfs, &["/home"], 0, 0).is_err());
}

#[test]
fn cat_missing_operand() {
    let vfs = Vfs::new();
    assert!(execute(&vfs, &[], 0, 0).is_err());
}

#[test]
fn read_denied_for_non_owner() {
    let mut vfs = Vfs::new();
    vfs.write_file("/tmp/f.txt", "secret").unwrap();
    // Set file to owner-only read (0o400)
    { let mut m = vfs.get_meta("/tmp/f.txt").unwrap(); m.mode = 0o400; vfs.set_meta("/tmp/f.txt", m); }
    { let mut m = vfs.get_meta("/tmp/f.txt").unwrap(); m.uid = 1000; vfs.set_meta("/tmp/f.txt", m); }
    // Root can always read
    assert!(execute(&vfs, &["/tmp/f.txt"], 0, 0).is_ok());
    // Owner can read
    assert!(execute(&vfs, &["/tmp/f.txt"], 1000, 1000).is_ok());
    // Other user cannot
    assert!(execute(&vfs, &["/tmp/f.txt"], 2000, 2000).is_err());
}
