use nexos::command::mv::execute;
use nexos::vfs::Vfs;

#[test]
fn move_file() {
    let mut vfs = Vfs::new();
    vfs.write_file("/tmp/old.txt", "data").unwrap();
    execute(&mut vfs, &["/tmp/old.txt", "/tmp/new.txt"], 0, 0).unwrap();
    assert!(!vfs.exists_path("/tmp/old.txt"));
    assert_eq!(vfs.read_file("/tmp/new.txt").unwrap(), "data");
}

#[test]
fn move_nonexistent_errors() {
    let mut vfs = Vfs::new();
    assert!(execute(&mut vfs, &["/nope", "/tmp/dst"], 0, 0).is_err());
}

#[test]
fn mv_missing_destination() {
    let mut vfs = Vfs::new();
    assert!(execute(&mut vfs, &["/tmp/src"], 0, 0).is_err());
}
