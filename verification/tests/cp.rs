use nexos::command::cp::execute;
use nexos::vfs::Vfs;

#[test]
fn copy_file() {
    let mut vfs = Vfs::new();
    vfs.write_file("/tmp/src.txt", "data").unwrap();
    execute(&mut vfs, &["/tmp/src.txt", "/tmp/dst.txt"], 0, 0).unwrap();
    assert_eq!(vfs.read_file("/tmp/dst.txt").unwrap(), "data");
    assert_eq!(vfs.read_file("/tmp/src.txt").unwrap(), "data");
}

#[test]
fn copy_into_directory() {
    let mut vfs = Vfs::new();
    vfs.write_file("/tmp/f.txt", "data").unwrap();
    vfs.mkdir("/tmp/dest").unwrap();
    execute(&mut vfs, &["/tmp/f.txt", "/tmp/dest"], 0, 0).unwrap();
    assert_eq!(vfs.read_file("/tmp/dest/f.txt").unwrap(), "data");
}

#[test]
fn copy_nonexistent_errors() {
    let mut vfs = Vfs::new();
    assert!(execute(&mut vfs, &["/nope", "/tmp/dst"], 0, 0).is_err());
}

#[test]
fn cp_missing_destination() {
    let mut vfs = Vfs::new();
    assert!(execute(&mut vfs, &["/tmp/src"], 0, 0).is_err());
}
