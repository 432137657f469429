use nexos::command::tee::execute;
use nexos::vfs::Vfs;

#[test]
fn write_to_single_file() {
    let mut vfs = Vfs::new();
    let out = execute(&mut vfs, "hello world", &["/tmp/out.txt"]).unwrap();
    // Stdout should be identical to the input.
    assert_eq!(out, "hello world");
    // The file should contain the written content.
    assert_eq!(vfs.read_file("/tmp/out.txt").unwrap(), "hello world");
}

#[test]
fn write_to_multiple_files() {
    let mut vfs = Vfs::new();
    let out = execute(&mut vfs, "data", &["/tmp/a.txt", "/tmp/b.txt"]).unwrap();
    assert_eq!(out, "data");
    // Both files should receive the same content.
    assert_eq!(vfs.read_file("/tmp/a.txt").unwrap(), "data");
    assert_eq!(vfs.read_file("/tmp/b.txt").unwrap(), "data");
}

#[test]
fn append_mode() {
    let mut vfs = Vfs::new();
    vfs.write_file("/tmp/log.txt", "first\n").unwrap();
    let out = execute(&mut vfs, "second\n", &["-a", "/tmp/log.txt"]).unwrap();
    assert_eq!(out, "second\n");
    // New content should be appended after existing content.
    assert_eq!(vfs.read_file("/tmp/log.txt").unwrap(), "first\nsecond\n");
}

#[test]
fn overwrite_mode() {
    let mut vfs = Vfs::new();
    vfs.write_file("/tmp/log.txt", "old").unwrap();
    let out = execute(&mut vfs, "new", &["/tmp/log.txt"]).unwrap();
    assert_eq!(out, "new");
    // Without -a, the old content is replaced entirely.
    assert_eq!(vfs.read_file("/tmp/log.txt").unwrap(), "new");
}

#[test]
fn missing_file_operand() {
    let mut vfs = Vfs::new();
    // Calling tee with zero file arguments should fail.
    assert!(execute(&mut vfs, "data", &[]).is_err());
}

#[test]
fn empty_input() {
    let mut vfs = Vfs::new();
    let out = execute(&mut vfs, "", &["/tmp/out.txt"]).unwrap();
    // Even empty input should work and produce an empty file.
    assert_eq!(out, "");
    assert_eq!(vfs.read_file("/tmp/out.txt").unwrap(), "");
}
