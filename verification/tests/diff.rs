use nexos::command::diff::execute;
use nexos::vfs::Vfs;

#[test]
fn identical_files_empty_output() {
    let mut vfs = Vfs::new();
    vfs.write_file("/tmp/a.txt", "line1\nline2").unwrap();
    vfs.write_file("/tmp/b.txt", "line1\nline2").unwrap();
    let out = execute(&vfs, &["/tmp/a.txt", "/tmp/b.txt"]).unwrap();
    assert!(out.is_empty());
}

#[test]
fn different_files_shows_diff() {
    let mut vfs = Vfs::new();
    vfs.write_file("/tmp/a.txt", "hello").unwrap();
    vfs.write_file("/tmp/b.txt", "world").unwrap();
    let out = execute(&vfs, &["/tmp/a.txt", "/tmp/b.txt"]).unwrap();
    assert!(!out.is_empty());
    assert!(out.contains("-") || out.contains("+"));
}

#[test]
fn diff_missing_args() {
    let vfs = Vfs::new();
    assert!(execute(&vfs, &[]).is_err());
    assert!(execute(&vfs, &["/tmp/a.txt"]).is_err());
}

#[test]
fn diff_too_many_args() {
    let vfs = Vfs::new();
    assert!(execute(&vfs, &["a", "b", "c"]).is_err());
}

#[test]
fn empty_files_are_identical() {
    let mut vfs = Vfs::new();
    vfs.write_file("/tmp/a.txt", "").unwrap();
    vfs.write_file("/tmp/b.txt", "").unwrap();
    let out = execute(&vfs, &["/tmp/a.txt", "/tmp/b.txt"]).unwrap();
    assert!(out.is_empty());
}

#[test]
fn one_empty_one_nonempty() {
    let mut vfs = Vfs::new();
    vfs.write_file("/tmp/a.txt", "").unwrap();
    vfs.write_file("/tmp/b.txt", "content").unwrap();
    let out = execute(&vfs, &["/tmp/a.txt", "/tmp/b.txt"]).unwrap();
    assert!(!out.is_empty());
    assert!(out.contains("+"));
}

#[test]
fn minimal_script_removes_one_line() {
    let mut vfs = Vfs::new();
    vfs.write_file("/tmp/a.txt", "a\nb\nc").unwrap();
    vfs.write_file("/tmp/b.txt", "a\nc\nd").unwrap();
    let out = execute(&vfs, &["/tmp/a.txt", "/tmp/b.txt"]).unwrap();
    assert_eq!(out, "--- /tmp/a.txt\n+++ /tmp/b.txt\n@@ line 2 @@\n- b\n@@ line 3 @@\n+ d\n");
}
