use nexos::command::rev::execute;
use nexos::vfs::Vfs;

#[test]
fn reverse_lines() {
    let vfs = vfs_with_content("hello\nworld");
    let out = execute(&vfs, &["/tmp/f.txt"]).unwrap();
    assert_eq!(out, "olleh\ndlrow\n");
}

#[test]
fn rev_empty_file() {
    let vfs = vfs_with_content("");
    let out = execute(&vfs, &["/tmp/f.txt"]).unwrap();
    assert_eq!(out, "");
}

#[test]
fn rev_single_line() {
    let vfs = vfs_with_content("abc");
    let out = execute(&vfs, &["/tmp/f.txt"]).unwrap();
    assert_eq!(out, "cba\n");
}

#[test]
fn single_chars() {
    let vfs = vfs_with_content("a\nb");
    let out = execute(&vfs, &["/tmp/f.txt"]).unwrap();
    assert_eq!(out, "a\nb\n");
}

#[test]
fn unicode() {
    let vfs = vfs_with_content("abc");
    let out = execute(&vfs, &["/tmp/f.txt"]).unwrap();
    assert_eq!(out, "cba\n");
}

#[test]
fn rev_missing_file() {
    let vfs = Vfs::new();
    assert!(execute(&vfs, &[]).is_err());
}

#[test]
fn rev_too_many_args() {
    let vfs = Vfs::new();
    assert!(execute(&vfs, &["a", "b"]).is_err());
}

fn vfs_with_content(content: &str) -> Vfs {
    let mut vfs = Vfs::new();
    vfs.write_file("/tmp/f.txt", content).unwrap();
    vfs
}
