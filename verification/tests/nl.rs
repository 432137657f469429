use nexos::command::nl::execute;
use nexos::vfs::Vfs;

#[test]
fn number_lines() {
    let vfs = vfs_with_content("a\nb\nc");
    let out = execute(&vfs, &["/tmp/f.txt"]).unwrap();
    assert_eq!(out, "     1\ta\n     2\tb\n     3\tc\n");
}

#[test]
fn nl_empty_file() {
    let vfs = vfs_with_content("");
    let out = execute(&vfs, &["/tmp/f.txt"]).unwrap();
    assert_eq!(out, "");
}

#[test]
fn nl_single_line() {
    let vfs = vfs_with_content("hello");
    let out = execute(&vfs, &["/tmp/f.txt"]).unwrap();
    assert_eq!(out, "     1\thello\n");
}

#[test]
fn nl_missing_file() {
    let vfs = Vfs::new();
    assert!(execute(&vfs, &[]).is_err());
}

#[test]
fn nl_too_many_args() {
    let vfs = Vfs::new();
    assert!(execute(&vfs, &["a", "b"]).is_err());
}

fn vfs_with_content(content: &str) -> Vfs {
    let mut vfs = Vfs::new();
    vfs.write_file("/tmp/f.txt", content).unwrap();
    vfs
}
