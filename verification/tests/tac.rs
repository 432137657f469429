use nexos::command::tac::execute;
use nexos::vfs::Vfs;

#[test]
fn reverse_line_order() {
    let vfs = vfs_with_content("a\nb\nc");
    let out = execute(&vfs, &["/tmp/f.txt"]).unwrap();
    assert_eq!(out, "c\nb\na\n");
}

#[test]
fn tac_empty_file() {
    let vfs = vfs_with_content("");
    let out = execute(&vfs, &["/tmp/f.txt"]).unwrap();
    assert_eq!(out, "");
}

#[test]
fn tac_single_line() {
    let vfs = vfs_with_content("only");
    let out = execute(&vfs, &["/tmp/f.txt"]).unwrap();
    assert_eq!(out, "only\n");
}

#[test]
fn two_lines() {
    let vfs = vfs_with_content("first\nsecond");
    let out = execute(&vfs, &["/tmp/f.txt"]).unwrap();
    assert_eq!(out, "second\nfirst\n");
}

#[test]
fn tac_missing_file() {
    let vfs = Vfs::new();
    assert!(execute(&vfs, &[]).is_err());
}

#[test]
fn tac_too_many_args() {
    let vfs = Vfs::new();
    assert!(execute(&vfs, &["a", "b"]).is_err());
}

fn vfs_with_content(content: &str) -> Vfs {
    let mut vfs = Vfs::new();
    vfs.write_file("/tmp/f.txt", content).unwrap();
    vfs
}
