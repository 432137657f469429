use nexos::command::paste::execute;
use nexos::vfs::Vfs;

#[test]
fn basic_merge() {
    let vfs = vfs_with_two("a\nb", "c\nd");
    let out = execute(&vfs, &["/tmp/a.txt", "/tmp/b.txt"]).unwrap();
    assert_eq!(out, "a\tc\nb\td\n");
}

#[test]
fn custom_delimiter() {
    let vfs = vfs_with_two("1\n2", "3\n4");
    let out = execute(&vfs, &["-d", ",", "/tmp/a.txt", "/tmp/b.txt"]).unwrap();
    assert_eq!(out, "1,3\n2,4\n");
}

#[test]
fn different_lengths() {
    let vfs = vfs_with_two("a\nb\nc", "x");
    let out = execute(&vfs, &["/tmp/a.txt", "/tmp/b.txt"]).unwrap();
    assert_eq!(out, "a\tx\nb\t\nc\t\n");
}

#[test]
fn three_files() {
    let vfs = vfs_with_three("a\nb", "c\nd", "e\nf");
    let out = execute(&vfs, &["/tmp/a.txt", "/tmp/b.txt", "/tmp/c.txt"]).unwrap();
    assert_eq!(out, "a\tc\te\nb\td\tf\n");
}

#[test]
fn paste_empty_files() {
    let vfs = vfs_with_two("", "");
    let out = execute(&vfs, &["/tmp/a.txt", "/tmp/b.txt"]).unwrap();
    assert_eq!(out, "");
}

#[test]
fn paste_missing_args() {
    let vfs = Vfs::new();
    assert!(execute(&vfs, &[]).is_err());
}

#[test]
fn single_file() {
    let vfs = Vfs::new();
    assert!(execute(&vfs, &["/tmp/a.txt"]).is_err());
}

#[test]
fn missing_d_value() {
    let vfs = Vfs::new();
    assert!(execute(&vfs, &["-d"]).is_err());
}

fn vfs_with_two(a: &str, b: &str) -> Vfs {
    let mut vfs = Vfs::new();
    vfs.write_file("/tmp/a.txt", a).unwrap();
    vfs.write_file("/tmp/b.txt", b).unwrap();
    vfs
}

fn vfs_with_three(a: &str, b: &str, c: &str) -> Vfs {
    let mut vfs = Vfs::new();
    vfs.write_file("/tmp/a.txt", a).unwrap();
    vfs.write_file("/tmp/b.txt", b).unwrap();
    vfs.write_file("/tmp/c.txt", c).unwrap();
    vfs
}
