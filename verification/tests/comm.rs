use nexos::command::comm::execute;
use nexos::vfs::Vfs;

#[test]
fn three_column_output() {
    let vfs = vfs_with_two("a\nb\nc", "b\nc\nd");
    let out = execute(&vfs, &["/tmp/a.txt", "/tmp/b.txt"]).unwrap();
    // col1: "a", col3: "b", col3: "c", col2: "d"
    let lines: Vec<&str> = out.lines().collect();
    assert_eq!(lines[0], "a"); // col1: no prefix
    assert_eq!(lines[1], "\t\tb"); // col3: two tabs
    assert_eq!(lines[2], "\t\tc"); // col3: two tabs
    assert_eq!(lines[3], "\td"); // col2: one tab
}

#[test]
fn suppress_col1_and_col2() {
    let vfs = vfs_with_two("a\nb\nc", "b\nc\nd");
    let out = execute(&vfs, &["-1", "-2", "/tmp/a.txt", "/tmp/b.txt"]).unwrap();
    let lines: Vec<&str> = out.lines().collect();
    assert_eq!(lines, vec!["\t\tb", "\t\tc"]);
}

#[test]
fn suppress_col3() {
    let vfs = vfs_with_two("a\nb\nc", "b\nc\nd");
    let out = execute(&vfs, &["-3", "/tmp/a.txt", "/tmp/b.txt"]).unwrap();
    let lines: Vec<&str> = out.lines().collect();
    assert_eq!(lines, vec!["a", "\td"]);
}

#[test]
fn identical_files() {
    let vfs = vfs_with_two("a\nb", "a\nb");
    let out = execute(&vfs, &["/tmp/a.txt", "/tmp/b.txt"]).unwrap();
    let lines: Vec<&str> = out.lines().collect();
    assert_eq!(lines, vec!["\t\ta", "\t\tb"]);
}

#[test]
fn disjoint_files() {
    let vfs = vfs_with_two("a\nb", "c\nd");
    let out = execute(&vfs, &["/tmp/a.txt", "/tmp/b.txt"]).unwrap();
    let lines: Vec<&str> = out.lines().collect();
    assert_eq!(lines, vec!["a", "b", "\tc", "\td"]);
}

#[test]
fn comm_empty_files() {
    let vfs = vfs_with_two("", "");
    let out = execute(&vfs, &["/tmp/a.txt", "/tmp/b.txt"]).unwrap();
    assert_eq!(out, "");
}

#[test]
fn comm_missing_args() {
    let vfs = Vfs::new();
    assert!(execute(&vfs, &[]).is_err());
}

#[test]
fn only_one_file() {
    let vfs = Vfs::new();
    assert!(execute(&vfs, &["/tmp/a.txt"]).is_err());
}

#[test]
fn suppress_all() {
    let vfs = vfs_with_two("a\nb", "a\nb");
    let out = execute(&vfs, &["-1", "-2", "-3", "/tmp/a.txt", "/tmp/b.txt"]).unwrap();
    assert_eq!(out, "");
}

fn vfs_with_two(a: &str, b: &str) -> Vfs {
    let mut vfs = Vfs::new();
    vfs.write_file("/tmp/a.txt", a).unwrap();
    vfs.write_file("/tmp/b.txt", b).unwrap();
    vfs
}
