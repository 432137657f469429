use nexos::command::sort::execute;
use nexos::vfs::Vfs;

#[test]
fn basic_sort() {
    let vfs = vfs_with_lines(&["banana", "apple", "cherry"]);
    let out = execute(&vfs, &["/tmp/f.txt"]).unwrap();
    let lines: Vec<&str> = out.lines().collect();
    assert_eq!(lines[0], "apple");
    assert_eq!(lines[1], "banana");
    assert_eq!(lines[2], "cherry");
}

#[test]
fn reverse_sort() {
    let vfs = vfs_with_lines(&["banana", "apple"]);
    let out = execute(&vfs, &["-r", "/tmp/f.txt"]).unwrap();
    let lines: Vec<&str> = out.lines().collect();
    assert_eq!(lines[0], "banana");
    assert_eq!(lines[1], "apple");
}

#[test]
fn sort_single_line() {
    let vfs = vfs_with_lines(&["only"]);
    let out = execute(&vfs, &["/tmp/f.txt"]).unwrap();
    assert_eq!(out.trim(), "only");
}

#[test]
fn sort_empty_file() {
    let mut vfs = Vfs::new();
    vfs.write_file("/tmp/empty.txt", "").unwrap();
    let out = execute(&vfs, &["/tmp/empty.txt"]).unwrap();
    // Should not crash; output may be empty or a single newline
    let _ = out;
}

#[test]
fn sort_missing_file() {
    let vfs = Vfs::new();
    assert!(execute(&vfs, &[]).is_err());
}

#[test]
fn sort_too_many_args() {
    let vfs = Vfs::new();
    assert!(execute(&vfs, &["a.txt", "b.txt"]).is_err());
}

fn vfs_with_lines(lines: &[&str]) -> Vfs {
    let mut vfs = Vfs::new();
    vfs.write_file("/tmp/f.txt", &lines.join("\n")).unwrap();
    vfs
}
