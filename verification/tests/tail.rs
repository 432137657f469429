use nexos::command::tail::execute;
use nexos::vfs::Vfs;

#[test]
fn tail_default_ten_lines() {
    let vfs = vfs_with_lines(20);
    let out = execute(&vfs, &["/tmp/f.txt"]).unwrap();
    // Should contain lines 11-20 but not line 10.
    assert!(out.contains("line11"));
    assert!(out.contains("line20"));
    assert!(!out.contains("line10"));
}

#[test]
fn tail_custom_count() {
    let vfs = vfs_with_lines(20);
    let out = execute(&vfs, &["-n", "3", "/tmp/f.txt"]).unwrap();
    // Last 3 lines of a 20-line file: lines 18, 19, 20.
    assert!(out.contains("line18"));
    assert!(out.contains("line20"));
}

#[test]
fn tail_compact_n_flag() {
    let vfs = vfs_with_lines(10);
    let out = execute(&vfs, &["-n2", "/tmp/f.txt"]).unwrap();
    // Compact flag "-n2" should behave the same as "-n 2".
    assert!(out.contains("line9"));
    assert!(out.contains("line10"));
}

#[test]
fn tail_file_shorter_than_count() {
    let vfs = vfs_with_lines(3);
    let out = execute(&vfs, &["-n", "10", "/tmp/f.txt"]).unwrap();
    // When the file has fewer lines than requested, all lines are returned.
    assert!(out.contains("line1"));
    assert!(out.contains("line3"));
}

#[test]
fn tail_missing_file() {
    let vfs = Vfs::new();
    // No arguments at all should produce an error.
    assert!(execute(&vfs, &[]).is_err());
}

#[test]
fn tail_invalid_count() {
    let vfs = Vfs::new();
    // A non-numeric value after -n should produce an error.
    assert!(execute(&vfs, &["-n", "abc", "/tmp/f.txt"]).is_err());
}

fn vfs_with_lines(n: usize) -> Vfs {
    let mut vfs = Vfs::new();
    let content: String = (1..=n)
        .map(|i| format!("line{}", i))
        .collect::<Vec<_>>()
        .join("\n");
    vfs.write_file("/tmp/f.txt", &content).unwrap();
    vfs
}
