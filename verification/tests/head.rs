use nexos::command::head::execute;
use nexos::vfs::Vfs;

#[test]
fn head_default_ten_lines() {
    let vfs = vfs_with_lines(20);
    let out = execute(&vfs, &["/tmp/f.txt"]).unwrap();
    assert!(out.contains("line1"));
    assert!(out.contains("line10"));
    assert!(!out.contains("line11"));
}

#[test]
fn head_custom_count() {
    let vfs = vfs_with_lines(20);
    let out = execute(&vfs, &["-n", "3", "/tmp/f.txt"]).unwrap();
    assert!(out.contains("line1"));
    assert!(out.contains("line3"));
    assert!(!out.contains("line4"));
}

#[test]
fn head_compact_n_flag() {
    let vfs = vfs_with_lines(20);
    let out = execute(&vfs, &["-n5", "/tmp/f.txt"]).unwrap();
    assert!(out.contains("line5"));
    assert!(!out.contains("line6"));
}

#[test]
fn head_file_shorter_than_count() {
    let vfs = vfs_with_lines(3);
    let out = execute(&vfs, &["-n", "10", "/tmp/f.txt"]).unwrap();
    assert!(out.contains("line3"));
}

#[test]
fn head_missing_file() {
    let vfs = Vfs::new();
    assert!(execute(&vfs, &[]).is_err());
}

#[test]
fn head_invalid_count() {
    let vfs = Vfs::new();
    assert!(execute(&vfs, &["-n", "abc", "/tmp/f.txt"]).is_err());
}

fn vfs_with_lines(n: usize) -> Vfs {
    let mut vfs = Vfs::new();
    let content: String = (1..=n)
        .map(|i| format!("line{}", i))
        .collect::<Vec<_>>()
        .join("\n");
    vfs.write_file("/tmp/f.txt", &content).unwrap();
    vfs
}
