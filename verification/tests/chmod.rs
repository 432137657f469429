use nexos::command::chmod::execute;
use nexos::vfs::Vfs;

#[test]
fn chmod_octal_as_root() {
    let mut vfs = Vfs::new();
    vfs.touch("/tmp/f.txt").unwrap();
    let out = execute(&mut vfs, &["755", "/tmp/f.txt"], 0).unwrap();
    assert!(out.is_empty());
    assert_eq!(vfs.get_meta("/tmp/f.txt").unwrap().mode, 0o755);
}

#[test]
fn chmod_symbolic_as_root() {
    let mut vfs = Vfs::new();
    vfs.touch("/tmp/f.txt").unwrap();
    let out = execute(&mut vfs, &["+x", "/tmp/f.txt"], 0).unwrap();
    assert!(out.is_empty());
    // 644 + x for all = 755
    assert_eq!(vfs.get_meta("/tmp/f.txt").unwrap().mode, 0o755);
}

#[test]
fn chmod_denied_for_non_owner() {
    let mut vfs = Vfs::new();
    vfs.touch("/tmp/f.txt").unwrap();
    // Set owner to 1000
    { let mut m = vfs.get_meta("/tmp/f.txt").unwrap(); m.uid = 1000; vfs.set_meta("/tmp/f.txt", m); }
    // Try as uid 2000 (not owner, not root)
    let out = execute(&mut vfs, &["777", "/tmp/f.txt"], 2000).unwrap();
    assert!(out.contains("Operation not permitted"));
    // Mode unchanged
    assert_eq!(vfs.get_meta("/tmp/f.txt").unwrap().mode, 0o644);
}

#[test]
fn chmod_nonexistent_file() {
    let mut vfs = Vfs::new();
    let out = execute(&mut vfs, &["755", "/nonexistent"], 0).unwrap();
    assert!(out.contains("No such file or directory"));
}

#[test]
fn chmod_missing_operand() {
    let mut vfs = Vfs::new();
    assert!(execute(&mut vfs, &[], 0).is_err());
}
