use nexos::changes::ChangeLog;
use nexos::shell::Shell;
use nexos::vfs::Vfs;

fn sorted(mut v: Vec<String>) -> Vec<String> {
    v.sort();
    v
}

#[test]
fn written_and_removed_files_are_recorded() {
    let mut sh = Shell::new(Vfs::new());
    let mut log = ChangeLog::new();
    let (out, err) = sh.run_line_noting("echo one > /home/user/a.txt && echo two > /home/user/b.txt", &mut log);
    assert_eq!((out.as_str(), err), ("", None));
    assert_eq!(sorted(log.dirty.clone()), vec!["/home/user/a.txt".to_string(), "/home/user/b.txt".to_string()]);
    assert!(log.deleted.is_empty());
    assert!(log.history);
    assert!(!log.env_vars);
    sh.run_line_noting("rm /home/user/a.txt", &mut log);
    assert_eq!(log.dirty, vec!["/home/user/b.txt".to_string()]);
    assert_eq!(log.deleted, vec!["/home/user/a.txt".to_string()]);
    sh.run_line_noting("echo again > /home/user/a.txt", &mut log);
    assert_eq!(sorted(log.dirty.clone()), vec!["/home/user/a.txt".to_string(), "/home/user/b.txt".to_string()]);
    assert!(log.deleted.is_empty());
}

#[test]
fn unchanged_files_and_env_are_not_recorded() {
    let mut sh = Shell::new(Vfs::new());
    let mut log = ChangeLog::new();
    sh.run_line_noting("   ", &mut log);
    assert!(!log.history);
    sh.run_line_noting("pwd", &mut log);
    assert!(log.dirty.is_empty() && log.deleted.is_empty());
    assert!(log.history);
    assert!(!log.env_vars);
    sh.run_line_noting("export EDITOR=vi", &mut log);
    assert!(log.env_vars);
}

#[test]
fn mark_all_then_clear() {
    let mut vfs = Vfs::new();
    vfs.write_file("/tmp/x", "1").unwrap();
    vfs.write_file("/home/user/y", "2").unwrap();
    let mut log = ChangeLog::new();
    log.mark_all(&vfs);
    assert_eq!(sorted(log.dirty.clone()), vec!["/home/user/y".to_string(), "/tmp/x".to_string()]);
    log.clear();
    assert!(log.dirty.is_empty() && log.deleted.is_empty() && !log.history && !log.env_vars);
}
