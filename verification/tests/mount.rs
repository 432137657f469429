use nexos::command::mount::{execute, Mounts, MountCommand};
use nexos::vfs::Vfs;

#[test]
fn mount_list_empty() {
    let mut vfs = Vfs::new();
    let mut mounts = Mounts::new();
    let (out, act) = execute(&mut vfs, &mut mounts, &[]).unwrap();
    assert!(out.contains("No directories mounted"));
    assert_eq!(act, None);
}

#[test]
fn mount_request_returns_marker() {
    let mut vfs = Vfs::new();
    let mut mounts = Mounts::new();
    let (out, act) = execute(&mut vfs, &mut mounts, &["/mnt/test"]).unwrap();
    assert_eq!(out, "");
    assert!(act.is_some());
    assert!(act.unwrap().contains("mount_request:/mnt/test"));
    assert!(vfs.exists_path("/mnt/test"));
    assert!(vfs.is_dir("/mnt"));
    assert!(mounts.is_mounted("/mnt/test"));
}

#[test]
fn mount_unmount() {
    let mut vfs = Vfs::new();
    let mut mounts = Mounts::new();
    mounts.add("/mnt/host", "host");
    vfs.mkdir("/mnt").unwrap();
    vfs.mkdir("/mnt/host").unwrap();
    let (out, _) = execute(&mut vfs, &mut mounts, &["-u", "/mnt/host"]).unwrap();
    assert!(out.contains("Unmounted"));
    assert_eq!(out, "Unmounted /mnt/host\n");
    assert!(!mounts.is_mounted("/mnt/host"));
}

#[test]
fn mount_unmount_not_mounted() {
    let mut vfs = Vfs::new();
    let mut mounts = Mounts::new();
    let err = execute(&mut vfs, &mut mounts, &["-u", "/mnt/nope"]).unwrap_err();
    assert!(err.contains("not mounted"));
    assert_eq!(err, "mount: /mnt/nope is not mounted");
    assert_eq!(execute(&mut vfs, &mut mounts, &["-u"]).unwrap_err(), "mount: missing path for -u");
}

#[test]
fn mount_lists_after_mount() {
    let mut vfs = Vfs::new();
    let mut mounts = Mounts::new();
    mounts.add("/mnt/a", "dir_a");
    mounts.add("/mnt/b", "dir_b");
    let (out, _) = execute(&mut vfs, &mut mounts, &[]).unwrap();
    assert!(out.contains("/mnt/a -> dir_a"));
    assert!(out.contains("/mnt/b -> dir_b"));
    assert_eq!(out, "Mounted directories:\n  /mnt/a -> dir_a\n  /mnt/b -> dir_b\n");
}

#[test]
fn mount_relative_path_and_remount() {
    let mut vfs = Vfs::new();
    let mut mounts = Mounts::new();
    let (_, act) = execute(&mut vfs, &mut mounts, &["proj"]).unwrap();
    assert_eq!(act, Some("mount_request:/home/user/proj".to_string()));
    assert!(vfs.is_dir("/home/user/proj"));
    execute(&mut vfs, &mut mounts, &["--unmount", "proj"]).unwrap();
    assert!(mounts.list().is_empty());
    assert_eq!(MountCommand.synopsis(), "mount [-u] [path]");
}
