use nexos::command::{groupadd, groups, id, su, useradd, download, upload, passwd, date};
use nexos::env::EnvVars;
use nexos::shell::Shell;
use nexos::users::UserDatabase;
use nexos::vfs::Vfs;

const PASSWD: &str = "root:x:0:0:root:/root:/bin/nexsh\nuser:x:1000:1000:user:/home/user:/bin/nexsh\n";
const GROUP: &str = "root:x:0:\nuser:x:1000:\nwheel:x:10:user\n";

fn vfs_with_accounts() -> Vfs {
    let mut vfs = Vfs::new();
    vfs.write_file("/etc/passwd", PASSWD).unwrap();
    vfs.write_file("/etc/group", GROUP).unwrap();
    vfs
}

#[test]
fn database_reads_accounts() {
    let vfs = vfs_with_accounts();
    let db = UserDatabase::from_vfs(&vfs);
    assert_eq!(db.uid_of_name("user"), Some(1000));
    assert_eq!(db.gid_of_name("wheel"), Some(10));
    assert_eq!(db.name_of_uid(0), Some("root".to_string()));
    assert_eq!(db.next_uid(), 1001);
    assert_eq!(db.next_gid(), 1001);
}

#[test]
fn groups_of_current_user() {
    let vfs = vfs_with_accounts();
    let db = UserDatabase::from_vfs(&vfs);
    assert_eq!(groups::execute("user", &db, &[]).unwrap(), "user wheel\n");
    assert_eq!(groups::execute("user", &db, &["root"]).unwrap(), "root\n");
    assert_eq!(groups::execute("user", &db, &["bob"]).unwrap_err(), "groups: 'bob': no such user");
}

#[test]
fn id_of_user() {
    let vfs = vfs_with_accounts();
    let db = UserDatabase::from_vfs(&vfs);
    assert_eq!(
        id::execute("user", &db, &[]).unwrap(),
        "uid=1000(user) gid=1000(user) groups=1000(user),10(wheel)\n"
    );
    assert_eq!(id::execute("user", &db, &["nobody"]).unwrap_err(), "id: 'nobody': no such user");
}

#[test]
fn groupadd_appends_group() {
    let mut vfs = vfs_with_accounts();
    let db = UserDatabase::from_vfs(&vfs);
    assert_eq!(groupadd::execute(&mut vfs, &["devs"], &db).unwrap(), "");
    assert_eq!(vfs.read_file("/etc/group").unwrap(), format!("{}devs:x:1001:\n", GROUP));
    let db = UserDatabase::from_vfs(&vfs);
    assert_eq!(groupadd::execute(&mut vfs, &["-g", "500", "ops"], &db).unwrap(), "");
    assert!(vfs.read_file("/etc/group").unwrap().ends_with("ops:x:500:\n"));
}

#[test]
fn groupadd_errors() {
    let mut vfs = vfs_with_accounts();
    let db = UserDatabase::from_vfs(&vfs);
    assert_eq!(groupadd::execute(&mut vfs, &[], &db).unwrap_err(), "groupadd: missing group name");
    assert_eq!(groupadd::execute(&mut vfs, &["a:b"], &db).unwrap_err(), "groupadd: invalid group name");
    assert_eq!(groupadd::execute(&mut vfs, &["wheel"], &db).unwrap_err(), "groupadd: group 'wheel' already exists");
    assert_eq!(groupadd::execute(&mut vfs, &["-g", "x", "g"], &db).unwrap_err(), "groupadd: invalid GID: 'x'");
    assert_eq!(groupadd::execute(&mut vfs, &["-g", "10", "g"], &db).unwrap_err(), "groupadd: GID '10' already in use");
}

#[test]
fn useradd_with_home() {
    let mut vfs = vfs_with_accounts();
    let db = UserDatabase::from_vfs(&vfs);
    assert_eq!(useradd::execute(&mut vfs, &["-m", "alice"], 0, 0, &db).unwrap(), "");
    assert!(vfs.read_file("/etc/passwd").unwrap().ends_with("alice:x:1001:1001:alice:/home/alice:/bin/nexsh\n"));
    assert!(vfs.read_file("/etc/group").unwrap().ends_with("alice:x:1001:alice\n"));
    assert!(vfs.is_dir("/home/alice"));
    assert_eq!(vfs.get_meta("/home/alice").unwrap().uid, 1001);
}

#[test]
fn useradd_joins_existing_group() {
    let mut vfs = vfs_with_accounts();
    let db = UserDatabase::from_vfs(&vfs);
    useradd::execute(&mut vfs, &["-g", "wheel", "-s", "/bin/sh", "bob"], 0, 0, &db).unwrap();
    assert!(vfs.read_file("/etc/passwd").unwrap().ends_with("bob:x:1001:10:bob:/home/bob:/bin/sh\n"));
    assert!(vfs.read_file("/etc/group").unwrap().contains("wheel:x:10:user,bob\n"));
    assert!(!vfs.exists_path("/home/bob"));
}

#[test]
fn useradd_errors() {
    let mut vfs = vfs_with_accounts();
    let db = UserDatabase::from_vfs(&vfs);
    assert_eq!(useradd::execute(&mut vfs, &[], 0, 0, &db).unwrap_err(), "useradd: missing username");
    assert_eq!(useradd::execute(&mut vfs, &["user"], 0, 0, &db).unwrap_err(), "useradd: user 'user' already exists");
    assert_eq!(
        useradd::execute(&mut vfs, &["-g", "nogroup", "carol"], 0, 0, &db).unwrap_err(),
        "useradd: group 'nogroup' does not exist"
    );
    let long = "x".repeat(33);
    assert_eq!(useradd::execute(&mut vfs, &[long.as_str()], 0, 0, &db).unwrap_err(), "useradd: invalid username");
}

#[test]
fn su_login_switches_identity_and_directory() {
    let mut sh = Shell::new(vfs_with_accounts());
    assert_eq!(su::execute(&mut sh, &["-"]).unwrap(), "");
    assert_eq!(sh.username, "root");
    assert_eq!(sh.uid, 0);
    assert_eq!(sh.vfs.cwd, "/root");
    assert_eq!(sh.env_vars.get("HOME"), Some("/root".to_string()));
    assert_eq!(sh.env_vars.get("USER"), Some("root".to_string()));
}

#[test]
fn su_without_login_keeps_directory() {
    let mut sh = Shell::new(vfs_with_accounts());
    su::execute(&mut sh, &["root"]).unwrap();
    assert_eq!(sh.vfs.cwd, "/home/user");
    assert_eq!(sh.env_vars.get("HOME"), None);
    assert_eq!(su::execute(&mut sh, &["ghost"]).unwrap_err(), "su: user 'ghost' does not exist");
}

#[test]
fn passwd_acknowledges() {
    assert_eq!(passwd::execute("user", &[]).unwrap(), "passwd: password for 'user' updated successfully\n");
}

#[test]
fn download_request() {
    let mut vfs = Vfs::new();
    vfs.write_file("/tmp/test.txt", "hello").unwrap();
    let (name, path) = download::execute(&vfs, &["/tmp/test.txt"]).unwrap();
    assert_eq!(name, "test.txt");
    assert_eq!(path, "/tmp/test.txt");
    assert_eq!(download::execute(&vfs, &[]).unwrap_err(), "download: missing file operand");
    assert_eq!(download::execute(&vfs, &["/tmp"]).unwrap_err(), "download: /tmp: Is a directory");
    assert_eq!(download::execute(&vfs, &["nope"]).unwrap_err(), "download: nope: No such file or directory");
}

#[test]
fn upload_destination() {
    let mut vfs = Vfs::new();
    assert_eq!(upload::execute(&vfs, &[]).unwrap(), "/home/user");
    vfs.write_file("/tmp/f", "x").unwrap();
    assert_eq!(upload::execute(&vfs, &["/tmp/f"]).unwrap_err(), "upload: /tmp/f: Not a directory");
    assert_eq!(upload::execute(&vfs, &["/no"]).unwrap_err(), "upload: /no: No such file or directory");
}

#[test]
fn env_lists_sorted() {
    let mut e = EnvVars::new();
    e.insert("Z", "1");
    e.insert("A", "2");
    e.insert("Z", "3");
    assert_eq!(nexos::command::env::execute(&e).unwrap(), "A=2\nZ=3\n");
    assert_eq!(e.len(), 2);
}

#[test]
fn date_prints_given_clock() {
    assert_eq!(date::execute("now").unwrap(), "now\n");
}
