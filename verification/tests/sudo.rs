use nexos::command::{sudo, Command, CommandContext, CommandKind, Registry};
use nexos::env::EnvVars;
use nexos::vfs::{Meta, Vfs};

const PASSWD: &str = "root:x:0:0:root:/root:/bin/nexsh\nuser:x:1000:1000:user:/home/user:/bin/nexsh\nalice:x:1001:1001:alice:/home/alice:/bin/nexsh\n";

fn vfs_with_sudoers(rules: &str) -> Vfs {
    let mut vfs = Vfs::new();
    vfs.write_file("/etc/passwd", PASSWD).unwrap();
    if !rules.is_empty() {
        vfs.write_file("/etc/sudoers", rules).unwrap();
    }
    vfs
}

/// Run `sudo` as `user` (uid 1000); the result, and the context's uid,
/// user name and argument count afterwards.
fn run_sudo(vfs: &mut Vfs, args: &[&str]) -> (Result<String, String>, u32, String, usize) {
    let mut env = EnvVars::new();
    let reg = Registry::new();
    let mut ctx = CommandContext {
        vfs,
        stdin: "",
        args,
        username: "user",
        hostname: "web-code",
        history: &[],
        env_vars: &mut env,
        registry: &reg,
        uid: 1000,
        gid: 1000,
        clock: "",
    };
    let r = sudo::execute(&mut ctx);
    (r, ctx.uid, ctx.username.to_string(), ctx.args.len())
}

#[test]
fn sudo_runs_as_root() {
    let mut vfs = vfs_with_sudoers("user ALL=(ALL) NOPASSWD: ALL\n");
    let (r, uid, user, n) = run_sudo(&mut vfs, &["whoami"]);
    assert_eq!(r, Ok("root\n".to_string()));
    assert_eq!((uid, user.as_str(), n), (1000, "user", 1));
}

#[test]
fn sudo_runs_as_named_user() {
    let mut vfs = vfs_with_sudoers("user ALL=(ALL) NOPASSWD: ALL\n");
    let (r, uid, _, _) = run_sudo(&mut vfs, &["-u", "alice", "whoami"]);
    assert_eq!(r, Ok("alice\n".to_string()));
    assert_eq!(uid, 1000);
}

#[test]
fn sudo_elevation_reaches_the_file_system() {
    let mut vfs = vfs_with_sudoers("user ALL=(ALL) NOPASSWD: ALL\n");
    vfs.write_file("/etc/secret", "s3\n").unwrap();
    vfs.set_meta("/etc/secret", Meta { mode: 0o600, uid: 0, gid: 0, mtime: 0 });
    let (r, _, _, _) = run_sudo(&mut vfs, &["cat", "/etc/secret"]);
    assert_eq!(r, Ok("s3\n".to_string()));
    // Without sudo the file cannot be read.
    let mut env = EnvVars::new();
    let reg = Registry::new();
    let mut ctx = CommandContext {
        vfs: &mut vfs,
        stdin: "",
        args: &["/etc/secret"],
        username: "user",
        hostname: "web-code",
        history: &[],
        env_vars: &mut env,
        registry: &reg,
        uid: 1000,
        gid: 1000,
        clock: "",
    };
    assert!(CommandKind::Cat.execute(&mut ctx).is_err());
}

#[test]
fn sudo_refuses_user_without_rule() {
    let mut vfs = vfs_with_sudoers("");
    let (r, _, _, _) = run_sudo(&mut vfs, &["whoami"]);
    assert_eq!(r, Err("sudo: user is not in the sudoers file".to_string()));
}

#[test]
fn sudo_refuses_rule_with_password() {
    let mut vfs = vfs_with_sudoers("user ALL=(ALL) ALL\n");
    let (r, _, _, _) = run_sudo(&mut vfs, &["whoami"]);
    assert_eq!(r, Err("sudo: password required (NOPASSWD sudoers entry not found)".to_string()));
}

#[test]
fn sudo_rule_for_one_command() {
    let rules = "user ALL=(ALL) NOPASSWD: cat\n";
    let mut vfs = vfs_with_sudoers(rules);
    let (r, _, _, _) = run_sudo(&mut vfs, &["cat", "/etc/sudoers"]);
    assert_eq!(r, Ok(rules.to_string()));
    let (r, _, _, _) = run_sudo(&mut vfs, &["whoami"]);
    assert_eq!(r, Err("sudo: user is not in the sudoers file".to_string()));
}

#[test]
fn sudo_option_errors() {
    let mut vfs = vfs_with_sudoers("user ALL=(ALL) NOPASSWD: ALL\n");
    assert_eq!(run_sudo(&mut vfs, &["-u"]).0, Err("sudo: option '-u' requires an argument".to_string()));
    assert_eq!(run_sudo(&mut vfs, &[]).0, Err("sudo: missing command".to_string()));
    assert_eq!(run_sudo(&mut vfs, &["-u", "bob", "whoami"]).0, Err("sudo: unknown user: 'bob'".to_string()));
    assert_eq!(run_sudo(&mut vfs, &["frobnicate"]).0, Err("sudo: command not found: frobnicate".to_string()));
}

#[test]
fn sudo_metadata() {
    assert_eq!(sudo::SudoCommand.name(), "sudo");
    assert_eq!(CommandKind::Sudo.synopsis(), "sudo [-u user] command [args...]");
    assert_eq!(CommandKind::Sudo.examples().len(), 3);
    assert!(!CommandKind::Sudo.accepts_stdin());
}
