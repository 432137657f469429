use nexos::shell::Shell;
use nexos::vfs::Vfs;

fn shell() -> Shell {
    Shell::new(Vfs::new())
}

#[test]
fn blank_line_prints_nothing_and_is_not_recorded() {
    let mut sh = shell();
    assert_eq!(sh.execute("   "), "");
    assert!(sh.get_history().is_empty());
}

#[test]
fn line_is_recorded_trimmed() {
    let mut sh = shell();
    sh.execute("  pwd  ");
    assert_eq!(sh.get_history().len(), 1);
    assert_eq!(sh.get_history()[0], "pwd");
}

#[test]
fn pwd_prints_home() {
    let mut sh = shell();
    assert_eq!(sh.execute("pwd"), "/home/user\n");
}

#[test]
fn shell_unknown_command() {
    let mut sh = shell();
    assert_eq!(sh.execute("frobnicate"), "command not found: frobnicate\n");
}

#[test]
fn echo_redirect_then_cat() {
    let mut sh = shell();
    assert_eq!(sh.execute("echo hello > /tmp/a.txt"), "");
    assert_eq!(sh.vfs.read_file("/tmp/a.txt").unwrap(), "hello\n");
    assert_eq!(sh.execute("cat /tmp/a.txt"), "hello\n");
}

#[test]
fn append_redirect() {
    let mut sh = shell();
    sh.execute("echo one > /tmp/a.txt");
    sh.execute("echo two >> /tmp/a.txt");
    assert_eq!(sh.vfs.read_file("/tmp/a.txt").unwrap(), "one\ntwo\n");
}

#[test]
fn redirect_without_spaces() {
    let mut sh = shell();
    sh.execute("echo hi>/tmp/b.txt");
    assert_eq!(sh.vfs.read_file("/tmp/b.txt").unwrap(), "hi\n");
}

#[test]
fn pipe_feeds_file_reading_command() {
    let mut sh = shell();
    sh.execute("echo b > /tmp/l.txt");
    sh.execute("echo a >> /tmp/l.txt");
    assert_eq!(sh.execute("cat /tmp/l.txt | sort"), "a\nb\n");
}

#[test]
fn pipe_into_tr_reads_stdin() {
    let mut sh = shell();
    assert_eq!(sh.execute("echo hello | tr l L"), "heLLo\n");
}

#[test]
fn and_chain_runs_in_order() {
    let mut sh = shell();
    assert_eq!(sh.execute("mkdir /tmp/d && cd /tmp/d && pwd"), "/tmp/d\n");
}

#[test]
fn and_chain_stops_at_first_failure() {
    let mut sh = shell();
    let out = sh.execute("cd /nowhere && pwd");
    assert_eq!(out, "cd: /nowhere: No such file or directory\n");
}

#[test]
fn quoted_pipe_is_not_a_stage_separator() {
    let mut sh = shell();
    assert_eq!(sh.execute("echo 'a|b'"), "'a|b'\n");
}

#[test]
fn history_lists_lines() {
    let mut sh = shell();
    sh.execute("pwd");
    assert_eq!(sh.execute("history"), "    1  pwd\n    2  history\n");
}

#[test]
fn export_then_env() {
    let mut sh = shell();
    sh.execute("export B=2 A=1");
    assert_eq!(sh.execute("env"), "A=1\nB=2\n");
}

#[test]
fn whoami_and_hostname() {
    let mut sh = shell();
    assert_eq!(sh.execute("whoami"), "user\n");
    assert_eq!(sh.execute("hostname"), "web-code\n");
}

#[test]
fn date_prints_clock_text() {
    let mut sh = shell();
    sh.clock = "2024-01-02T03:04:05.000Z".to_string();
    assert_eq!(sh.execute("date"), "2024-01-02T03:04:05.000Z\n");
}

#[test]
fn prompt_shows_user_host_and_directory() {
    let sh = shell();
    assert_eq!(sh.get_prompt(), "\x1b[1;32muser@web-code:\x1b[1;34m/home/user\x1b[0m$ ");
}

#[test]
fn completions_follow_builtin_list_order() {
    let sh = shell();
    assert_eq!(sh.get_completions("c"), vec!["cd", "cat", "cp", "clear"]);
    assert_eq!(sh.get_completions("h"), vec!["help", "head", "hostname", "history"]);
    assert!(sh.get_completions("zz").is_empty());
    assert_eq!(sh.get_completions("").len(), 25);
}

#[test]
fn redirect_into_missing_directory_fails() {
    let mut sh = shell();
    let out = sh.execute("echo x > /nope/f.txt");
    assert!(out.ends_with('\n'));
    assert!(out.contains("No such file or directory"));
}

#[test]
fn clear_sends_escape_sequence() {
    let mut sh = shell();
    assert_eq!(sh.execute("clear"), "\x1b[2J\x1b[H");
}

#[test]
fn exit_prints_nothing() {
    let mut sh = shell();
    assert_eq!(sh.execute("exit"), "");
}

#[test]
fn wc_counts_piped_lines() {
    let mut sh = shell();
    sh.execute("echo a > /tmp/w.txt");
    sh.execute("echo b >> /tmp/w.txt");
    let out = sh.execute("cat /tmp/w.txt | wc -l");
    assert!(out.contains('2'));
}

#[test]
fn apply_saved_restores_session() {
    let mut sh = shell();
    sh.apply_saved(
        Some(vec!["ls".to_string(), "pwd".to_string()]),
        Some(vec![("EDITOR".to_string(), "vi".to_string()), ("USER".to_string(), "mallory".to_string())]),
        Some("box".to_string()),
    );
    assert_eq!(sh.history, vec!["ls".to_string(), "pwd".to_string()]);
    assert_eq!(sh.env_vars.get("EDITOR"), Some("vi".to_string()));
    assert_eq!(sh.env_vars.get("USER"), Some("user".to_string()));
    assert_eq!(sh.hostname, "box");
    assert_eq!(sh.env_vars.get("HOSTNAME"), Some("box".to_string()));
}

#[test]
fn apply_saved_skips_missing_fields() {
    let mut sh = shell();
    sh.execute("pwd");
    sh.apply_saved(None, None, None);
    assert_eq!(sh.history, vec!["pwd".to_string()]);
    assert_eq!(sh.hostname, "web-code");
    assert_eq!(sh.env_vars.get("USER"), None);
    assert_eq!(sh.env_vars.get("HOSTNAME"), None);
}

#[test]
fn run_line_keeps_error_apart() {
    let mut sh = shell();
    let (out, err) = sh.run_line("echo hi && nosuch && echo never");
    assert_eq!(out, "hi\n");
    assert_eq!(err, Some("command not found: nosuch".to_string()));
    let (out, err) = sh.run_line("echo a && echo b");
    assert_eq!((out.as_str(), err), ("a\nb\n", None));
    let mut sh2 = shell();
    assert_eq!(sh2.execute("echo hi && nosuch"), "hi\ncommand not found: nosuch\n");
}
