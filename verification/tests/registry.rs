use nexos::command::{Command, CommandKind, Registry};
use nexos::command::help;
use nexos::command::ls::LsCommand;

#[test]
fn get_finds_registered_command() {
    let r = Registry::new();
    assert_eq!(r.get("ls"), Some(CommandKind::Ls));
    assert_eq!(r.get("nope"), None);
}

#[test]
fn all_commands_lists_registration_order() {
    let r = Registry::new();
    let all = r.all_commands();
    assert_eq!(all[0], CommandKind::Ls);
    assert_eq!(all[1], CommandKind::Cd);
    assert_eq!(all.len(), 38);
    assert_eq!(all[37], CommandKind::Exit);
    assert!(!all.iter().any(|k| k.name() == "sudo"));
}

#[test]
fn completions_by_prefix() {
    let r = Registry::new();
    assert_eq!(r.completions("gr"), vec!["grep"]);
    assert_eq!(r.completions("c"), vec!["cd", "cp", "cat", "cut", "chmod", "chown", "clear"]);
    assert_eq!(r.completions("").len(), 38);
}

#[test]
fn default_is_new() {
    let r = Registry::default();
    assert_eq!(r.all_commands().len(), Registry::new().all_commands().len());
}

#[test]
fn help_lists_sorted_commands() {
    let r = Registry::new();
    let out = help::execute(&r);
    assert!(out.starts_with("Available commands:\n"));
    let a = out.find("  basename").unwrap();
    let b = out.find("  cat").unwrap();
    let c = out.find("  whoami").unwrap();
    assert!(!out.contains("  yes"));
    assert!(a < b && b < c);
    assert!(out.contains(&format!("  {:12} {}\n", "ls", "List directory contents (-l for long format)")));
}

#[test]
fn command_metadata() {
    assert_eq!(LsCommand.name(), "ls");
    assert!(!LsCommand.accepts_stdin());
    assert_eq!(CommandKind::Cat.accepts_stdin(), true);
    assert_eq!(CommandKind::Pwd.examples().len(), 0);
    assert_eq!(CommandKind::Ls.synopsis(), LsCommand.synopsis());
}
