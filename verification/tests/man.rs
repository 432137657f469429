use nexos::command::man::execute;
use nexos::command::Registry;

#[test]
fn known_command_has_synopsis() {
    let registry = test_registry();
    let out = execute(&registry, &["ls"]).unwrap();
    assert!(out.contains("LS(1)"));
    assert!(out.contains("SYNOPSIS"));
    assert!(out.contains("NAME"));
    assert!(out.contains("DESCRIPTION"));
}

#[test]
fn unknown_command() {
    let registry = test_registry();
    let out = execute(&registry, &["nonexistent"]).unwrap();
    assert!(out.contains("no entry"));
}

#[test]
fn man_missing_args() {
    let registry = test_registry();
    assert!(execute(&registry, &[]).is_err());
}

#[test]
fn all_commands_have_pages() {
    let registry = test_registry();
    let commands = [
        "ls", "cd", "pwd", "mkdir", "touch", "rm", "cat", "echo", "cp", "mv", "tree", "head",
        "tail", "grep", "find", "sort", "uniq", "wc", "diff", "du", "tr", "cut", "tee", "ln",
        "chmod", "chown", "whoami", "hostname", "date", "history", "clear", "help", "man",
        "basename", "dirname",
    ];
    for cmd in &commands {
        let out = execute(&registry, &[cmd]).unwrap();
        assert!(
            !out.contains("no entry"),
            "Missing man page for: {}",
            cmd
        );
    }
}

#[test]
fn examples_appear_when_present() {
    let registry = test_registry();
    let out = execute(&registry, &["ls"]).unwrap();
    assert!(out.contains("EXAMPLES"));
}

#[test]
fn no_examples_section_when_empty() {
    let registry = test_registry();
    let out = execute(&registry, &["pwd"]).unwrap();
    assert!(!out.contains("EXAMPLES"));
}

fn test_registry() -> Registry {
    Registry::new()
}
