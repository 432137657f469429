use nexos::command::export::execute;
use nexos::env::EnvVars;

#[test]
fn set_variable() {
    let mut env = EnvVars::new();
    execute(&mut env, &["FOO=bar"]).unwrap();
    assert_eq!(env.get("FOO").unwrap(), "bar");
}

#[test]
fn value_with_equals() {
    let mut env = EnvVars::new();
    execute(&mut env, &["KEY=val=ue"]).unwrap();
    assert_eq!(env.get("KEY").unwrap(), "val=ue");
}

#[test]
fn key_without_value() {
    let mut env = EnvVars::new();
    execute(&mut env, &["EMPTY"]).unwrap();
    assert_eq!(env.get("EMPTY").unwrap(), "");
}

#[test]
fn no_args_lists_all() {
    let mut env = EnvVars::new();
    env.insert("A", "1");
    env.insert("B", "2");
    let out = execute(&mut env, &[]).unwrap();
    assert!(out.contains("A"));
    assert!(out.contains("B"));
    assert!(out.contains("declare -x"));
}

#[test]
fn list_is_sorted() {
    let mut env = EnvVars::new();
    env.insert("Z", "1");
    env.insert("A", "2");
    let out = execute(&mut env, &[]).unwrap();
    let pos_a = out.find("A").unwrap();
    let pos_z = out.find("Z").unwrap();
    assert!(pos_a < pos_z);
}

#[test]
fn multiple_exports() {
    let mut env = EnvVars::new();
    execute(&mut env, &["X=1", "Y=2"]).unwrap();
    assert_eq!(env.get("X").unwrap(), "1");
    assert_eq!(env.get("Y").unwrap(), "2");
}
