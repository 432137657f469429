use nexos::command::echo::execute;

#[test]
fn no_args_prints_empty_line() {
    let out = execute(&[]).unwrap();
    assert_eq!(out, "\n");
}

#[test]
fn single_word() {
    let out = execute(&["hello"]).unwrap();
    assert_eq!(out, "hello\n");
}

#[test]
fn multiple_words() {
    let out = execute(&["hello", "world"]).unwrap();
    assert_eq!(out, "hello world\n");
}
