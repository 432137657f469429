use nexos::command::printf::execute;

#[test]
fn plain_text() {
    let out = execute(&["hello"], &[]).unwrap();
    assert_eq!(out, "hello");
}

#[test]
fn string_specifier() {
    let out = execute(&["%s %s", "a", "b"], &[]).unwrap();
    assert_eq!(out, "a b");
}

#[test]
fn integer_specifier() {
    let out = execute(&["%d", "42"], &[]).unwrap();
    assert_eq!(out, "42");
}

#[test]
fn hex_specifier() {
    let out = execute(&["%x", "255"], &[]).unwrap();
    assert_eq!(out, "ff");
}

#[test]
fn octal_specifier() {
    let out = execute(&["%o", "8"], &[]).unwrap();
    assert_eq!(out, "10");
}

#[test]
fn literal_percent() {
    let out = execute(&["100%%"], &[]).unwrap();
    assert_eq!(out, "100%");
}

#[test]
fn escape_newline() {
    let out = execute(&["hello\\n"], &[]).unwrap();
    assert_eq!(out, "hello\n");
}

#[test]
fn escape_tab() {
    let out = execute(&["a\\tb"], &[]).unwrap();
    assert_eq!(out, "a\tb");
}

#[test]
fn escape_backslash() {
    let out = execute(&["a\\\\b"], &[]).unwrap();
    assert_eq!(out, "a\\b");
}

#[test]
fn missing_string_arg() {
    let out = execute(&["[%s]"], &[]).unwrap();
    assert_eq!(out, "[]");
}

#[test]
fn missing_int_arg() {
    let out = execute(&["[%d]"], &[]).unwrap();
    assert_eq!(out, "[0]");
}

#[test]
fn invalid_int_arg() {
    let out = execute(&["%d", "abc"], &[]).unwrap();
    assert_eq!(out, "0");
}

#[test]
fn printf_no_args() {
    assert!(execute(&[], &[]).is_err());
}

#[test]
fn mixed_specifiers() {
    let out = execute(&["%s=%d", "count", "7"], &[]).unwrap();
    assert_eq!(out, "count=7");
}

#[test]
fn float_specifier() {
    let out = execute(&["%f", "3.14"], &[format!("{}", "3.14".parse::<f64>().unwrap_or(0.0)).as_str()]).unwrap();
    assert_eq!(out, "3.14");
}
