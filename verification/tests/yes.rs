use nexos::command::yes::{execute, DEFAULT_MAX_LINES};

#[test]
fn default_y() {
    let out = execute(&["-n", "3"]).unwrap();
    assert_eq!(out, "y\ny\ny\n");
}

#[test]
fn custom_string() {
    let out = execute(&["-n", "2", "hello"]).unwrap();
    assert_eq!(out, "hello\nhello\n");
}

#[test]
fn multi_word_string() {
    let out = execute(&["-n", "1", "hello", "world"]).unwrap();
    assert_eq!(out, "hello world\n");
}

#[test]
fn zero_count() {
    let out = execute(&["-n", "0"]).unwrap();
    assert_eq!(out, "");
}

#[test]
fn yes_invalid_count() {
    assert!(execute(&["-n", "abc"]).is_err());
}

#[test]
fn missing_n_value() {
    assert!(execute(&["-n"]).is_err());
}

#[test]
fn without_n_flag_caps_at_default() {
    let out = execute(&[]).unwrap();
    let lines: Vec<&str> = out.lines().collect();
    assert_eq!(lines.len(), DEFAULT_MAX_LINES);
    assert!(lines.iter().all(|l| *l == "y"));
}

#[test]
fn string_without_n() {
    let out = execute(&["ok"]).unwrap();
    let lines: Vec<&str> = out.lines().collect();
    assert_eq!(lines.len(), DEFAULT_MAX_LINES);
    assert!(lines.iter().all(|l| *l == "ok"));
}
