use nexos::command::tr::execute;

#[test]
fn basic_translation() {
    let out = execute("hello", &["h", "H"]).unwrap();
    assert_eq!(out, "Hello");
}

#[test]
fn translate_multiple_chars() {
    let out = execute("abc", &["a", "x"]).unwrap();
    assert_eq!(out, "xbc");
}

#[test]
fn translate_with_no_match() {
    // Characters not in set1 should pass through unchanged.
    let out = execute("hello", &["z", "X"]).unwrap();
    assert_eq!(out, "hello");
}

#[test]
fn escape_newline_in_set() {
    // \n in set1 should match actual newline characters in the input.
    let out = execute("a\nb", &["\\n", "X"]).unwrap();
    assert_eq!(out, "aXb");
}

#[test]
fn escape_tab_in_set() {
    let out = execute("a\tb", &["\\t", " "]).unwrap();
    assert_eq!(out, "a b");
}

#[test]
fn escape_backslash_in_set() {
    // \\\\ in the Rust string literal produces \\, which parse_char_set
    // interprets as a single literal backslash character.
    let out = execute("a\\b", &["\\\\", "/"]).unwrap();
    assert_eq!(out, "a/b");
}

#[test]
fn set1_longer_than_set2_maps_to_last() {
    // When set1 has more characters than set2, extra positions in set1
    // all map to the last character of set2.
    let out = execute("abcde", &["abcde", "XY"]).unwrap();
    assert_eq!(out, "XYYYY");
}

#[test]
fn missing_args_returns_error() {
    // tr requires exactly 2 set arguments.
    assert!(execute("hello", &[]).is_err());
    assert!(execute("hello", &["a"]).is_err());
}

#[test]
fn empty_set1_returns_error() {
    // set1 must contain at least one character to define the mapping.
    assert!(execute("hello", &["", "b"]).is_err());
}

#[test]
fn empty_input_returns_empty() {
    // An empty input string should produce empty output regardless of sets.
    let out = execute("", &["a", "b"]).unwrap();
    assert_eq!(out, "");
}

#[test]
fn range_maps_lowercase_to_uppercase() {
    assert_eq!(execute("abc", &["a-z", "A-Z"]).unwrap(), "ABC");
    assert_eq!(execute("hello world", &["a-y", "b-z"]).unwrap(), "ifmmp xpsme");
}

#[test]
fn descending_range_is_literal() {
    // `z-a` is not a range: the three characters stand for themselves.
    assert_eq!(execute("a-z", &["z-a", "123"]).unwrap(), "321");
}
