use unix_utils::echo::{escaped, parse};
use unix_utils::grep::line_matches;

#[test]
fn simple_escapes() {
    assert_eq!(escaped("a\\tb\\n"), (String::from("a\tb\n"), false));
    assert_eq!(escaped("back\\\\slash"), (String::from("back\\slash"), false));
    assert_eq!(escaped("\\q"), (String::from("\\q"), false));
    assert_eq!(escaped("end\\"), (String::from("end\\"), false));
    assert_eq!(escaped("stop\\chere"), (String::from("stop"), true));
}

#[test]
fn numeric_escapes() {
    assert_eq!(escaped("\\x41B"), (String::from("AB"), false));
    assert_eq!(escaped("\\x4"), (String::from("\\x"), false));
    assert_eq!(escaped("\\0101"), (String::from("A"), false));
    assert_eq!(escaped("\\012x"), (String::from("\nx"), false));
    assert_eq!(escaped("\\xg"), (String::from("\\xg"), false));
}

#[test]
fn digit_parsing() {
    let v: Vec<char> = "7fz".chars().collect();
    assert_eq!(parse(&v, 0, 16, 2, 4), (Some('\x7f'), 2));
    assert_eq!(parse(&v, 2, 16, 2, 4), (None, 2));
    let w: Vec<char> = "101".chars().collect();
    assert_eq!(parse(&w, 0, 8, 3, 3), (Some('A'), 3));
}

#[test]
fn grep_selects_lines_holding_the_pattern() {
    assert!(line_matches("hello world", "o w"));
    assert!(line_matches("hello", ""));
    assert!(line_matches("abc", "abc"));
    assert!(!line_matches("abc", "abcd"));
    assert!(!line_matches("hello", "world"));
}
