use rgrep::split_lines;
use rgrep::strmul;

#[test]
fn split_drops_the_terminator() {
    assert_eq!(split_lines("a\nb"), vec!["a", "b"]);
}

#[test]
fn split_trailing_newline_adds_no_empty_line() {
    assert_eq!(split_lines("a\nb\n"), vec!["a", "b"]);
}

#[test]
fn split_empty_text_has_no_lines() {
    assert_eq!(split_lines(""), Vec::<String>::new());
}

#[test]
fn split_keeps_empty_middle_lines() {
    assert_eq!(split_lines("a\n\nb"), vec!["a", "", "b"]);
}

#[test]
fn split_drops_carriage_return_before_line_feed() {
    assert_eq!(split_lines("a\r\nb\r\n"), vec!["a", "b"]);
}

#[test]
fn split_keeps_a_lone_carriage_return() {
    assert_eq!(split_lines("a\rb\nc"), vec!["a\rb", "c"]);
    assert_eq!(split_lines("a\r"), vec!["a\r"]);
}

#[test]
fn strmul_repeats_the_string() {
    assert_eq!(strmul("-", 3), "---");
    assert_eq!(strmul("ab", 2), "abab");
}

#[test]
fn strmul_zero_is_empty() {
    assert_eq!(strmul("abc", 0), "");
}

#[test]
fn strmul_one_is_the_string_itself() {
    assert_eq!(strmul("xyz", 1), "xyz");
}
