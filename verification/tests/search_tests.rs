use rgrep::search;
use rgrep::search_ignored_case;
use rgrep::run_search;
use rgrep::Config;
use rgrep::Line;
use rgrep::SearchError;

fn assert_records(results: &[Line], expected: &[(&str, usize)]) {
    assert_eq!(results.len(), expected.len());
    for (got, want) in results.iter().zip(expected.iter()) {
        assert_eq!(got.string, want.0);
        assert_eq!(got.number, want.1);
    }
}

#[test]
fn case_sensitive_scenario() {
    let results = search("foo", "foo\nbar\nfoobar\n").unwrap();
    assert_records(&results, &[("foo", 1), ("foobar", 3)]);
}

#[test]
fn ignored_case_scenario() {
    let results = search_ignored_case("FOO", "foo\nbar\nfoobar\n").unwrap();
    assert_records(&results, &[("foo", 1), ("foobar", 3)]);
}

#[test]
fn no_trailing_newline_single_line() {
    let results = search("abc", "abc").unwrap();
    assert_records(&results, &[("abc", 1)]);
}

#[test]
fn query_not_found_is_empty_not_error() {
    let results = search("zzz", "foo\nbar\nfoobar\n").unwrap();
    assert!(results.is_empty());
}

#[test]
fn empty_contents_empty_results() {
    let results = search("foo", "").unwrap();
    assert!(results.is_empty());
    let results = search_ignored_case("foo", "").unwrap();
    assert!(results.is_empty());
}

#[test]
fn invalid_pattern_is_an_error() {
    match search("(", "any\ntext") {
        Err(e) => assert_eq!(e, SearchError::InvalidPattern),
        Ok(_) => panic!("an unbalanced group must be refused"),
    }
}

#[test]
fn invalid_pattern_ignored_case_is_an_error() {
    match search_ignored_case("(", "any\ntext") {
        Err(e) => assert_eq!(e, SearchError::InvalidPattern),
        Ok(_) => panic!("an unbalanced group must be refused"),
    }
}

#[test]
fn pattern_matching_every_line_numbers_all_lines() {
    let results = search("", "alpha\nbeta\ngamma").unwrap();
    assert_records(&results, &[("alpha", 1), ("beta", 2), ("gamma", 3)]);
}

#[test]
fn ignored_case_finds_at_least_the_sensitive_matches() {
    let text = "foo\nFOO\nbar";
    let sensitive = search("FOO", text).unwrap();
    let ignored = search_ignored_case("FOO", text).unwrap();
    assert_records(&sensitive, &[("FOO", 2)]);
    assert_records(&ignored, &[("foo", 1), ("FOO", 2)]);
    assert!(ignored.len() >= sensitive.len());
}

#[test]
fn records_keep_original_case() {
    let results = search_ignored_case("hello", "HELLO world").unwrap();
    assert_records(&results, &[("HELLO world", 1)]);
}

#[test]
fn same_search_twice_gives_identical_results() {
    let text = "foo\nbar\nfoobar\n";
    let first = search_ignored_case("FOO", text).unwrap();
    let second = search_ignored_case("FOO", text).unwrap();
    assert_eq!(first.len(), second.len());
    for (a, b) in first.iter().zip(second.iter()) {
        assert_eq!(a.string, b.string);
        assert_eq!(a.number, b.number);
    }
}

#[test]
fn run_search_dispatches_on_the_flag() {
    let text = "foo\nFOO\n";
    let sensitive = run_search("FOO", text, false).unwrap();
    assert_records(&sensitive, &[("FOO", 2)]);
    let ignored = run_search("FOO", text, true).unwrap();
    assert_records(&ignored, &[("foo", 1), ("FOO", 2)]);
}

#[test]
fn regex_matches_anywhere_in_the_line() {
    let results = search("o+b", "foobar\nfob\nfbo").unwrap();
    assert_records(&results, &[("foobar", 1), ("fob", 2)]);
}

#[test]
fn line_new_keeps_text_and_number() {
    let line = Line::new("some text", 7);
    assert_eq!(line.string, "some text");
    assert_eq!(line.number, 7);
}

#[test]
fn config_holds_a_request() {
    let config = Config { query: String::from("foo"), file_path: String::from("a.txt"), any_case: true };
    assert_eq!(config.query, "foo");
    assert_eq!(config.file_path, "a.txt");
    assert!(config.any_case);
}
