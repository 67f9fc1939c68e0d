use json_log_reader::filtered_log_entries_tab::FilteredLogEntriesTab;
use json_log_reader::search::{
    search, search_unread, to_line_numbers, SearchFailure, SearchOptions,
};
use json_log_reader::search_window::SearchWindow;

const THREE_LINES: &[u8] = b"{\"t\":\"1\",\"message\":\"Hello there\"}\n\
{\"t\":\"2\",\"message\":\"nothing\"}\n\
{\"t\":\"3\",\"message\":\"say hello\"}\n";

fn options(case_sensitive: bool, whole_word: bool, regex: bool) -> SearchOptions {
    SearchOptions { case_sensitive, whole_word, regex }
}

#[test]
fn the_default_options_are_all_off() {
    let defaults = SearchOptions::default();
    assert_eq!(defaults, options(false, false, false));
}

#[test]
fn scenario_case_insensitive_literal_search() {
    let found = search(&options(false, false, false), THREE_LINES, "hello").unwrap();
    assert_eq!(found, vec![0, 2]);
}

#[test]
fn scenario_unbalanced_parenthesis_is_a_pattern_error() {
    let error = search(&options(false, false, true), THREE_LINES, "(").unwrap_err();
    assert_eq!(error.failure(), SearchFailure::Pattern);
    assert!(error.is_pattern_error());
}

#[test]
fn an_unbalanced_parenthesis_is_a_literal_without_the_regex_option() {
    let content: &[u8] = b"f(x\nfx\n(\n";
    assert_eq!(search(&options(false, false, false), content, "(").unwrap(), vec![0, 2]);
}

#[test]
fn a_case_sensitive_search_tells_the_cases_apart() {
    assert_eq!(search(&options(true, false, false), THREE_LINES, "hello").unwrap(), vec![2]);
    assert_eq!(search(&options(true, false, false), THREE_LINES, "Hello").unwrap(), vec![0]);
    assert_eq!(
        search(&options(true, false, false), THREE_LINES, "HELLO").unwrap(),
        Vec::<usize>::new()
    );
}

#[test]
fn no_match_is_an_empty_result_and_no_error() {
    let found = search(&options(false, false, false), THREE_LINES, "absent").unwrap();
    assert!(found.is_empty());
}

#[test]
fn an_empty_file_has_no_matching_line() {
    assert!(search(&options(false, false, false), b"", "x").unwrap().is_empty());
    assert!(search(&options(false, false, true), b"", ".*").unwrap().is_empty());
}

#[test]
fn meta_characters_are_escaped_without_the_regex_option() {
    let content: &[u8] = b"a.b\naxb\na+b\naab\n1$\n[x]\nC:\\dir\n";
    let literal = options(true, false, false);
    assert_eq!(search(&literal, content, "a.b").unwrap(), vec![0]);
    assert_eq!(search(&literal, content, "a+b").unwrap(), vec![2]);
    assert_eq!(search(&literal, content, "$").unwrap(), vec![4]);
    assert_eq!(search(&literal, content, "[x]").unwrap(), vec![5]);
    assert_eq!(search(&literal, content, "\\").unwrap(), vec![6]);
    assert_eq!(search(&literal, content, ".").unwrap(), vec![0]);
}

#[test]
fn meta_characters_have_their_meaning_with_the_regex_option() {
    let content: &[u8] = b"a.b\naxb\na+b\naab\n1$\n[x]\nC:\\dir\n";
    let regex = options(true, false, true);
    assert_eq!(search(&regex, content, "a.b").unwrap(), vec![0, 1, 2, 3]);
    assert_eq!(search(&regex, content, "a+b").unwrap(), vec![3]);
    assert_eq!(search(&regex, content, "^[0-9]").unwrap(), vec![4]);
    assert_eq!(search(&regex, content, "[x]").unwrap(), vec![1, 5]);
}

#[test]
fn whole_word_matches_only_at_word_borders() {
    let content: &[u8] = b"cat\nconcatenate\na cat sat\ncats\n";
    assert_eq!(search(&options(false, false, false), content, "cat").unwrap(), vec![0, 1, 2, 3]);
    assert_eq!(search(&options(false, true, false), content, "cat").unwrap(), vec![0, 2]);
    assert_eq!(search(&options(false, true, true), content, "c.t").unwrap(), vec![0, 2]);
}

#[test]
fn a_line_without_a_terminator_is_searched_too() {
    let content: &[u8] = b"alpha\nbeta\ngamma";
    assert_eq!(search(&options(false, false, false), content, "gamma").unwrap(), vec![2]);
    assert_eq!(search(&options(false, false, false), content, "a").unwrap(), vec![0, 1, 2]);
}

#[test]
fn a_line_is_reported_once_however_often_it_matches() {
    let content: &[u8] = b"aaa aaa\nb\naa\n";
    assert_eq!(search(&options(false, false, false), content, "a").unwrap(), vec![0, 2]);
}

#[test]
fn results_ascend_and_stay_below_the_number_of_lines() {
    let mut content: Vec<u8> = Vec::new();
    for line in 0..200 {
        content.extend_from_slice(format!("line {} of the log\n", line).as_bytes());
    }
    let found = search(&options(false, false, true), &content, "line [0-9]*7 ").unwrap();
    assert_eq!(found.len(), 20);
    assert_eq!(found[0], 7);
    assert_eq!(found[19], 197);
    for pair in found.windows(2) {
        assert!(pair[0] < pair[1]);
    }
    for line in &found {
        assert!(*line < 200);
        assert_eq!(*line % 10, 7);
    }
}

#[test]
fn a_match_does_not_reach_over_a_line_feed() {
    let content: &[u8] = b"end\nstart\n";
    assert!(search(&options(false, false, true), content, "end\\s+start").unwrap().is_empty());
}

#[test]
fn other_invalid_patterns_are_pattern_errors_too() {
    for pattern in ["[", "a{2", "*", "\\", "(?P<n>"] {
        let error = search(&options(false, false, true), b"text\n", pattern).unwrap_err();
        assert_eq!(error.failure(), SearchFailure::Pattern);
    }
}

#[test]
fn invalid_utf8_in_the_file_does_not_fail_the_search() {
    let content: &[u8] = b"caf\xe9 one\nplain two\n\xff\xfe three\n";
    assert_eq!(search(&options(false, false, false), content, "one").unwrap(), vec![0]);
    assert_eq!(search(&options(false, false, false), content, "three").unwrap(), vec![2]);
}

#[test]
fn to_line_numbers_counts_from_zero() {
    assert_eq!(to_line_numbers(vec![]), Vec::<usize>::new());
    assert_eq!(to_line_numbers(vec![1]), vec![0]);
    assert_eq!(to_line_numbers(vec![1, 3, 4, 1000]), vec![0, 2, 3, 999]);
}

#[test]
fn the_search_of_the_window_gives_the_error() {
    assert_eq!(
        SearchWindow::search(&options(false, false, false), THREE_LINES, "hello").unwrap(),
        vec![0, 2]
    );
    let error = SearchWindow::search(&options(false, false, true), THREE_LINES, "(").unwrap_err();
    assert_eq!(error.failure(), SearchFailure::Pattern);
    assert!(error.is_pattern_error());
    assert_eq!(
        SearchWindow::search(&options(false, false, false), THREE_LINES, "absent").unwrap(),
        Vec::<usize>::new()
    );
}

#[test]
fn the_search_of_the_tab_gives_the_error() {
    assert_eq!(
        FilteredLogEntriesTab::search(&options(false, false, false), THREE_LINES, "hello")
            .unwrap(),
        vec![0, 2]
    );
    let error =
        FilteredLogEntriesTab::search(&options(false, false, true), THREE_LINES, "(").unwrap_err();
    assert!(error.is_pattern_error());
}

#[test]
fn an_error_of_the_reading_is_no_pattern_error() {
    let error = json_log_reader::search::SearchError::IoError(std::io::Error::new(
        std::io::ErrorKind::Other,
        "cannot read",
    ));
    assert_eq!(error.failure(), SearchFailure::Io);
    assert!(!error.is_pattern_error());
}

#[test]
fn outside_errors_convert_into_search_errors() {
    let io: json_log_reader::search::SearchError =
        std::io::Error::new(std::io::ErrorKind::NotFound, "gone").into();
    assert_eq!(io.failure(), SearchFailure::Io);
    let pattern: json_log_reader::search::SearchError =
        grep_regex::RegexMatcher::new("(").unwrap_err().into();
    assert_eq!(pattern.failure(), SearchFailure::Pattern);
}

#[test]
fn a_byte_order_mark_does_not_break_the_report() {
    let utf8: &[u8] = b"\xef\xbb\xbfhello\nworld\nhello again\n";
    assert_eq!(search(&options(true, false, false), utf8, "hello").unwrap(), vec![0, 2]);

    let mut utf16: Vec<u8> = vec![0xff, 0xfe];
    for unit in "hello\nworld\nhello again\n".encode_utf16() {
        utf16.extend_from_slice(&unit.to_le_bytes());
    }
    let found = search(&options(true, false, false), &utf16, "hello").unwrap();
    assert_eq!(found, vec![0, 2]);
    for line in &found {
        assert!(*line < utf16.len());
    }
    for pair in found.windows(2) {
        assert!(pair[0] < pair[1]);
    }
}

#[test]
fn every_result_is_the_number_of_a_line_of_the_file() {
    let mut utf16_le: Vec<u8> = vec![0xff, 0xfe];
    let mut utf16_be: Vec<u8> = vec![0xfe, 0xff];
    for unit in "one\ntwo\n\nfour".encode_utf16() {
        utf16_le.extend_from_slice(&unit.to_le_bytes());
        utf16_be.extend_from_slice(&unit.to_be_bytes());
    }
    let files: Vec<Vec<u8>> = vec![
        b"".to_vec(),
        b"\n".to_vec(),
        b"a".to_vec(),
        b"a\n".to_vec(),
        b"a\nb".to_vec(),
        b"\n\n\n".to_vec(),
        b"one\ntwo\n\nfour".to_vec(),
        b"\xef\xbb\xbf".to_vec(),
        b"\xef\xbb\xbfone\ntwo".to_vec(),
        vec![0xff, 0xfe],
        vec![0xff, 0xfe, 0x0a],
        vec![0xff, 0xfe, 0x0a, 0x00],
        vec![0xfe, 0xff, 0x00, 0x0a, 0x00],
        utf16_le,
        utf16_be,
    ];
    let regex = options(false, false, true);
    for content in &files {
        let lines = json_log_reader::line_index::LineIndex::build(content).line_count();
        for pattern in ["", ".", "$", "^", "o", "[^a]", "\\s*"] {
            let found = search(&regex, content, pattern).unwrap();
            for line in &found {
                assert!(*line < lines);
                assert!(*line < content.len());
            }
            for pair in found.windows(2) {
                assert!(pair[0] < pair[1]);
            }
        }
    }
}

#[test]
fn a_bad_pattern_is_reported_before_a_file_that_cannot_be_read() {
    let gone = || std::io::Error::new(std::io::ErrorKind::NotFound, "gone");
    let pattern = search_unread(&options(false, false, true), "(", gone());
    assert_eq!(pattern.failure(), SearchFailure::Pattern);
    let reading = search_unread(&options(false, false, true), "a+", gone());
    assert_eq!(reading.failure(), SearchFailure::Io);
    match reading {
        json_log_reader::search::SearchError::IoError(error) => {
            assert_eq!(error.kind(), std::io::ErrorKind::NotFound)
        }
        _ => panic!("the error of the reading was expected"),
    }
    let literal = search_unread(&options(false, false, false), "(", gone());
    assert_eq!(literal.failure(), SearchFailure::Io);
}
