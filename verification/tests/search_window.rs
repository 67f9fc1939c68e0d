use json_log_reader::search::{SearchError, SearchFailure, SearchOptions};
use json_log_reader::search_window::SearchWindow;

const LOG: &[u8] = b"error: disk\ninfo: fine\nerror: net\nwarn: slow\nerror: cpu\n";

fn window_with_results() -> SearchWindow {
    let mut window = SearchWindow::new();
    window.set_search_text("error".to_string());
    assert!(window.run_search(LOG).is_ok());
    window
}

#[test]
fn a_new_window_is_closed_and_empty() {
    let window = SearchWindow::new();
    assert!(!window.is_open());
    assert_eq!(window.search_term(), "");
    assert_eq!(window.search_result_count(), 0);
    assert!(window.search_results().is_empty());
    assert_eq!(window.selected_search_result_line(), None);
    assert!(!window.selection_changed());
    assert!(!window.wants_open_results());
    assert!(!window.has_previous_result());
    assert!(!window.has_next_result());
    assert_eq!(
        window.search_options(),
        SearchOptions { case_sensitive: false, whole_word: false, regex: false }
    );
}

#[test]
fn the_default_window_is_a_new_window() {
    let window = SearchWindow::default();
    assert!(!window.is_open());
    assert_eq!(window.search_term(), "");
    assert_eq!(window.search_result_count(), 0);
}

#[test]
fn open_and_close() {
    let mut window = SearchWindow::new();
    window.open();
    assert!(window.is_open());
    window.open();
    assert!(window.is_open());
    window.close();
    assert!(!window.is_open());
}

#[test]
fn a_search_selects_the_first_result() {
    let window = window_with_results();
    assert_eq!(window.search_results().to_vec(), vec![0, 2, 4]);
    assert_eq!(window.search_result_count(), 3);
    assert_eq!(window.selected_search_result_line(), Some(0));
    assert!(window.selection_changed());
    assert_eq!(window.search_term(), "error");
    assert!(!window.has_previous_result());
    assert!(window.has_next_result());
}

#[test]
fn stepping_through_the_results() {
    let mut window = window_with_results();
    window.begin_frame();
    assert!(!window.selection_changed());

    window.select_next_result();
    assert_eq!(window.selected_search_result_line(), Some(2));
    assert!(window.selection_changed());
    assert!(window.has_previous_result());
    assert!(window.has_next_result());

    window.select_next_result();
    assert_eq!(window.selected_search_result_line(), Some(4));
    assert!(!window.has_next_result());

    window.begin_frame();
    window.select_next_result();
    assert_eq!(window.selected_search_result_line(), Some(4));
    assert!(!window.selection_changed());

    window.select_previous_result();
    assert_eq!(window.selected_search_result_line(), Some(2));
    assert!(window.selection_changed());
    window.select_previous_result();
    assert_eq!(window.selected_search_result_line(), Some(0));
    window.begin_frame();
    window.select_previous_result();
    assert_eq!(window.selected_search_result_line(), Some(0));
    assert!(!window.selection_changed());
}

#[test]
fn a_search_without_matches_selects_nothing() {
    let mut window = window_with_results();
    window.set_search_text("absent".to_string());
    window.begin_frame();
    assert!(window.run_search(LOG).is_ok());
    assert_eq!(window.search_result_count(), 0);
    assert_eq!(window.selected_search_result_line(), None);
    assert!(window.selection_changed());
    assert!(!window.has_next_result());
    assert!(!window.has_previous_result());
    window.select_next_result();
    window.select_previous_result();
    assert_eq!(window.selected_search_result_line(), None);
}

#[test]
fn a_failed_search_keeps_the_old_results() {
    let mut window = window_with_results();
    window.select_next_result();
    window.begin_frame();
    window.set_search_text("(".to_string());
    window.set_search_options(SearchOptions { case_sensitive: false, whole_word: false, regex: true });
    let error = window.run_search(LOG).unwrap_err();
    assert_eq!(error.failure(), SearchFailure::Pattern);
    assert!(error.is_pattern_error());
    assert_eq!(window.search_results().to_vec(), vec![0, 2, 4]);
    assert_eq!(window.selected_search_result_line(), Some(2));
    assert!(!window.selection_changed());
    assert_eq!(window.search_term(), "(");
}

#[test]
fn accept_results_takes_over_what_it_is_given() {
    let mut window = SearchWindow::new();
    assert!(window.accept_results(Ok(vec![3, 9, 27])).is_ok());
    assert_eq!(window.search_results().to_vec(), vec![3, 9, 27]);
    assert_eq!(window.selected_search_result_line(), Some(3));
    assert!(window.selection_changed());
    window.begin_frame();
    let unread = SearchError::IoError(std::io::Error::new(std::io::ErrorKind::NotFound, "gone"));
    let error = window.accept_results(Err(unread)).unwrap_err();
    assert_eq!(error.failure(), SearchFailure::Io);
    assert_eq!(window.search_results().to_vec(), vec![3, 9, 27]);
    assert!(!window.selection_changed());
    assert!(window.accept_results(Ok(vec![])).is_ok());
    assert_eq!(window.selected_search_result_line(), None);
    assert_eq!(window.search_result_count(), 0);
}

#[test]
fn a_failed_search_of_the_window_tells_its_kind() {
    let mut window = SearchWindow::new();
    window.set_search_options(SearchOptions { case_sensitive: false, whole_word: false, regex: true });
    window.set_search_text("(".to_string());
    let pattern = window.run_search(LOG).unwrap_err();
    assert_eq!(pattern.failure(), SearchFailure::Pattern);
    window.set_search_text("absent".to_string());
    assert!(window.run_search(LOG).is_ok());
    assert_eq!(window.search_result_count(), 0);
    let unread = SearchError::IoError(std::io::Error::new(std::io::ErrorKind::Other, "unread"));
    let io = window.accept_results(Err(unread)).unwrap_err();
    assert_eq!(io.failure(), SearchFailure::Io);
    assert_ne!(io.failure(), pattern.failure());
}

#[test]
fn open_results_needs_results() {
    let mut window = SearchWindow::new();
    window.open();
    window.request_open_results();
    assert!(!window.wants_open_results());
    assert!(window.is_open());

    let mut window = window_with_results();
    window.open();
    window.request_open_results();
    assert!(window.wants_open_results());
    assert!(!window.is_open());
    window.begin_frame();
    assert!(!window.wants_open_results());
    assert_eq!(window.search_result_count(), 3);
}

#[test]
fn the_options_of_the_window_are_used() {
    let mut window = SearchWindow::new();
    window.set_search_text("ERROR".to_string());
    assert!(window.run_search(LOG).is_ok());
    assert_eq!(window.search_result_count(), 3);
    window.set_search_options(SearchOptions {
        case_sensitive: true,
        whole_word: false,
        regex: false,
    });
    assert!(window.run_search(LOG).is_ok());
    assert_eq!(window.search_result_count(), 0);
}
