use json_log_reader::filtered_log_entries_tab::FilteredLogEntriesTab;
use json_log_reader::log_entries_tab::LogEntriesTab;
use json_log_reader::log_entries_table::{same_line, LogEntriesTable, ScrollTarget};
use json_log_reader::log_entry_context_tab::{ContextView, LogEntryContextTab};
use json_log_reader::log_file_reader::LogFileReader;
use json_log_reader::log_view::{LogSource, LogViewerState};
use json_log_reader::search::SearchOptions;
use json_log_reader::time_point::TimePoint;
use std::path::PathBuf;

const LOG: &[u8] = b"{\"t\":\"1\",\"message\":\"boot\"}\n\
plain text\n\
{\"t\":\"3\",\"message\":\"boot again\",\"tag\":\"sys\"}\n\
{\"t\":\"4\",\"message\":\"halt\"}\n";

fn loaded() -> LogFileReader {
    let mut reader = LogFileReader::open();
    assert_eq!(reader.load(LOG), 4);
    reader
}

fn at(secs: u64) -> TimePoint {
    TimePoint { secs, nanos: 0 }
}

#[test]
fn row_for_line_undoes_line_for_row() {
    let table = LogEntriesTable::new();
    let results: Vec<usize> = vec![0, 3, 4, 10, 11, 500, 70_000];
    for row in 0..results.len() {
        let line = LogEntriesTable::line_for_row(row, Some(&results)).unwrap();
        assert_eq!(line, results[row]);
        assert_eq!(table.find_row_for_line(line, Some(&results)), Some(row));
    }
    assert_eq!(LogEntriesTable::line_for_row(results.len(), Some(&results)), None);
}

#[test]
fn a_line_that_is_no_result_has_no_row() {
    let table = LogEntriesTable::new();
    let results: Vec<usize> = vec![2, 4, 6, 8];
    for line in [0, 1, 3, 5, 7, 9, usize::MAX] {
        assert_eq!(table.find_row_for_line(line, Some(&results)), None);
    }
    assert_eq!(table.find_row_for_line(0, Some(&[])), None);
    assert_eq!(table.find_row_for_line(5, Some(&[5])), Some(0));
    assert_eq!(table.find_row_for_line(4, Some(&[5])), None);
    assert_eq!(table.find_row_for_line(6, Some(&[5])), None);
}

#[test]
fn without_a_filter_row_and_line_are_the_same() {
    let table = LogEntriesTable::new();
    for line in [0, 1, 17, usize::MAX] {
        assert_eq!(table.find_row_for_line(line, None), Some(line));
        assert_eq!(LogEntriesTable::line_for_row(line, None), Some(line));
    }
}

#[test]
fn rows_of_a_table() {
    let reader = loaded();
    let table = LogEntriesTable::new();
    assert_eq!(LogEntriesTable::total_rows(&reader, None), 4);
    assert_eq!(LogEntriesTable::total_rows(&reader, Some(&[1, 3])), 2);
    assert_eq!(LogEntriesTable::total_rows(&reader, Some(&[])), 0);
    assert_eq!(table.last_row_index(&reader, None), Some(3));
    assert_eq!(table.last_row_index(&reader, Some(&[1, 3])), Some(1));
    assert_eq!(table.last_row_index(&reader, Some(&[])), None);
    assert_eq!(table.last_row_index(&LogFileReader::open(), None), None);
}

#[test]
fn a_new_table_follows_the_selection_and_does_not_tail() {
    let table = LogEntriesTable::new();
    assert_eq!(table.selected_line(), None);
    assert!(table.sync_line_selection());
    assert!(!table.tail_log());
    assert!(!table.is_selected(0));
}

#[test]
fn a_table_takes_over_a_selection_that_it_shows() {
    let reader = loaded();
    let mut state = LogViewerState::new();
    let mut table = LogEntriesTable::new();
    assert_eq!(table.update_selection(&reader, &state, None), ScrollTarget::Stay);

    state.selected_line_num = Some(2);
    assert_eq!(table.update_selection(&reader, &state, None), ScrollTarget::Center(2));
    assert_eq!(table.selected_line(), Some(2));
    assert!(table.is_selected(2));
    assert_eq!(table.update_selection(&reader, &state, None), ScrollTarget::Stay);

    let results: Vec<usize> = vec![0, 2];
    let mut filtered = LogEntriesTable::new();
    assert_eq!(
        filtered.update_selection(&reader, &state, Some(&results)),
        ScrollTarget::Center(1)
    );
    assert_eq!(filtered.selected_line(), Some(2));

    state.selected_line_num = Some(3);
    assert_eq!(filtered.update_selection(&reader, &state, Some(&results)), ScrollTarget::Stay);
    assert_eq!(filtered.selected_line(), Some(2));
}

#[test]
fn a_table_that_does_not_follow_keeps_its_selection() {
    let reader = loaded();
    let mut state = LogViewerState::new();
    let mut table = LogEntriesTable::new();
    table.toggle_sync_line_selection();
    assert!(!table.sync_line_selection());
    state.selected_line_num = Some(1);
    assert_eq!(table.update_selection(&reader, &state, None), ScrollTarget::Stay);
    assert_eq!(table.selected_line(), None);

    table.select_line(&mut state, 3);
    assert_eq!(table.selected_line(), Some(3));
    assert_eq!(state.selected_line_num, Some(1));

    table.toggle_sync_line_selection();
    table.select_line(&mut state, 0);
    assert_eq!(state.selected_line_num, Some(0));
}

#[test]
fn a_tailing_table_scrolls_to_its_last_row() {
    let reader = loaded();
    let mut state = LogViewerState::new();
    let mut table = LogEntriesTable::new();
    table.toggle_tail_log();
    assert!(table.tail_log());
    assert_eq!(table.update_selection(&reader, &state, None), ScrollTarget::Bottom(3));
    state.selected_line_num = Some(1);
    assert_eq!(table.update_selection(&reader, &state, None), ScrollTarget::Bottom(3));
    assert_eq!(table.selected_line(), Some(1));
    assert_eq!(table.update_selection(&reader, &state, Some(&[])), ScrollTarget::Stay);
    assert_eq!(
        table.update_selection(&LogFileReader::open(), &state, None),
        ScrollTarget::Stay
    );
    table.toggle_tail_log();
    assert!(!table.tail_log());
}

#[test]
fn same_line_compares_selections() {
    assert!(same_line(None, None));
    assert!(same_line(Some(4), Some(4)));
    assert!(!same_line(Some(4), Some(5)));
    assert!(!same_line(Some(0), None));
    assert!(!same_line(None, Some(0)));
}

#[test]
fn the_log_tab() {
    let reader = loaded();
    let mut state = LogViewerState::new();
    let mut tab = LogEntriesTab::new();
    assert_eq!(tab.title(), "Log");
    assert_eq!(tab.log_entries_table().selected_line(), None);
    state.selected_line_num = Some(1);
    assert_eq!(tab.update_selection(&reader, &state), ScrollTarget::Center(1));
    tab.select_line(&mut state, 2);
    assert_eq!(state.selected_line_num, Some(2));
    assert_eq!(tab.log_entries_table().selected_line(), Some(2));
    tab.toggle_tail_log();
    assert_eq!(tab.update_selection(&reader, &state), ScrollTarget::Bottom(3));
    tab.toggle_sync_line_selection();
    assert!(!tab.log_entries_table().sync_line_selection());
}

#[test]
fn a_new_filtered_tab() {
    let tab = FilteredLogEntriesTab::new(PathBuf::from("some/file.log"));
    assert_eq!(tab.log_file_path(), &PathBuf::from("some/file.log"));
    assert_eq!(tab.title(), "Search");
    assert_eq!(tab.search_term(), "");
    assert_eq!(tab.editable_search_term(), "");
    assert!(tab.search_results().is_empty());
    assert_eq!(tab.search_options(), SearchOptions::default());
    assert!(tab.repeat_search());
    assert_eq!(tab.last_search_time(), None);
    assert_eq!(tab.log_entries_table().selected_line(), None);
}

#[test]
fn a_filtered_tab_searches_for_its_edited_term() {
    let mut tab = FilteredLogEntriesTab::new(PathBuf::from("file.log"));
    tab.set_editable_search_term("boot".to_string());
    assert_eq!(tab.search_term(), "");
    assert!(tab.execute_search_at(LOG, at(10)).is_ok());
    assert_eq!(tab.search_term(), "boot");
    assert_eq!(tab.title(), "Search: boot");
    assert_eq!(tab.search_results().to_vec(), vec![0, 2]);
    assert_eq!(tab.last_search_time(), Some(at(10)));
}

#[test]
fn an_empty_term_clears_the_results() {
    let mut tab = FilteredLogEntriesTab::new(PathBuf::from("file.log"));
    tab.set_editable_search_term("boot".to_string());
    assert!(tab.execute_search_at(LOG, at(1)).is_ok());
    tab.set_editable_search_term(String::new());
    assert!(tab.execute_search_at(LOG, at(2)).is_ok());
    assert!(tab.search_results().is_empty());
    assert_eq!(tab.title(), "Search");
    assert_eq!(tab.last_search_time(), Some(at(2)));
}

#[test]
fn a_failed_search_of_a_tab_keeps_the_results_and_gives_the_error() {
    let mut tab = FilteredLogEntriesTab::new(PathBuf::from("file.log"));
    tab.set_editable_search_term("halt".to_string());
    assert!(tab.execute_search_at(LOG, at(1)).is_ok());
    assert_eq!(tab.search_results().to_vec(), vec![3]);
    tab.set_search_options(SearchOptions { case_sensitive: false, whole_word: false, regex: true });
    tab.set_editable_search_term("(".to_string());
    let error = tab.execute_search_at(LOG, at(2)).unwrap_err();
    assert!(error.is_pattern_error());
    assert_eq!(tab.search_results().to_vec(), vec![3]);
    assert_eq!(tab.search_term(), "(");
    assert_eq!(tab.last_search_time(), Some(at(2)));
}

#[test]
fn execute_search_by_the_clock() {
    let mut tab = FilteredLogEntriesTab::new(PathBuf::from("file.log"));
    tab.set_editable_search_term("plain".to_string());
    assert!(tab.execute_search(LOG).is_ok());
    assert_eq!(tab.search_results().to_vec(), vec![1]);
    assert!(tab.last_search_time().is_some());
}

#[test]
fn a_search_is_repeated_after_a_later_load() {
    let mut tab = FilteredLogEntriesTab::new(PathBuf::from("file.log"));
    assert!(!tab.search_needed(None));
    assert!(tab.search_needed(Some(at(5))));
    tab.set_editable_search_term("boot".to_string());
    assert!(tab.execute_search_at(LOG, at(7)).is_ok());
    assert!(!tab.search_needed(Some(at(5))));
    assert!(!tab.search_needed(Some(at(7))));
    assert!(tab.search_needed(Some(at(8))));
    assert!(tab.search_needed(Some(TimePoint { secs: 7, nanos: 1 })));
    tab.set_repeat_search(false);
    assert!(!tab.repeat_search());
    assert!(!tab.search_needed(Some(at(8))));
}

#[test]
fn a_filtered_tab_maps_the_selection_to_its_rows() {
    let reader = loaded();
    let mut state = LogViewerState::new();
    let mut tab = FilteredLogEntriesTab::new(PathBuf::from("file.log"));
    tab.set_editable_search_term("boot".to_string());
    assert!(tab.execute_search_at(LOG, at(1)).is_ok());
    state.selected_line_num = Some(2);
    assert_eq!(tab.update_selection(&reader, &state), ScrollTarget::Center(1));
    state.selected_line_num = Some(1);
    assert_eq!(tab.update_selection(&reader, &state), ScrollTarget::Stay);
    tab.select_line(&mut state, 0);
    assert_eq!(state.selected_line_num, Some(0));
    assert_eq!(tab.log_entries_table().selected_line(), Some(0));
    assert_eq!(tab.search_results().to_vec(), vec![0, 2]);
}

#[test]
fn the_context_tab_shows_the_selected_entry() {
    let reader = loaded();
    let mut state = LogViewerState::new();
    let tab = LogEntryContextTab::new();
    assert_eq!(tab.title(), "\u{1f4d3} Context");
    assert_eq!(tab.context(&reader, LOG, &state), ContextView::NothingSelected);
    state.selected_line_num = Some(1);
    assert_eq!(tab.context(&reader, LOG, &state), ContextView::Unreadable);
    state.selected_line_num = Some(9);
    assert_eq!(tab.context(&reader, LOG, &state), ContextView::Unreadable);
    state.selected_line_num = Some(3);
    match tab.context(&reader, LOG, &state) {
        ContextView::Fields(entry) => {
            assert_eq!(entry.timestamp, "4");
            assert_eq!(entry.object.get("message").unwrap().as_str(), Some("halt"));
        }
        _ => panic!("an entry was expected"),
    }
}

#[test]
fn a_value_takes_one_line_more_than_it_has_line_feeds() {
    assert_eq!(LogEntryContextTab::value_line_count(""), 1);
    assert_eq!(LogEntryContextTab::value_line_count("one"), 1);
    assert_eq!(LogEntryContextTab::value_line_count("one\ntwo"), 2);
    assert_eq!(LogEntryContextTab::value_line_count("\n\n\n"), 4);
    assert_eq!(LogEntryContextTab::value_line_count("a\r\nb\u{2028}c\n"), 3);
}

#[test]
fn the_viewer_state_starts_with_three_columns() {
    let mut state = LogViewerState::new();
    assert_eq!(state.selected_line_num, None);
    assert_eq!(state.displayed_columns, vec!["t", "tag", "message"]);
    assert!(state.is_column_shown("tag"));
    assert!(!state.is_column_shown("level"));
    assert!(!state.is_column_shown("Tag"));
    assert!(state.add_column("level"));
    assert!(!state.add_column("level"));
    assert!(!state.add_column("t"));
    assert_eq!(state.displayed_columns, vec!["t", "tag", "message", "level"]);
}

#[test]
fn a_log_source_is_a_log_source() {
    assert_eq!(LogSource {}, LogSource {});
}

#[test]
fn a_search_that_cannot_read_the_file_is_recorded_all_the_same() {
    let mut tab = FilteredLogEntriesTab::new(PathBuf::from("file.log"));
    tab.set_editable_search_term("boot".to_string());
    assert!(tab.execute_search_at(LOG, at(1)).is_ok());
    assert_eq!(tab.search_results().to_vec(), vec![0, 2]);

    tab.set_editable_search_term("halt".to_string());
    assert!(tab.begin_search_at(at(5)));
    assert_eq!(tab.search_term(), "halt");
    assert_eq!(tab.last_search_time(), Some(at(5)));
    assert_eq!(tab.search_results().to_vec(), vec![0, 2]);
    assert!(!tab.search_needed(Some(at(5))));

    assert!(tab.search_content(LOG).is_ok());
    assert_eq!(tab.search_results().to_vec(), vec![3]);
    assert_eq!(tab.last_search_time(), Some(at(5)));
}

#[test]
fn beginning_a_search_for_nothing_needs_no_scan() {
    let mut tab = FilteredLogEntriesTab::new(PathBuf::from("file.log"));
    tab.set_editable_search_term("boot".to_string());
    assert!(tab.execute_search_at(LOG, at(1)).is_ok());
    tab.set_editable_search_term(String::new());
    assert!(!tab.begin_search_at(at(2)));
    assert!(tab.search_results().is_empty());
    assert_eq!(tab.search_term(), "");
    assert_eq!(tab.last_search_time(), Some(at(2)));
    tab.set_editable_search_term("plain".to_string());
    assert!(tab.begin_search());
    assert!(tab.last_search_time().is_some());
    assert_eq!(tab.search_term(), "plain");
}

#[test]
fn a_failed_scan_of_a_tab_keeps_the_results() {
    let mut tab = FilteredLogEntriesTab::new(PathBuf::from("file.log"));
    tab.set_editable_search_term("boot".to_string());
    assert!(tab.execute_search_at(LOG, at(1)).is_ok());
    tab.set_search_options(SearchOptions { case_sensitive: false, whole_word: false, regex: true });
    tab.set_editable_search_term("[".to_string());
    assert!(tab.begin_search_at(at(2)));
    let error = tab.search_content(LOG).unwrap_err();
    assert!(error.is_pattern_error());
    assert_eq!(tab.search_results().to_vec(), vec![0, 2]);
}
