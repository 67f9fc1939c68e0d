//! The tab that shows the lines which match a search.
//!
//! The tab keeps the text as the user edits it apart from the text that was
//! last searched for, and repeats its search when the file was loaded anew
//! since.

use crate::log_entries_table::{is_scroll_target, LogEntriesTable, ScrollTarget};
use crate::log_file_reader::{LineNumber, LogFileReader};
use crate::log_view::LogViewerState;
use crate::search::{
    grep_scan, is_result_set, is_result_set_of, search, search_pattern, zero_based, SearchError,
    SearchOptions,
};
use crate::time_point::TimePoint;
use std::path::PathBuf;
use vstd::prelude::*;

verus! {

/// `std::path::PathBuf`, the path of a file. The library keeps it for the
/// program that reads the file, and does not look into it.
#[verifier::external_type_specification]
#[verifier::external_body]
pub struct ExPathBuf(PathBuf);

/// The title of a tab that has not searched for anything.
pub const SEARCH_TITLE: &'static str = "Search";

/// What stands before the search term in the title of a tab.
pub const SEARCH_TITLE_PREFIX: &'static str = "Search: ";

/// The state of one tab of search results.
pub struct FilteredLogEntriesTab {
    log_file_path: PathBuf,
    editable_search_term: String,
    search_term: String,
    search_results: Vec<LineNumber>,
    search_options: SearchOptions,
    log_entries_table: LogEntriesTable,
    repeat_search: bool,
    last_search_time: Option<TimePoint>,
}

impl FilteredLogEntriesTab {
    /// The file that the tab searches.
    pub closed spec fn path(&self) -> PathBuf {
        self.log_file_path
    }

    /// The search text as the user has edited it.
    pub closed spec fn edited_term(&self) -> Seq<char> {
        self.editable_search_term@
    }

    /// The text that was last searched for.
    pub closed spec fn term(&self) -> Seq<char> {
        self.search_term@
    }

    /// The line numbers that the last search found.
    pub closed spec fn results(&self) -> Seq<LineNumber> {
        self.search_results@
    }

    /// The options of the search.
    pub closed spec fn options(&self) -> SearchOptions {
        self.search_options
    }

    /// Whether the search is repeated when the file has changed.
    pub closed spec fn repeats(&self) -> bool {
        self.repeat_search
    }

    /// When the tab last searched, if it ever did.
    pub closed spec fn searched_at(&self) -> Option<TimePoint> {
        self.last_search_time
    }

    /// The table that shows the results.
    pub closed spec fn table(&self) -> LogEntriesTable {
        self.log_entries_table
    }

    /// The invariant of the type: the results are a result set.
    pub open spec fn wf(&self) -> bool {
        is_result_set(self.results())
    }

    /// Whether the tab's settings, apart from its results and the time of
    /// its last search, are those of `other`.
    pub open spec fn same_settings_as(&self, other: &FilteredLogEntriesTab) -> bool {
        &&& self.path() == other.path()
        &&& self.edited_term() == other.edited_term()
        &&& self.options() == other.options()
        &&& self.repeats() == other.repeats()
        &&& self.table() == other.table()
    }

    /// A tab for the file at `log_file_path` that has not searched yet. It
    /// repeats its search when the file changes.
    pub fn new(log_file_path: PathBuf) -> (tab: Box<Self>)
        ensures
            tab.wf(),
            tab.path() == log_file_path,
            tab.edited_term() == Seq::<char>::empty(),
            tab.term() == Seq::<char>::empty(),
            tab.results() == Seq::<LineNumber>::empty(),
            tab.options() == (SearchOptions {
                case_sensitive: false,
                whole_word: false,
                regex: false,
            }),
            tab.repeats(),
            tab.searched_at() is None,
            tab.table().is_fresh(),
    {
        Box::new(
            Self {
                log_file_path,
                search_term: String::new(),
                search_results: Vec::new(),
                search_options: SearchOptions::default(),
                editable_search_term: String::new(),
                log_entries_table: LogEntriesTable::new(),
                repeat_search: true,
                last_search_time: None,
            },
        )
    }

    /// Searches `content` for `search_text` and returns the numbers of the
    /// matching lines, counted from zero and ascending.
    pub fn search(options: &SearchOptions, content: &[u8], search_text: &str) -> (result: Result<
        Vec<LineNumber>,
        SearchError,
    >)
        ensures
            match grep_scan(
                search_pattern(*options, search_text@),
                !options.case_sensitive,
                options.whole_word,
                content@,
            ) {
                Ok(lines) => result is Ok && result.unwrap()@ == zero_based(lines),
                Err(failure) => result is Err && result.unwrap_err().spec_failure() == failure,
            },
            result matches Ok(lines) ==> is_result_set_of(lines@, content@),
    {
        search(options, content, search_text)
    }

    /// What a search at the time `now` leaves in the tab, given the outcome
    /// of the scan for the edited term: the edited term becomes the term
    /// searched for; an empty term clears the results without a scan; a
    /// scan that succeeds replaces them, and one that fails keeps them.
    pub open spec fn searched(
        &self,
        before: &FilteredLogEntriesTab,
        now: TimePoint,
        content: Seq<u8>,
    ) -> bool {
        &&& self.same_settings_as(before)
        &&& self.term() == before.edited_term()
        &&& self.searched_at() == Some(now)
        &&& if before.edited_term().len() == 0 {
            self.results() == Seq::<LineNumber>::empty()
        } else {
            match grep_scan(
                search_pattern(before.options(), before.edited_term()),
                !before.options().case_sensitive,
                before.options().whole_word,
                content,
            ) {
                Ok(lines) => self.results() == zero_based(lines),
                Err(_) => self.results() == before.results(),
            }
        }
    }

    /// Whether the tab is as `before`, but for its results.
    pub open spec fn same_but_results(&self, before: &FilteredLogEntriesTab) -> bool {
        &&& self.same_settings_as(before)
        &&& self.term() == before.term()
        &&& self.searched_at() == before.searched_at()
    }

    /// Begins a search at the time `now`: the edited term becomes the term
    /// searched for, and the time is noted. An empty term clears the results
    /// and needs no scan; any other term keeps them until the file was
    /// scanned. Returns whether the file has to be scanned.
    pub fn begin_search_at(&mut self, now: TimePoint) -> (scan_needed: bool)
        requires
            old(self).wf(),
        ensures
            final(self).wf(),
            final(self).same_settings_as(old(self)),
            final(self).term() == old(self).edited_term(),
            final(self).searched_at() == Some(now),
            scan_needed == (old(self).edited_term().len() > 0),
            final(self).results() == (if scan_needed {
                old(self).results()
            } else {
                Seq::<LineNumber>::empty()
            }),
    {
        self.search_term = self.editable_search_term.clone();
        self.last_search_time = Some(now);

        if self.search_term.as_str().is_empty() {
            self.search_results.clear();
            false
        } else {
            true
        }
    }

    /// Begins a search now. Returns whether the file has to be scanned.
    pub fn begin_search(&mut self) -> (scan_needed: bool)
        requires
            old(self).wf(),
        ensures
            final(self).wf(),
            final(self).same_settings_as(old(self)),
            final(self).term() == old(self).edited_term(),
            final(self).searched_at() matches Some(at) && at.is_normal(),
            scan_needed == (old(self).edited_term().len() > 0),
            final(self).results() == (if scan_needed {
                old(self).results()
            } else {
                Seq::<LineNumber>::empty()
            }),
    {
        self.begin_search_at(TimePoint::now())
    }

    /// Scans `content` for the term searched for. The lines found replace
    /// the results; a scan that fails keeps them and gives its error.
    pub fn search_content(&mut self, content: &[u8]) -> (outcome: Result<(), SearchError>)
        requires
            old(self).wf(),
        ensures
            final(self).wf(),
            final(self).same_but_results(old(self)),
            match grep_scan(
                search_pattern(old(self).options(), old(self).term()),
                !old(self).options().case_sensitive,
                old(self).options().whole_word,
                content@,
            ) {
                Ok(lines) => {
                    &&& outcome is Ok
                    &&& final(self).results() == zero_based(lines)
                    &&& is_result_set_of(final(self).results(), content@)
                },
                Err(failure) => {
                    &&& outcome is Err
                    &&& outcome.unwrap_err().spec_failure() == failure
                    &&& final(self).results() == old(self).results()
                },
            },
    {
        match Self::search(&self.search_options, content, self.search_term.as_str()) {
            Ok(results) => {
                self.search_results = results;
                Ok(())
            },
            Err(error) => Err(error),
        }
    }

    /// Searches `content` for the edited term, at the time `now`. Returns
    /// the error of a search that failed.
    pub fn execute_search_at(&mut self, content: &[u8], now: TimePoint) -> (outcome: Result<
        (),
        SearchError,
    >)
        requires
            old(self).wf(),
        ensures
            final(self).wf(),
            final(self).searched(old(self), now, content@),
            old(self).edited_term().len() > 0 && grep_scan(
                search_pattern(old(self).options(), old(self).edited_term()),
                !old(self).options().case_sensitive,
                old(self).options().whole_word,
                content@,
            ) is Ok ==> is_result_set_of(final(self).results(), content@),
            outcome is Err <==> old(self).edited_term().len() > 0 && grep_scan(
                search_pattern(old(self).options(), old(self).edited_term()),
                !old(self).options().case_sensitive,
                old(self).options().whole_word,
                content@,
            ) is Err,
            outcome matches Err(error) ==> Err::<Seq<u64>, _>(error.spec_failure()) == grep_scan(
                search_pattern(old(self).options(), old(self).edited_term()),
                !old(self).options().case_sensitive,
                old(self).options().whole_word,
                content@,
            ),
    {
        if self.begin_search_at(now) {
            self.search_content(content)
        } else {
            Ok(())
        }
    }

    /// Searches `content` for the edited term, now. Returns the error of a
    /// search that failed.
    pub fn execute_search(&mut self, content: &[u8]) -> (outcome: Result<(), SearchError>)
        requires
            old(self).wf(),
        ensures
            final(self).wf(),
            final(self).searched_at() matches Some(now) && now.is_normal() && final(self).searched(
                old(self),
                now,
                content@,
            ),
            old(self).edited_term().len() > 0 && grep_scan(
                search_pattern(old(self).options(), old(self).edited_term()),
                !old(self).options().case_sensitive,
                old(self).options().whole_word,
                content@,
            ) is Ok ==> is_result_set_of(final(self).results(), content@),
            outcome is Err <==> old(self).edited_term().len() > 0 && grep_scan(
                search_pattern(old(self).options(), old(self).edited_term()),
                !old(self).options().case_sensitive,
                old(self).options().whole_word,
                content@,
            ) is Err,
            outcome matches Err(error) ==> Err::<Seq<u64>, _>(error.spec_failure()) == grep_scan(
                search_pattern(old(self).options(), old(self).edited_term()),
                !old(self).options().case_sensitive,
                old(self).options().whole_word,
                content@,
            ),
    {
        self.execute_search_at(content, TimePoint::now())
    }

    /// Whether the search has to be repeated: the tab repeats searches, the
    /// file was loaded, and the tab has not searched since.
    pub open spec fn spec_search_needed(&self, load_time_point: Option<TimePoint>) -> bool {
        &&& self.repeats()
        &&& load_time_point matches Some(loaded)
        &&& (self.searched_at() matches Some(searched) ==> searched.precedes(loaded))
    }

    /// Whether the search has to be repeated for a file that was last loaded
    /// at `load_time_point`.
    pub fn search_needed(&self, load_time_point: Option<TimePoint>) -> (needed: bool)
        ensures
            needed == self.spec_search_needed(load_time_point),
    {
        if !self.repeat_search {
            return false;
        }
        match load_time_point {
            Some(loaded) => match self.last_search_time {
                None => true,
                Some(last_search_time) => last_search_time.is_before(&loaded),
            },
            None => false,
        }
    }

    /// The title of the tab: `Search`, or `Search: ` and the term that was
    /// searched for.
    pub fn title(&self) -> (title: String)
        ensures
            title@ == (if self.term().len() == 0 {
                SEARCH_TITLE@
            } else {
                SEARCH_TITLE_PREFIX@ + self.term()
            }),
    {
        if self.search_term.as_str().is_empty() {
            SEARCH_TITLE.to_owned()
        } else {
            SEARCH_TITLE_PREFIX.to_owned().concat(self.search_term.as_str())
        }
    }

    /// Replaces the search text that the user edits.
    pub fn set_editable_search_term(&mut self, text: String)
        ensures
            final(self).edited_term() == text@,
            final(self).path() == old(self).path(),
            final(self).term() == old(self).term(),
            final(self).results() == old(self).results(),
            final(self).options() == old(self).options(),
            final(self).repeats() == old(self).repeats(),
            final(self).searched_at() == old(self).searched_at(),
            final(self).table() == old(self).table(),
    {
        self.editable_search_term = text;
    }

    /// Replaces the options of the search.
    pub fn set_search_options(&mut self, options: SearchOptions)
        ensures
            final(self).options() == options,
            final(self).path() == old(self).path(),
            final(self).edited_term() == old(self).edited_term(),
            final(self).term() == old(self).term(),
            final(self).results() == old(self).results(),
            final(self).repeats() == old(self).repeats(),
            final(self).searched_at() == old(self).searched_at(),
            final(self).table() == old(self).table(),
    {
        self.search_options = options;
    }

    /// Switches the repeating of the search on or off.
    pub fn set_repeat_search(&mut self, repeat_search: bool)
        ensures
            final(self).repeats() == repeat_search,
            final(self).path() == old(self).path(),
            final(self).edited_term() == old(self).edited_term(),
            final(self).term() == old(self).term(),
            final(self).results() == old(self).results(),
            final(self).options() == old(self).options(),
            final(self).searched_at() == old(self).searched_at(),
            final(self).table() == old(self).table(),
    {
        self.repeat_search = repeat_search;
    }

    /// Whether everything but the table is as in `other`.
    pub open spec fn same_search_as(&self, other: &FilteredLogEntriesTab) -> bool {
        &&& self.path() == other.path()
        &&& self.edited_term() == other.edited_term()
        &&& self.term() == other.term()
        &&& self.results() == other.results()
        &&& self.options() == other.options()
        &&& self.repeats() == other.repeats()
        &&& self.searched_at() == other.searched_at()
    }

    /// Brings the table in line with the selection of the other tabs, over
    /// the results of the tab, and says where it scrolls to.
    pub fn update_selection(
        &mut self,
        log_file_reader: &LogFileReader,
        viewer_state: &LogViewerState,
    ) -> (target: ScrollTarget)
        requires
            old(self).wf(),
            log_file_reader.wf(),
        ensures
            final(self).wf(),
            final(self).same_search_as(old(self)),
            final(self).table().tails() == old(self).table().tails(),
            final(self).table().follows_selection() == old(self).table().follows_selection(),
            ({
                let taken_over = old(self).table().row_taken_over(
                    viewer_state.selected_line_num,
                    Some(old(self).results()),
                );
                &&& final(self).table().selection() == (if taken_over is Some {
                    viewer_state.selected_line_num
                } else {
                    old(self).table().selection()
                })
                &&& is_scroll_target(
                    target,
                    old(self).table().tails(),
                    old(self).results().len(),
                    taken_over,
                )
            }),
    {
        self.log_entries_table.update_selection(
            log_file_reader,
            viewer_state,
            Some(self.search_results.as_slice()),
        )
    }

    /// Selects the line of a row that was clicked.
    pub fn select_line(&mut self, viewer_state: &mut LogViewerState, line_number: LineNumber)
        ensures
            final(self).same_search_as(old(self)),
            final(self).table().selection() == Some(line_number),
            final(self).table().tails() == old(self).table().tails(),
            final(self).table().follows_selection() == old(self).table().follows_selection(),
            final(viewer_state).selected_line_num == (if old(self).table().follows_selection() {
                Some(line_number)
            } else {
                old(viewer_state).selected_line_num
            }),
            final(viewer_state).displayed_columns == old(viewer_state).displayed_columns,
            final(viewer_state).column_styles == old(viewer_state).column_styles,
    {
        self.log_entries_table.select_line(viewer_state, line_number);
    }

    /// Switches the tailing of the results on or off.
    pub fn toggle_tail_log(&mut self)
        ensures
            final(self).same_search_as(old(self)),
            final(self).table().tails() == !old(self).table().tails(),
            final(self).table().selection() == old(self).table().selection(),
            final(self).table().follows_selection() == old(self).table().follows_selection(),
    {
        self.log_entries_table.toggle_tail_log();
    }

    /// Switches the following of the selection on or off.
    pub fn toggle_sync_line_selection(&mut self)
        ensures
            final(self).same_search_as(old(self)),
            final(self).table().follows_selection() == !old(self).table().follows_selection(),
            final(self).table().selection() == old(self).table().selection(),
            final(self).table().tails() == old(self).table().tails(),
    {
        self.log_entries_table.toggle_sync_line_selection();
    }

    /// The table that shows the results.
    pub fn log_entries_table(&self) -> (table: &LogEntriesTable)
        ensures
            *table == self.table(),
    {
        &self.log_entries_table
    }

    /// The file that the tab searches.
    pub fn log_file_path(&self) -> (path: &PathBuf)
        ensures
            *path == self.path(),
    {
        &self.log_file_path
    }

    /// The search text as the user has edited it.
    pub fn editable_search_term(&self) -> (term: &str)
        ensures
            term@ == self.edited_term(),
    {
        self.editable_search_term.as_str()
    }

    /// The text that was last searched for.
    pub fn search_term(&self) -> (term: &str)
        ensures
            term@ == self.term(),
    {
        self.search_term.as_str()
    }

    /// The line numbers that the last search found, ascending.
    pub fn search_results(&self) -> (lines: &[LineNumber])
        ensures
            lines@ == self.results(),
    {
        self.search_results.as_slice()
    }

    /// The options of the search.
    pub fn search_options(&self) -> (options: SearchOptions)
        ensures
            options == self.options(),
    {
        self.search_options
    }

    /// Whether the search is repeated when the file has changed.
    pub fn repeat_search(&self) -> (repeat: bool)
        ensures
            repeat == self.repeats(),
    {
        self.repeat_search
    }

    /// When the tab last searched, if it ever did.
    pub fn last_search_time(&self) -> (at: Option<TimePoint>)
        ensures
            at == self.searched_at(),
    {
        self.last_search_time
    }
}

} // verus!
