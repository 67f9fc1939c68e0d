//! The search window: a search text with its options, the results of the
//! last search, and the result that is selected among them.

use crate::log_file_reader::LineNumber;
use crate::search::{
    grep_scan, is_result_set, is_result_set_of, search, search_pattern, zero_based, SearchError,
    SearchOptions,
};
use vstd::prelude::*;

verus! {

/// The state of the search window of one log file.
pub struct SearchWindow {
    search_text: String,
    is_open: bool,
    search_results: Vec<LineNumber>,
    selected_search_result_row: Option<u64>,
    selection_changed: bool,
    search_options: SearchOptions,
    wants_open_results: bool,
}

impl SearchWindow {
    /// The text that is searched for.
    pub closed spec fn text(&self) -> Seq<char> {
        self.search_text@
    }

    /// Whether the window is shown.
    pub closed spec fn shown(&self) -> bool {
        self.is_open
    }

    /// The line numbers that the last search found.
    pub closed spec fn results(&self) -> Seq<LineNumber> {
        self.search_results@
    }

    /// The row of the selected result, if one is selected.
    pub closed spec fn selected_row(&self) -> Option<u64> {
        self.selected_search_result_row
    }

    /// Whether the selection was changed since the window was last shown.
    pub closed spec fn selection_moved(&self) -> bool {
        self.selection_changed
    }

    /// The options of the search.
    pub closed spec fn options(&self) -> SearchOptions {
        self.search_options
    }

    /// Whether the user asked to see the results in a tab of their own.
    pub closed spec fn open_results_wanted(&self) -> bool {
        self.wants_open_results
    }

    /// The invariant of the type: the results are a result set, and a
    /// selected row is one of its rows.
    pub open spec fn wf(&self) -> bool {
        &&& is_result_set(self.results())
        &&& self.selected_row() matches Some(row) ==> row < self.results().len()
    }

    /// Whether everything but the two per-frame flags is as in `other`.
    pub open spec fn same_search_as(&self, other: &SearchWindow) -> bool {
        &&& self.text() == other.text()
        &&& self.results() == other.results()
        &&& self.selected_row() == other.selected_row()
        &&& self.options() == other.options()
    }

    /// Whether the window is as it is made: closed, with no text, no
    /// results, nothing selected or changed, no wish to open the results,
    /// and all options off.
    pub open spec fn is_fresh(&self) -> bool {
        &&& self.text() == Seq::<char>::empty()
        &&& !self.shown()
        &&& self.results() == Seq::<LineNumber>::empty()
        &&& self.selected_row() is None
        &&& !self.selection_moved()
        &&& self.options() == (SearchOptions {
            case_sensitive: false,
            whole_word: false,
            regex: false,
        })
        &&& !self.open_results_wanted()
    }

    /// A closed window with no text, no results, and plain options.
    pub fn new() -> (window: Self)
        ensures
            window.wf(),
            window.is_fresh(),
    {
        Self {
            search_text: String::new(),
            is_open: false,
            selected_search_result_row: None,
            selection_changed: false,
            search_results: Vec::new(),
            search_options: SearchOptions {
                case_sensitive: false,
                whole_word: false,
                regex: false,
            },
            wants_open_results: false,
        }
    }

    /// Shows the window.
    pub fn open(&mut self)
        ensures
            final(self).shown(),
            final(self).same_search_as(old(self)),
            final(self).selection_moved() == old(self).selection_moved(),
            final(self).open_results_wanted() == old(self).open_results_wanted(),
    {
        self.is_open = true;
    }

    /// Hides the window.
    pub fn close(&mut self)
        ensures
            !final(self).shown(),
            final(self).same_search_as(old(self)),
            final(self).selection_moved() == old(self).selection_moved(),
            final(self).open_results_wanted() == old(self).open_results_wanted(),
    {
        self.is_open = false;
    }

    /// Whether the window is shown.
    pub fn is_open(&self) -> (open: bool)
        ensures
            open == self.shown(),
    {
        self.is_open
    }

    /// Starts a frame: what the last frame reported of a changed selection
    /// and of a wish to open the results is forgotten.
    pub fn begin_frame(&mut self)
        ensures
            !final(self).selection_moved(),
            !final(self).open_results_wanted(),
            final(self).shown() == old(self).shown(),
            final(self).same_search_as(old(self)),
    {
        self.selection_changed = false;
        self.wants_open_results = false;
    }

    /// Replaces the text to search for.
    pub fn set_search_text(&mut self, text: String)
        ensures
            final(self).text() == text@,
            final(self).results() == old(self).results(),
            final(self).selected_row() == old(self).selected_row(),
            final(self).options() == old(self).options(),
            final(self).shown() == old(self).shown(),
            final(self).selection_moved() == old(self).selection_moved(),
            final(self).open_results_wanted() == old(self).open_results_wanted(),
    {
        self.search_text = text;
    }

    /// Replaces the options of the search.
    pub fn set_search_options(&mut self, options: SearchOptions)
        ensures
            final(self).options() == options,
            final(self).text() == old(self).text(),
            final(self).results() == old(self).results(),
            final(self).selected_row() == old(self).selected_row(),
            final(self).shown() == old(self).shown(),
            final(self).selection_moved() == old(self).selection_moved(),
            final(self).open_results_wanted() == old(self).open_results_wanted(),
    {
        self.search_options = options;
    }

    /// The options of the search.
    pub fn search_options(&self) -> (options: SearchOptions)
        ensures
            options == self.options(),
    {
        self.search_options
    }

    /// Whether a result stands before the selected one.
    pub fn has_previous_result(&self) -> (yes: bool)
        ensures
            yes == (self.selected_row() matches Some(row) && self.results().len() > 0 && row > 0),
    {
        match self.selected_search_result_row {
            Some(selected_row_idx) => self.search_results.len() > 0 && selected_row_idx > 0,
            None => false,
        }
    }

    /// Whether a result stands behind the selected one.
    pub fn has_next_result(&self) -> (yes: bool)
        requires
            self.wf(),
        ensures
            yes == (self.selected_row() matches Some(row) && row + 1 < self.results().len()),
    {
        match self.selected_search_result_row {
            Some(selected_row_idx) => selected_row_idx < (self.search_results.len() as u64 - 1),
            None => false,
        }
    }

    /// Selects the result before the selected one, if there is one.
    pub fn select_previous_result(&mut self)
        requires
            old(self).wf(),
        ensures
            final(self).wf(),
            final(self).text() == old(self).text(),
            final(self).results() == old(self).results(),
            final(self).options() == old(self).options(),
            final(self).shown() == old(self).shown(),
            final(self).open_results_wanted() == old(self).open_results_wanted(),
            match old(self).selected_row() {
                Some(row) if row > 0 => final(self).selected_row() == Some((row - 1) as u64)
                    && final(self).selection_moved(),
                _ => final(self).selected_row() == old(self).selected_row()
                    && final(self).selection_moved() == old(self).selection_moved(),
            },
    {
        if self.has_previous_result() {
            match self.selected_search_result_row {
                Some(row) => {
                    self.selected_search_result_row = Some(row - 1);
                    self.selection_changed = true;
                },
                None => {},
            }
        }
    }

    /// Selects the result behind the selected one, if there is one.
    pub fn select_next_result(&mut self)
        requires
            old(self).wf(),
        ensures
            final(self).wf(),
            final(self).text() == old(self).text(),
            final(self).results() == old(self).results(),
            final(self).options() == old(self).options(),
            final(self).shown() == old(self).shown(),
            final(self).open_results_wanted() == old(self).open_results_wanted(),
            match old(self).selected_row() {
                Some(row) if row + 1 < old(self).results().len() => final(self).selected_row()
                    == Some((row + 1) as u64) && final(self).selection_moved(),
                _ => final(self).selected_row() == old(self).selected_row()
                    && final(self).selection_moved() == old(self).selection_moved(),
            },
    {
        if self.has_next_result() {
            match self.selected_search_result_row {
                Some(row) => {
                    assert(row + 1 < self.search_results.len());
                    self.selected_search_result_row = Some(row + 1);
                    self.selection_changed = true;
                },
                None => {},
            }
        }
    }

    /// Asks for the results in a tab of their own and hides the window, if
    /// there are results.
    pub fn request_open_results(&mut self)
        ensures
            final(self).same_search_as(old(self)),
            final(self).selection_moved() == old(self).selection_moved(),
            old(self).results().len() > 0 ==> final(self).open_results_wanted()
                && !final(self).shown(),
            old(self).results().len() == 0 ==> final(self).shown() == old(self).shown()
                && final(self).open_results_wanted() == old(self).open_results_wanted(),
    {
        if self.search_result_count() > 0 {
            self.wants_open_results = true;
            self.is_open = false;
        }
    }

    /// Searches `content` for `search_text` and returns the numbers of the
    /// matching lines, counted from zero and ascending. A pattern that cannot
    /// be compiled gives `GrepError`, a failure of the scan `IoError`.
    pub fn search(options: &SearchOptions, content: &[u8], search_text: &str) -> (found: Result<
        Vec<LineNumber>,
        SearchError,
    >)
        ensures
            match grep_scan(
                search_pattern(*options, search_text@),
                !options.case_sensitive,
                options.whole_word,
                content@,
            ) {
                Ok(lines) => found is Ok && found.unwrap()@ == zero_based(lines),
                Err(failure) => found is Err && found.unwrap_err().spec_failure() == failure,
            },
            found matches Ok(lines) ==> is_result_set_of(lines@, content@),
    {
        search(options, content, search_text)
    }

    /// Takes over the outcome of a search: new results replace the old ones
    /// and the first of them is selected; a failed search changes nothing,
    /// and its error is handed back.
    pub fn accept_results(&mut self, found: Result<Vec<LineNumber>, SearchError>) -> (outcome:
        Result<(), SearchError>)
        requires
            old(self).wf(),
            found matches Ok(lines) ==> is_result_set(lines@),
        ensures
            final(self).wf(),
            final(self).text() == old(self).text(),
            final(self).options() == old(self).options(),
            final(self).shown() == old(self).shown(),
            final(self).open_results_wanted() == old(self).open_results_wanted(),
            match found {
                Ok(lines) => {
                    &&& outcome is Ok
                    &&& final(self).results() == lines@
                    &&& final(self).selected_row() == (if lines@.len() == 0 {
                        None
                    } else {
                        Some(0u64)
                    })
                    &&& final(self).selection_moved()
                },
                Err(error) => {
                    &&& outcome == Err::<(), SearchError>(error)
                    &&& final(self).results() == old(self).results()
                    &&& final(self).selected_row() == old(self).selected_row()
                    &&& final(self).selection_moved() == old(self).selection_moved()
                },
            },
    {
        match found {
            Ok(results) => {
                self.search_results = results;
                self.selected_search_result_row = if self.search_results.is_empty() {
                    None
                } else {
                    Some(0)
                };
                self.selection_changed = true;
                Ok(())
            },
            Err(error) => Err(error),
        }
    }

    /// Searches `content` for the window's text with its options and takes
    /// over the outcome. A search that fails changes nothing and gives its
    /// error: `GrepError` for a pattern that cannot be compiled, `IoError`
    /// for a failure of the scan.
    pub fn run_search(&mut self, content: &[u8]) -> (outcome: Result<(), SearchError>)
        requires
            old(self).wf(),
        ensures
            final(self).wf(),
            final(self).text() == old(self).text(),
            final(self).options() == old(self).options(),
            final(self).shown() == old(self).shown(),
            final(self).open_results_wanted() == old(self).open_results_wanted(),
            match grep_scan(
                search_pattern(old(self).options(), old(self).text()),
                !old(self).options().case_sensitive,
                old(self).options().whole_word,
                content@,
            ) {
                Ok(lines) => {
                    &&& outcome is Ok
                    &&& final(self).results() == zero_based(lines)
                    &&& is_result_set_of(final(self).results(), content@)
                    &&& final(self).selected_row() == (if lines.len() == 0 {
                        None
                    } else {
                        Some(0u64)
                    })
                    &&& final(self).selection_moved()
                },
                Err(failure) => {
                    &&& outcome is Err
                    &&& outcome.unwrap_err().spec_failure() == failure
                    &&& final(self).results() == old(self).results()
                    &&& final(self).selected_row() == old(self).selected_row()
                    &&& final(self).selection_moved() == old(self).selection_moved()
                },
            },
    {
        let found = Self::search(&self.search_options, content, self.search_text.as_str());
        self.accept_results(found)
    }

    /// Whether the selection was changed since the window was last shown.
    pub fn selection_changed(&self) -> (changed: bool)
        ensures
            changed == self.selection_moved(),
    {
        self.selection_changed
    }

    /// The line of the selected result, if a result is selected.
    pub fn selected_search_result_line(&self) -> (line: Option<LineNumber>)
        ensures
            line == (match self.selected_row() {
                Some(row) => if row < self.results().len() {
                    Some(self.results()[row as int])
                } else {
                    None
                },
                None => None,
            }),
    {
        match self.selected_search_result_row {
            Some(row) => {
                if row < self.search_results.len() as u64 {
                    Some(self.search_results[row as usize])
                } else {
                    None
                }
            },
            None => None,
        }
    }

    /// The number of the selected result, counted from one, as the window
    /// writes it before the number of results; one if none is selected.
    pub fn selected_result_number(&self) -> (number: u64)
        requires
            self.wf(),
        ensures
            number == (match self.selected_row() {
                Some(row) => row + 1,
                None => 1,
            }),
    {
        match self.selected_search_result_row {
            Some(row) => {
                assert(row < self.search_results.len());
                row + 1
            },
            None => 1,
        }
    }

    /// The number of results of the last search.
    pub fn search_result_count(&self) -> (count: usize)
        ensures
            count == self.results().len(),
    {
        self.search_results.len()
    }

    /// The text that is searched for.
    pub fn search_term(&self) -> (term: &str)
        ensures
            term@ == self.text(),
    {
        self.search_text.as_str()
    }

    /// The line numbers that the last search found, ascending.
    pub fn search_results(&self) -> (lines: &[LineNumber])
        ensures
            lines@ == self.results(),
    {
        self.search_results.as_slice()
    }

    /// Whether the user asked to see the results in a tab of their own.
    pub fn wants_open_results(&self) -> (wanted: bool)
        ensures
            wanted == self.open_results_wanted(),
    {
        self.wants_open_results
    }
}

impl Default for SearchWindow {
    fn default() -> (window: Self)
        ensures
            window.wf(),
            window.is_fresh(),
    {
        Self::new()
    }
}

} // verus!
