//! The table of log lines: which line stands in which row, which line is
//! selected, and where the table scrolls to.
//!
//! A table shows either every line of the file, and then row and line number
//! are the same, or the lines of a result set, and then row `r` shows the
//! `r`-th line of the set.

use crate::log_file_reader::{LineNumber, LogFileReader};
use crate::log_view::LogViewerState;
use crate::line_index::LINE_FEED;
use crate::search::is_result_set;
use vstd::prelude::*;
use vstd::string::StringSliceAdditionalSpecFns;
use vstd::utf8::{
    encode_utf8_valid_utf8, is_char_boundary_iff_not_is_continuation_byte,
    is_char_boundary_start_end_of_seq, is_continuation_byte,
};

verus! {

/// Where the table scrolls to when it is drawn.
#[derive(Clone, Copy, Debug, PartialEq, Eq, Structural)]
pub enum ScrollTarget {
    /// The table stays where it is.
    Stay,
    /// The given row is brought to the bottom.
    Bottom(usize),
    /// The given row is brought to the middle.
    Center(usize),
}

/// The row that shows `line_number`, as a specification: the line number
/// itself without a filter, else a position of the line in the result set.
pub open spec fn is_row_of(
    row: usize,
    line_number: LineNumber,
    filtered_entries: Option<Seq<LineNumber>>,
) -> bool {
    match filtered_entries {
        Some(lines) => row < lines.len() && lines[row as int] == line_number,
        None => row == line_number,
    }
}

/// The row in which a result set shows `line_number`, if it holds the line.
pub open spec fn row_of_line(lines: Seq<LineNumber>, line_number: LineNumber) -> Option<usize> {
    if lines.contains(line_number) {
        Some(lines.index_of(line_number) as usize)
    } else {
        None
    }
}

/// The row that shows `line_number`, if a row does: the line number itself
/// without a filter, else its row in the result set.
pub open spec fn row_for_line(
    line_number: LineNumber,
    filtered_entries: Option<Seq<LineNumber>>,
) -> Option<usize> {
    match filtered_entries {
        Some(lines) => row_of_line(lines, line_number),
        None => Some(line_number),
    }
}

/// Whether a filter, if there is one, is a result set.
pub open spec fn is_sorted_filter(filtered_entries: Option<Seq<LineNumber>>) -> bool {
    filtered_entries matches Some(lines) ==> is_result_set(lines)
}

/// Whether `target` is where a table of `rows` rows scrolls to: to the row
/// whose line it has just taken over, in the middle, unless it tails; to
/// its last row, at the bottom, if it tails and has a row; else nowhere.
pub open spec fn is_scroll_target(
    target: ScrollTarget,
    tails: bool,
    rows: nat,
    taken_over: Option<usize>,
) -> bool {
    if taken_over is Some && !tails {
        target == ScrollTarget::Center(taken_over.unwrap())
    } else if tails && rows > 0 {
        target matches ScrollTarget::Bottom(row) && row + 1 == rows
    } else {
        target == ScrollTarget::Stay
    }
}

/// The view of a filter that is handed over as a slice.
pub open spec fn filter_view(filtered_entries: Option<&[LineNumber]>) -> Option<Seq<LineNumber>> {
    match filtered_entries {
        Some(lines) => Some(lines@),
        None => None,
    }
}

/// The number of rows of a table over a file of `line_count` lines.
pub open spec fn row_total(line_count: nat, filtered_entries: Option<Seq<LineNumber>>) -> nat {
    match filtered_entries {
        Some(lines) => lines.len(),
        None => line_count,
    }
}

/// The state of one table of log lines.
pub struct LogEntriesTable {
    selected_line: Option<usize>,
    scroll_to_selected: bool,
    sync_line_selection: bool,
    tail_log: bool,
}

impl LogEntriesTable {
    /// The line that is selected in this table.
    pub closed spec fn selection(&self) -> Option<usize> {
        self.selected_line
    }

    /// Whether the table follows the selection of the other tabs, and they
    /// its own.
    pub closed spec fn follows_selection(&self) -> bool {
        self.sync_line_selection
    }

    /// Whether the table keeps its last row in sight.
    pub closed spec fn tails(&self) -> bool {
        self.tail_log
    }

    /// Whether a scroll to the selected line is asked for.
    pub closed spec fn scroll_pending(&self) -> bool {
        self.scroll_to_selected
    }

    /// The row of the line that the table takes over from the selection of
    /// the other tabs: it follows the selection, the selected line is not
    /// its own, and it shows that line.
    pub open spec fn row_taken_over(
        &self,
        selected: Option<LineNumber>,
        filtered_entries: Option<Seq<LineNumber>>,
    ) -> Option<usize> {
        if self.follows_selection() && self.selection() != selected {
            match selected {
                Some(line_number) => row_for_line(line_number, filtered_entries),
                None => None,
            }
        } else {
            None
        }
    }

    /// Whether the table is as it is made: without a selection, following
    /// the selection of the other tabs, not tailing, and with no scroll
    /// asked for.
    pub open spec fn is_fresh(&self) -> bool {
        &&& self.selection() is None
        &&& self.follows_selection()
        &&& !self.tails()
        &&& !self.scroll_pending()
    }

    /// A table without a selection, which follows the selection of the
    /// other tabs and does not tail the log.
    pub fn new() -> (table: Self)
        ensures
            table.is_fresh(),
    {
        Self {
            selected_line: None,
            scroll_to_selected: false,
            sync_line_selection: true,
            tail_log: false,
        }
    }

    /// The line that is selected in this table.
    pub fn selected_line(&self) -> (line: Option<usize>)
        ensures
            line == self.selection(),
    {
        self.selected_line
    }

    /// Whether the table follows the selection of the other tabs.
    pub fn sync_line_selection(&self) -> (yes: bool)
        ensures
            yes == self.follows_selection(),
    {
        self.sync_line_selection
    }

    /// Whether the table keeps its last row in sight.
    pub fn tail_log(&self) -> (yes: bool)
        ensures
            yes == self.tails(),
    {
        self.tail_log
    }

    /// Switches tailing on or off.
    pub fn toggle_tail_log(&mut self)
        ensures
            final(self).tails() == !old(self).tails(),
            final(self).selection() == old(self).selection(),
            final(self).follows_selection() == old(self).follows_selection(),
            final(self).scroll_pending() == old(self).scroll_pending(),
    {
        self.tail_log = !self.tail_log;
    }

    /// Switches the following of the selection on or off.
    pub fn toggle_sync_line_selection(&mut self)
        ensures
            final(self).follows_selection() == !old(self).follows_selection(),
            final(self).selection() == old(self).selection(),
            final(self).tails() == old(self).tails(),
            final(self).scroll_pending() == old(self).scroll_pending(),
    {
        self.sync_line_selection = !self.sync_line_selection;
    }

    /// The number of rows of the table.
    pub fn total_rows(log_file_reader: &LogFileReader, filtered_entries: Option<&[LineNumber]>) -> (rows:
        usize)
        requires
            log_file_reader.wf(),
        ensures
            rows == row_total(log_file_reader.spec_line_count(), filter_view(filtered_entries)),
    {
        match filtered_entries {
            Some(lines) => lines.len(),
            None => log_file_reader.line_count(),
        }
    }

    /// The line that row `row` shows: the `row`-th line of the result set,
    /// if there is one, and line `row` without a filter.
    pub fn line_for_row(row: usize, filtered_entries: Option<&[LineNumber]>) -> (line: Option<
        LineNumber,
    >)
        ensures
            line == (match filter_view(filtered_entries) {
                Some(lines) => if row < lines.len() {
                    Some(lines[row as int])
                } else {
                    None
                },
                None => Some(row),
            }),
    {
        match filtered_entries {
            Some(lines) => if row < lines.len() {
                Some(lines[row])
            } else {
                None
            },
            None => Some(row),
        }
    }

    /// Maps a line number to a table row.
    ///
    /// Without a filter the row is the line number. With a filter the result
    /// set is searched by bisection: a row that is returned always shows the
    /// line, and in a result set, which ascends strictly, the line is found
    /// whenever it is there.
    pub fn find_row_for_line(
        &self,
        line_number: LineNumber,
        filtered_entries: Option<&[LineNumber]>,
    ) -> (row: Option<usize>)
        ensures
            row matches Some(r) ==> is_row_of(r, line_number, filter_view(filtered_entries)),
            filtered_entries is None ==> row == Some(line_number),
            is_sorted_filter(filter_view(filtered_entries)) ==> row == row_for_line(
                line_number,
                filter_view(filtered_entries),
            ),
    {
        match filtered_entries {
            Some(lines) => {
                let mut low: usize = 0;
                let mut high: usize = lines.len();
                while low < high
                    invariant
                        low <= high <= lines.len(),
                        filtered_entries == Some(lines),
                        is_result_set(lines@) ==> forall|i: int|
                            0 <= i < low ==> #[trigger] lines[i] < line_number,
                        is_result_set(lines@) ==> forall|i: int|
                            high <= i < lines.len() ==> #[trigger] lines[i] > line_number,
                    decreases high - low,
                {
                    let middle = low + (high - low) / 2;
                    let candidate = lines[middle];
                    if candidate == line_number {
                        proof {
                            if is_result_set(lines@) {
                                lemma_row_of_line(lines@, middle as int);
                            }
                        }
                        return Some(middle);
                    } else if candidate < line_number {
                        low = middle + 1;
                    } else {
                        high = middle;
                    }
                }
                proof {
                    if is_result_set(lines@) && lines@.contains(line_number) {
                        let i = choose|i: int| 0 <= i < lines@.len() && lines@[i] == line_number;
                        assert(lines[i] == line_number);
                    }
                }
                None
            },
            None => Some(line_number),
        }
    }

    /// The last row of the table, if it has any row.
    pub fn last_row_index(
        &self,
        log_file_reader: &LogFileReader,
        filtered_entries: Option<&[LineNumber]>,
    ) -> (row: Option<usize>)
        requires
            log_file_reader.wf(),
        ensures
            match row {
                Some(last) => last + 1 == row_total(
                    log_file_reader.spec_line_count(),
                    filter_view(filtered_entries),
                ),
                None => row_total(log_file_reader.spec_line_count(), filter_view(filtered_entries))
                    == 0,
            },
    {
        let rows = Self::total_rows(log_file_reader, filtered_entries);
        if rows == 0 {
            None
        } else {
            Some(rows - 1)
        }
    }

    /// Whether the row of `line_number` is drawn as selected.
    pub fn is_selected(&self, line_number: LineNumber) -> (yes: bool)
        ensures
            yes == (self.selection() == Some(line_number)),
    {
        match self.selected_line {
            Some(selected) => selected == line_number,
            None => false,
        }
    }

    /// Brings the table in line with the selection of the other tabs, and
    /// says where it scrolls to.
    ///
    /// A table that tails the log scrolls its last row to the bottom. A
    /// table that follows the selection takes over a selected line that it
    /// shows, and scrolls it to the middle unless it tails.
    pub fn update_selection(
        &mut self,
        log_file_reader: &LogFileReader,
        viewer_state: &LogViewerState,
        filtered_entries: Option<&[LineNumber]>,
    ) -> (target: ScrollTarget)
        requires
            log_file_reader.wf(),
        ensures
            final(self).tails() == old(self).tails(),
            final(self).follows_selection() == old(self).follows_selection(),
            final(self).scroll_pending() == (old(self).scroll_pending() && !(old(self).follows_selection()
                && old(self).selection() != viewer_state.selected_line_num)),
            final(self).selection() == viewer_state.selected_line_num || final(self).selection()
                == old(self).selection(),
            target matches ScrollTarget::Center(row) ==> (viewer_state.selected_line_num matches Some(line)
                && is_row_of(row, line, filter_view(filtered_entries))),
            is_sorted_filter(filter_view(filtered_entries)) ==> {
                let taken_over = old(self).row_taken_over(
                    viewer_state.selected_line_num,
                    filter_view(filtered_entries),
                );
                &&& final(self).selection() == (if taken_over is Some {
                    viewer_state.selected_line_num
                } else {
                    old(self).selection()
                })
                &&& is_scroll_target(
                    target,
                    old(self).tails(),
                    row_total(log_file_reader.spec_line_count(), filter_view(filtered_entries)),
                    taken_over,
                )
            },
    {
        let mut target = ScrollTarget::Stay;
        if self.tail_log {
            if let Some(row) = self.last_row_index(log_file_reader, filtered_entries) {
                target = ScrollTarget::Bottom(row);
            }
        }
        if self.sync_line_selection && !same_line(self.selected_line, viewer_state.selected_line_num) {
            if let Some(selected_line) = viewer_state.selected_line_num {
                if let Some(selected_row) = self.find_row_for_line(selected_line, filtered_entries) {
                    self.selected_line = viewer_state.selected_line_num;
                    if !self.tail_log {
                        target = ScrollTarget::Center(selected_row);
                    }
                }
            }
            self.scroll_to_selected = false;
        }
        target
    }

    /// Selects the line of a row that was clicked, and hands the selection
    /// on to the other tabs if the table follows the selection.
    pub fn select_line(&mut self, viewer_state: &mut LogViewerState, line_number: LineNumber)
        ensures
            final(self).selection() == Some(line_number),
            final(self).tails() == old(self).tails(),
            final(self).follows_selection() == old(self).follows_selection(),
            final(self).scroll_pending() == old(self).scroll_pending(),
            final(viewer_state).selected_line_num == (if old(self).follows_selection() {
                Some(line_number)
            } else {
                old(viewer_state).selected_line_num
            }),
            final(viewer_state).displayed_columns == old(viewer_state).displayed_columns,
            final(viewer_state).column_styles == old(viewer_state).column_styles,
    {
        self.selected_line = Some(line_number);
        if self.sync_line_selection {
            viewer_state.selected_line_num = self.selected_line;
        }
    }
}

/// The position of the first line feed at or behind `from`, or the number
/// of bytes if there is none.
pub open spec fn first_line_feed(bytes: Seq<u8>, from: int) -> int
    decreases bytes.len() - from,
{
    if from >= bytes.len() {
        bytes.len() as int
    } else if from >= 0 && bytes[from] == LINE_FEED {
        from
    } else {
        first_line_feed(bytes, from + 1)
    }
}

/// The first line of `text`, without its line feed: what a cell of the
/// table shows of a value.
pub fn first_line(text: &str) -> (line: &str)
    ensures
        line.spec_bytes() == text.spec_bytes().take(first_line_feed(text.spec_bytes(), 0)),
{
    let bytes = text.as_bytes();
    let mut i: usize = 0;
    while i < bytes.len() && bytes[i] != LINE_FEED
        invariant
            i <= bytes.len(),
            first_line_feed(bytes@, 0) == first_line_feed(bytes@, i as int),
        decreases bytes.len() - i,
    {
        assert(first_line_feed(bytes@, i as int) == first_line_feed(bytes@, i + 1));
        i = i + 1;
    }
    proof {
        assert(first_line_feed(bytes@, i as int) == i);
        encode_utf8_valid_utf8(text@);
        if i < bytes.len() {
            assert(!is_continuation_byte(bytes@[i as int]));
            is_char_boundary_iff_not_is_continuation_byte(bytes@, i as int);
        } else {
            is_char_boundary_start_end_of_seq(bytes@);
        }
    }
    let (line, _) = text.split_at(i);
    line
}

/// Whether two selections are the same line, or both none.
pub fn same_line(first: Option<LineNumber>, second: Option<LineNumber>) -> (same: bool)
    ensures
        same == (first == second),
{
    match (first, second) {
        (Some(a), Some(b)) => a == b,
        (None, None) => true,
        _ => false,
    }
}

/// In a result set the row of the line in row `row` is `row`: looking a line
/// up by its number undoes looking it up by its row.
pub proof fn lemma_row_of_line(lines: Seq<LineNumber>, row: int)
    requires
        is_result_set(lines),
        0 <= row < lines.len(),
    ensures
        row_of_line(lines, lines[row]) == Some(row as usize),
        row <= usize::MAX,
{
    assert(lines.contains(lines[row]));
    let found = lines.index_of(lines[row]);
    lemma_row_of_line_is_unique(lines, found, row);
    lemma_result_set_is_short(lines);
}

/// A result set has no more rows than there are line numbers.
pub proof fn lemma_result_set_is_short(lines: Seq<LineNumber>)
    requires
        is_result_set(lines),
    ensures
        lines.len() <= usize::MAX + 1,
    decreases lines.len(),
{
    if lines.len() > 0 {
        lemma_result_set_is_short(lines.drop_last());
        lemma_result_set_lower_bound(lines, lines.len() - 1);
    }
}

/// The line in row `row` of a result set has at least the number `row`.
pub proof fn lemma_result_set_lower_bound(lines: Seq<LineNumber>, row: int)
    requires
        is_result_set(lines),
        0 <= row < lines.len(),
    ensures
        lines[row] >= row,
    decreases row,
{
    if row > 0 {
        lemma_result_set_lower_bound(lines, row - 1);
        assert(lines[row - 1] < lines[row]);
    }
}

/// No line stands in two rows of a result set.
pub proof fn lemma_row_of_line_is_unique(lines: Seq<LineNumber>, first: int, second: int)
    requires
        is_result_set(lines),
        0 <= first < lines.len(),
        0 <= second < lines.len(),
        lines[first] == lines[second],
    ensures
        first == second,
{
    if first < second {
        assert(lines[first] < lines[second]);
    } else if second < first {
        assert(lines[second] < lines[first]);
    }
}

} // verus!
