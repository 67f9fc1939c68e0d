//! The tab that shows every line of the file.

use crate::log_entries_table::{is_scroll_target, LogEntriesTable, ScrollTarget};
use crate::log_file_reader::{LineNumber, LogFileReader};
use crate::log_view::LogViewerState;
use vstd::prelude::*;

verus! {

/// The title of the tab.
pub const LOG_TITLE: &'static str = "Log";

/// The state of one tab that shows the whole log.
pub struct LogEntriesTab {
    log_entries_table: LogEntriesTable,
}

impl LogEntriesTab {
    /// The table that shows the lines.
    pub closed spec fn table(&self) -> LogEntriesTable {
        self.log_entries_table
    }

    /// A tab with a fresh table.
    pub fn new() -> (tab: Box<Self>)
        ensures
            tab.table().is_fresh(),
    {
        Box::new(Self { log_entries_table: LogEntriesTable::new() })
    }

    /// The title of the tab.
    pub fn title(&self) -> (title: String)
        ensures
            title@ == LOG_TITLE@,
    {
        LOG_TITLE.to_owned()
    }

    /// The table that shows the lines.
    pub fn log_entries_table(&self) -> (table: &LogEntriesTable)
        ensures
            *table == self.table(),
    {
        &self.log_entries_table
    }

    /// Brings the table in line with the selection of the other tabs, over
    /// all lines of the file, and says where it scrolls to.
    pub fn update_selection(
        &mut self,
        log_file_reader: &LogFileReader,
        viewer_state: &LogViewerState,
    ) -> (target: ScrollTarget)
        requires
            log_file_reader.wf(),
        ensures
            final(self).table().tails() == old(self).table().tails(),
            final(self).table().follows_selection() == old(self).table().follows_selection(),
            ({
                let taken_over = old(self).table().row_taken_over(
                    viewer_state.selected_line_num,
                    None,
                );
                &&& final(self).table().selection() == (if taken_over is Some {
                    viewer_state.selected_line_num
                } else {
                    old(self).table().selection()
                })
                &&& is_scroll_target(
                    target,
                    old(self).table().tails(),
                    log_file_reader.spec_line_count(),
                    taken_over,
                )
            }),
    {
        self.log_entries_table.update_selection(log_file_reader, viewer_state, None)
    }

    /// Selects the line of a row that was clicked.
    pub fn select_line(&mut self, viewer_state: &mut LogViewerState, line_number: LineNumber)
        ensures
            final(self).table().selection() == Some(line_number),
            final(self).table().tails() == old(self).table().tails(),
            final(self).table().follows_selection() == old(self).table().follows_selection(),
            final(viewer_state).selected_line_num == (if old(self).table().follows_selection() {
                Some(line_number)
            } else {
                old(viewer_state).selected_line_num
            }),
            final(viewer_state).displayed_columns == old(viewer_state).displayed_columns,
            final(viewer_state).column_styles == old(viewer_state).column_styles,
    {
        self.log_entries_table.select_line(viewer_state, line_number);
    }

    /// Switches the tailing of the log on or off.
    pub fn toggle_tail_log(&mut self)
        ensures
            final(self).table().tails() == !old(self).table().tails(),
            final(self).table().selection() == old(self).table().selection(),
            final(self).table().follows_selection() == old(self).table().follows_selection(),
    {
        self.log_entries_table.toggle_tail_log();
    }

    /// Switches the following of the selection on or off.
    pub fn toggle_sync_line_selection(&mut self)
        ensures
            final(self).table().follows_selection() == !old(self).table().follows_selection(),
            final(self).table().selection() == old(self).table().selection(),
            final(self).table().tails() == old(self).table().tails(),
    {
        self.log_entries_table.toggle_sync_line_selection();
    }
}

} // verus!
