//! The tab that shows every field of the selected entry.

use crate::field_value::document_of;
use crate::line_index::{terminator_count, terminators_upto, LINE_FEED};
use crate::log_file_reader::{entry_of, lossy_text, LogEntry, LogFileReader};
use crate::log_view::LogViewerState;
use vstd::prelude::*;
use vstd::string::StringSliceAdditionalSpecFns;

verus! {

/// The title of the tab.
pub const CONTEXT_TITLE: &'static str = "📓 Context";

/// What the tab shows.
#[derive(Debug, PartialEq, Eq)]
pub enum ContextView {
    /// No line is selected.
    NothingSelected,
    /// The selected line cannot be read as an entry.
    Unreadable,
    /// The fields of the selected entry.
    Fields(LogEntry),
}

/// The state of one context tab. It has none of its own: what it shows
/// follows from the selection.
#[derive(Clone, Copy, Debug, PartialEq, Eq, Structural)]
pub struct LogEntryContextTab {}

/// What the tab shows, as a specification.
pub open spec fn context_of(
    log_reader: &LogFileReader,
    content: Seq<u8>,
    selected: Option<usize>,
) -> ContextView {
    match selected {
        None => ContextView::NothingSelected,
        Some(line_num) => if log_reader.can_read(content, line_num) {
            match entry_of(document_of(lossy_text(log_reader.raw_line(content, line_num)))) {
                Some(entry) => ContextView::Fields(entry),
                None => ContextView::Unreadable,
            }
        } else {
            ContextView::Unreadable
        },
    }
}

impl LogEntryContextTab {
    /// A context tab.
    pub fn new() -> (tab: Box<Self>) {
        Box::new(Self {  })
    }

    /// The title of the tab.
    pub fn title(&self) -> (title: String)
        ensures
            title@ == CONTEXT_TITLE@,
    {
        CONTEXT_TITLE.to_owned()
    }

    /// What the tab shows for the selection of `viewer_state`: the entry on
    /// the selected line of `content`, if a line is selected and is an
    /// entry.
    pub fn context(
        &self,
        log_reader: &LogFileReader,
        content: &[u8],
        viewer_state: &LogViewerState,
    ) -> (view: ContextView)
        requires
            log_reader.wf(),
        ensures
            view == context_of(log_reader, content@, viewer_state.selected_line_num),
    {
        match viewer_state.selected_line_num {
            None => ContextView::NothingSelected,
            Some(line_num) => match log_reader.read_entry(content, line_num) {
                Some(entry) => ContextView::Fields(entry),
                None => ContextView::Unreadable,
            },
        }
    }

    /// The number of lines that the text of a value takes: one more than it
    /// has line feeds, as far as a `usize` can count.
    pub fn value_line_count(value: &str) -> (lines: usize)
        ensures
            lines == (if terminator_count(value.spec_bytes()) < usize::MAX {
                terminator_count(value.spec_bytes()) + 1
            } else {
                usize::MAX as nat
            }),
    {
        let bytes = value.as_bytes();
        let mut count: usize = 0;
        let mut i: usize = 0;
        while i < bytes.len()
            invariant
                i <= bytes.len(),
                count == terminators_upto(bytes@, i as int),
                count <= i,
            decreases bytes.len() - i,
        {
            if bytes[i] == LINE_FEED {
                count = count + 1;
            }
            i = i + 1;
        }
        if count == usize::MAX {
            usize::MAX
        } else {
            count + 1
        }
    }
}

} // verus!
