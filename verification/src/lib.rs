//! Line-indexed access to newline-delimited JSON log files, and search over
//! them.
//!
//! The crate works on bytes that its caller has read: it builds the table of
//! line offsets, cuts and decodes single lines, parses them as log entries,
//! searches the text for a pattern and maps between line numbers and rows of a
//! filtered view. Reading files, watching them for changes and drawing the
//! user interface are left to the program around it.

pub mod field_value;
pub mod filtered_log_entries_tab;
pub mod fraction_guard;
pub mod line_index;
pub mod line_text;
pub mod log_entries_tab;
pub mod log_entries_table;
pub mod log_entry_context_tab;
pub mod log_file_reader;
pub mod log_view;
pub mod search;
pub mod search_window;
pub mod time_point;
