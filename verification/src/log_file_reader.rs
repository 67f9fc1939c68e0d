//! Random access to the lines of a log file, and the reading of a line as a
//! log entry.
//!
//! The reader keeps the offset table of the file as it was when it was last
//! loaded. The bytes themselves stay with the caller, who hands them over to
//! load the table and to cut a line out of them.

use crate::field_value::{alike, document_of, member, parse_value, FieldValue};
use crate::line_index::{
    is_offset_table, lemma_line_starts_sound, line_bytes, line_offsets, line_total, FileOffset,
    LineIndex,
};
use crate::time_point::TimePoint;
use vstd::prelude::*;

verus! {

/// The number of a line, counted from zero.
pub type LineNumber = usize;

/// The name of the field that holds an entry's severity.
pub const LEVEL_FIELD: &'static str = "level";

/// The name of the field that holds an entry's timestamp.
pub const TIMESTAMP_FIELD: &'static str = "t";

/// One line of the log, read as a JSON object that carries a timestamp.
#[derive(Debug, PartialEq, Eq)]
pub struct LogEntry {
    /// The text of the field `t`.
    pub timestamp: String,
    /// The whole object, the field `t` included.
    pub object: FieldValue,
}

/// The text that a lossy UTF-8 decoding makes of `bytes`: the characters
/// they encode, with U+FFFD in place of what is not valid UTF-8.
pub uninterp spec fn lossy_text(bytes: Seq<u8>) -> Seq<char>;

/// The entry that a parsed line stands for: the line must be an object whose
/// first field named `t` is a string.
pub open spec fn entry_of(document: Option<FieldValue>) -> Option<LogEntry> {
    match document {
        Some(FieldValue::Object(members)) => match member(members@, TIMESTAMP_FIELD@) {
            Some(FieldValue::Text(timestamp)) => Some(
                LogEntry { timestamp, object: FieldValue::Object(members) },
            ),
            _ => None,
        },
        _ => None,
    }
}

/// `String::from_utf8_lossy`, with the result as an owned string. The
/// contract names the result and states what the documentation says of valid
/// input: it is decoded as it stands.
#[verifier::external_body]
fn decode_utf8_lossy(bytes: &[u8]) -> (text: String)
    ensures
        text@ == lossy_text(bytes@),
        vstd::utf8::valid_utf8(bytes@) ==> text@ == vstd::utf8::decode_utf8(bytes@),
{
    String::from_utf8_lossy(bytes).into_owned()
}

/// The text of a line: its bytes decoded as UTF-8, with U+FFFD in place of
/// what is not valid.
pub fn decode_line(bytes: &[u8]) -> (text: String)
    ensures
        text@ == lossy_text(bytes@),
        vstd::utf8::valid_utf8(bytes@) ==> text@ == vstd::utf8::decode_utf8(bytes@),
{
    decode_utf8_lossy(bytes)
}

/// The entry that a parsed line stands for, or `None` if the line was no
/// JSON, no object, or an object without a string in its field `t`.
pub fn entry_from_document(document: Option<FieldValue>) -> (entry: Option<LogEntry>)
    ensures
        entry == entry_of(document),
{
    match document {
        Some(object) => {
            let timestamp = match object.get(TIMESTAMP_FIELD) {
                Some(FieldValue::Text(text)) => Some(text.clone()),
                _ => None,
            };
            match timestamp {
                Some(timestamp) => Some(LogEntry { timestamp, object }),
                None => None,
            }
        },
        None => None,
    }
}

/// Reads the lines of one log file by number.
pub struct LogFileReader {
    index: LineIndex,
    load_time_point: Option<TimePoint>,
    change_pending: bool,
}

impl Clone for LogEntry {
    /// A copy of the entry with the same timestamp and an object alike.
    fn clone(&self) -> (copy: Self)
        ensures
            copy.timestamp@ == self.timestamp@,
            alike(self.object, copy.object),
    {
        LogEntry { timestamp: self.timestamp.clone(), object: self.object.clone() }
    }
}

impl LogEntry {
    /// The text of the field `level`, if the entry has one that is a
    /// string.
    pub fn level(&self) -> (level: Option<&str>)
        ensures
            match self.object.spec_get(LEVEL_FIELD@) {
                Some(FieldValue::Text(text)) => level is Some && level.unwrap()@ == text@,
                _ => level is None,
            },
    {
        match self.object.get(LEVEL_FIELD) {
            Some(FieldValue::Text(text)) => Some(text.as_str()),
            _ => None,
        }
    }
}

impl LogFileReader {
    /// The offset table that the reader holds.
    pub closed spec fn offsets(&self) -> Seq<int> {
        self.index@
    }

    /// When the table was last loaded, if it ever was.
    pub closed spec fn loaded_at(&self) -> Option<TimePoint> {
        self.load_time_point
    }

    /// Whether a change of the file was signalled and not yet asked for.
    pub closed spec fn change_pending(&self) -> bool {
        self.change_pending
    }

    /// The invariant of the type: the reader holds a well-formed table.
    pub open spec fn wf(&self) -> bool {
        is_offset_table(self.offsets())
    }

    /// The number of lines, as a specification.
    pub open spec fn spec_line_count(&self) -> nat {
        (self.offsets().len() - 1) as nat
    }

    /// Whether the reader holds the table of `content`.
    pub open spec fn is_loaded_from(&self, content: Seq<u8>) -> bool {
        self.offsets() == line_offsets(content)
    }

    /// A reader for a file that was not loaded yet: it shows no line.
    pub fn open() -> (reader: Self)
        ensures
            reader.wf(),
            reader.spec_line_count() == 0,
            reader.is_loaded_from(Seq::<u8>::empty()),
            reader.loaded_at() is None,
            !reader.change_pending(),
    {
        LogFileReader { index: LineIndex::empty(), load_time_point: None, change_pending: false }
    }

    /// Takes `index` as the table of the file, loaded at the time `now`, and
    /// returns the number of lines.
    pub fn load_index_at(&mut self, index: LineIndex, now: TimePoint) -> (count: usize)
        requires
            index.wf(),
        ensures
            final(self).wf(),
            final(self).offsets() == index@,
            final(self).loaded_at() == Some(now),
            final(self).change_pending() == old(self).change_pending(),
            count == final(self).spec_line_count(),
    {
        self.index = index;
        self.load_time_point = Some(now);
        self.index.line_count()
    }

    /// Takes `index` as the table of the file, loaded now, and returns the
    /// number of lines.
    pub fn load_index(&mut self, index: LineIndex) -> (count: usize)
        requires
            index.wf(),
        ensures
            final(self).wf(),
            final(self).offsets() == index@,
            final(self).loaded_at() matches Some(at) && at.is_normal(),
            final(self).change_pending() == old(self).change_pending(),
            count == final(self).spec_line_count(),
    {
        self.load_index_at(index, TimePoint::now())
    }

    /// Builds the table anew from the bytes of the file, loaded at the time
    /// `now`, and returns the number of lines.
    pub fn load_at(&mut self, content: &[u8], now: TimePoint) -> (count: usize)
        ensures
            final(self).wf(),
            final(self).is_loaded_from(content@),
            final(self).loaded_at() == Some(now),
            final(self).change_pending() == old(self).change_pending(),
            count == line_total(content@),
    {
        self.load_index_at(LineIndex::build(content), now)
    }

    /// Builds the table anew from the bytes of the file and returns the
    /// number of lines.
    pub fn load(&mut self, content: &[u8]) -> (count: usize)
        ensures
            final(self).wf(),
            final(self).is_loaded_from(content@),
            final(self).loaded_at() matches Some(at) && at.is_normal(),
            final(self).change_pending() == old(self).change_pending(),
            count == line_total(content@),
    {
        self.load_at(content, TimePoint::now())
    }

    /// Forgets the table after a load that failed: the file stays open and
    /// shows no line.
    pub fn unload(&mut self)
        ensures
            final(self).wf(),
            final(self).spec_line_count() == 0,
            final(self).is_loaded_from(Seq::<u8>::empty()),
            final(self).loaded_at() == old(self).loaded_at(),
            final(self).change_pending() == old(self).change_pending(),
    {
        self.index = LineIndex::empty();
    }

    /// Records that the file was changed. Several changes before the next
    /// `has_changed` count as one.
    pub fn signal_change(&mut self)
        ensures
            final(self).change_pending(),
            final(self).offsets() == old(self).offsets(),
            final(self).loaded_at() == old(self).loaded_at(),
    {
        self.change_pending = true;
    }

    /// Whether the file was changed since this was last asked. The answer
    /// `true` is given once for the changes signalled so far.
    pub fn has_changed(&mut self) -> (changed: bool)
        ensures
            changed == old(self).change_pending(),
            !final(self).change_pending(),
            final(self).offsets() == old(self).offsets(),
            final(self).loaded_at() == old(self).loaded_at(),
    {
        let changed = self.change_pending;
        self.change_pending = false;
        changed
    }

    /// Loads the table anew from the bytes of the file if a change was
    /// signalled since this was last asked, at the time `now`. Returns the
    /// new number of lines, or `None` if there was no change.
    pub fn reload_if_changed_at(&mut self, content: &[u8], now: TimePoint) -> (reloaded: Option<
        usize,
    >)
        requires
            old(self).wf(),
        ensures
            final(self).wf(),
            !final(self).change_pending(),
            old(self).change_pending() ==> {
                &&& reloaded == Some(line_total(content@) as usize)
                &&& line_total(content@) <= usize::MAX
                &&& final(self).is_loaded_from(content@)
                &&& final(self).loaded_at() == Some(now)
            },
            !old(self).change_pending() ==> {
                &&& reloaded is None
                &&& final(self).offsets() == old(self).offsets()
                &&& final(self).loaded_at() == old(self).loaded_at()
            },
    {
        if self.has_changed() {
            Some(self.load_at(content, now))
        } else {
            None
        }
    }

    /// Loads the table anew from the bytes of the file if a change was
    /// signalled since this was last asked. Returns the new number of lines,
    /// or `None` if there was no change.
    pub fn reload_if_changed(&mut self, content: &[u8]) -> (reloaded: Option<usize>)
        requires
            old(self).wf(),
        ensures
            final(self).wf(),
            !final(self).change_pending(),
            old(self).change_pending() ==> {
                &&& reloaded == Some(line_total(content@) as usize)
                &&& line_total(content@) <= usize::MAX
                &&& final(self).is_loaded_from(content@)
                &&& final(self).loaded_at() matches Some(at) && at.is_normal()
            },
            !old(self).change_pending() ==> {
                &&& reloaded is None
                &&& final(self).offsets() == old(self).offsets()
                &&& final(self).loaded_at() == old(self).loaded_at()
            },
    {
        self.reload_if_changed_at(content, TimePoint::now())
    }

    /// When the table was last loaded, if it ever was.
    pub fn load_time_point(&self) -> (at: Option<TimePoint>)
        ensures
            at == self.loaded_at(),
    {
        self.load_time_point
    }

    /// The number of lines of the file as it was when it was last loaded;
    /// zero before the first load.
    pub fn line_count(&self) -> (count: usize)
        requires
            self.wf(),
        ensures
            count == self.spec_line_count(),
    {
        self.index.line_count()
    }

    /// Where line `line_num` starts, or the size of the file if it has no
    /// such line.
    pub fn line_start_offset(&self, line_num: LineNumber) -> (offset: FileOffset)
        requires
            self.wf(),
        ensures
            offset == (if line_num < self.offsets().len() {
                self.offsets()[line_num as int]
            } else {
                self.offsets().last()
            }),
    {
        match self.index.offset_at(line_num) {
            Some(offset) => offset,
            None => self.index.file_size(),
        }
    }

    /// Where line `line_num` ends, or the size of the file if it has no such
    /// line.
    pub fn line_end_offset(&self, line_num: LineNumber) -> (offset: FileOffset)
        requires
            self.wf(),
        ensures
            offset == (if line_num + 1 < self.offsets().len() {
                self.offsets()[line_num + 1]
            } else {
                self.offsets().last()
            }),
    {
        if line_num == usize::MAX {
            proof {
                self.index.lemma_len_fits();
            }
            return self.index.file_size();
        }
        match self.index.offset_at(line_num + 1) {
            Some(offset) => offset,
            None => self.index.file_size(),
        }
    }

    /// Where line `line_num` starts and ends. For a line that the file does
    /// not have, both are the size of the file.
    pub fn line_file_offsets(&self, line_num: LineNumber) -> (span: (FileOffset, FileOffset))
        requires
            self.wf(),
        ensures
            line_num < self.spec_line_count() ==> span.0 == self.offsets()[line_num as int]
                && span.1 == self.offsets()[line_num + 1] && span.0 < span.1,
            line_num >= self.spec_line_count() ==> span.0 == self.offsets().last() && span.1
                == self.offsets().last(),
    {
        (self.line_start_offset(line_num), self.line_end_offset(line_num))
    }

    /// The byte span of line `line_num`: where it starts and where it ends,
    /// its line feed included. `None` if the reader knows no such line.
    pub fn line_span(&self, line_num: LineNumber) -> (span: Option<(FileOffset, FileOffset)>)
        requires
            self.wf(),
        ensures
            match span {
                Some((start, end)) => {
                    &&& line_num < self.spec_line_count()
                    &&& start == self.offsets()[line_num as int]
                    &&& end == self.offsets()[line_num + 1]
                    &&& start < end
                },
                None => line_num >= self.spec_line_count(),
            },
    {
        self.index.line_span(line_num)
    }

    /// Whether line `line_num` can be cut out of `content`: the reader knows
    /// the line, and `content` reaches to its end.
    pub open spec fn can_read(&self, content: Seq<u8>, line_num: LineNumber) -> bool {
        line_num < self.spec_line_count() && self.offsets()[line_num + 1] <= content.len()
    }

    /// The bytes of line `line_num` in `content`, by the reader's table.
    pub open spec fn raw_line(&self, content: Seq<u8>, line_num: LineNumber) -> Seq<u8> {
        content.subrange(self.offsets()[line_num as int], self.offsets()[line_num + 1])
    }

    /// The text of line `line_num`, cut out of `content` by the table and
    /// decoded as UTF-8. `None` if the reader knows no such line, or if
    /// `content` ends before the line does.
    pub fn read_line(&self, content: &[u8], line_num: LineNumber) -> (line: Option<String>)
        requires
            self.wf(),
        ensures
            match line {
                Some(text) => {
                    &&& self.can_read(content@, line_num)
                    &&& text@ == lossy_text(self.raw_line(content@, line_num))
                    &&& vstd::utf8::valid_utf8(self.raw_line(content@, line_num)) ==> text@
                        == vstd::utf8::decode_utf8(self.raw_line(content@, line_num))
                },
                None => !self.can_read(content@, line_num),
            },
    {
        match self.index.line_span(line_num) {
            Some((start, end)) => {
                if end > content.len() as u64 {
                    None
                } else {
                    Some(decode_line(&content[start as usize..end as usize]))
                }
            },
            None => None,
        }
    }

    /// The entry on line `line_num`: the line read by `read_line` and parsed
    /// by `parse_logline`.
    pub fn read_entry(&self, content: &[u8], line_num: LineNumber) -> (entry: Option<LogEntry>)
        requires
            self.wf(),
        ensures
            entry == (if self.can_read(content@, line_num) {
                entry_of(document_of(lossy_text(self.raw_line(content@, line_num))))
            } else {
                None
            }),
    {
        match self.read_line(content, line_num) {
            Some(text) => Self::parse_logline(text.as_str()),
            None => None,
        }
    }

    /// Reads one line as a log entry: a JSON object with a string in its
    /// field `t`. Any other line gives `None`.
    pub fn parse_logline(line: &str) -> (entry: Option<LogEntry>)
        ensures
            entry == entry_of(document_of(line@)),
            document_of(line@) is None ==> entry is None,
            document_of(line@) matches Some(document) && !(document is Object) ==> entry is None,
            document_of(line@) matches Some(document) && !(document.spec_get(TIMESTAMP_FIELD@) matches Some(
                FieldValue::Text(_),
            )) ==> entry is None,
            entry matches Some(e) ==> e.object is Object && e.object.spec_get(TIMESTAMP_FIELD@)
                == Some(FieldValue::Text(e.timestamp)),
    {
        entry_from_document(parse_value(line))
    }
}

/// A reader that was loaded from `content` knows every line of it, can read
/// each of them out of `content`, and reads the bytes between the line's
/// start and the start of the next line, or the end of the file.
pub proof fn lemma_loaded_lines_can_be_read(
    reader: &LogFileReader,
    content: Seq<u8>,
    line_num: LineNumber,
)
    requires
        reader.is_loaded_from(content),
        line_num < line_total(content),
    ensures
        reader.spec_line_count() == line_total(content),
        reader.can_read(content, line_num),
        reader.raw_line(content, line_num) == line_bytes(content, line_num as int),
{
    lemma_line_starts_sound(content, content.len() as int);
}

/// A reader that was loaded from `content` reads no line beyond its last.
pub proof fn lemma_no_line_beyond_the_last(
    reader: &LogFileReader,
    content: Seq<u8>,
    line_num: LineNumber,
)
    requires
        reader.is_loaded_from(content),
        line_num >= line_total(content),
    ensures
        !reader.can_read(content, line_num),
{
}

} // verus!
