use json_log_reader::field_value::FieldValue;
use json_log_reader::line_index::{LineIndex, LineIndexBuilder};
use json_log_reader::log_file_reader::{decode_line, LogFileReader};
use json_log_reader::time_point::TimePoint;

const TWO_LINES: &[u8] =
    b"{\"t\":\"2024-01-01T00:00:00Z\",\"level\":\"INFO\",\"message\":\"hello\"}\nnot json\n";

fn at(secs: u64) -> TimePoint {
    TimePoint { secs, nanos: 0 }
}

#[test]
fn a_reader_that_was_not_loaded_shows_no_line() {
    let mut reader = LogFileReader::open();
    assert_eq!(reader.line_count(), 0);
    assert_eq!(reader.load_time_point(), None);
    assert!(!reader.has_changed());
    assert_eq!(reader.read_line(b"some bytes\n", 0), None);
    assert_eq!(reader.line_file_offsets(0), (0, 0));
}

#[test]
fn scenario_entry_and_raw_line() {
    let mut reader = LogFileReader::open();
    assert_eq!(reader.load(TWO_LINES), 2);
    assert_eq!(reader.line_count(), 2);
    let entry = reader.read_entry(TWO_LINES, 0).unwrap();
    assert_eq!(entry.timestamp, "2024-01-01T00:00:00Z");
    assert_eq!(entry.object.get("level"), Some(&FieldValue::Text("INFO".to_string())));
    assert_eq!(entry.object.get("message"), Some(&FieldValue::Text("hello".to_string())));
    assert_eq!(reader.read_entry(TWO_LINES, 1), None);
    assert_eq!(reader.read_line(TWO_LINES, 1), Some("not json\n".to_string()));
    assert_eq!(reader.read_entry(TWO_LINES, 2), None);
}

#[test]
fn load_records_the_time() {
    let mut reader = LogFileReader::open();
    assert_eq!(reader.load_at(b"a\nb\n", at(17)), 2);
    assert_eq!(reader.load_time_point(), Some(at(17)));
    assert_eq!(reader.load_at(b"a\n", TimePoint { secs: 18, nanos: 5 }), 1);
    assert_eq!(reader.load_time_point(), Some(TimePoint { secs: 18, nanos: 5 }));
}

#[test]
fn load_by_the_clock_records_some_time() {
    let mut reader = LogFileReader::open();
    assert_eq!(reader.load(b"a\nb\nc"), 3);
    let loaded = reader.load_time_point().unwrap();
    assert!(loaded.secs > 0);
    assert!(loaded.nanos < 1_000_000_000);
}

#[test]
fn read_line_returns_the_span_between_two_offsets() {
    let content: &[u8] = b"first\nsecond\n\nlast";
    let mut reader = LogFileReader::open();
    assert_eq!(reader.load(content), 4);
    assert_eq!(reader.read_line(content, 0), Some("first\n".to_string()));
    assert_eq!(reader.read_line(content, 1), Some("second\n".to_string()));
    assert_eq!(reader.read_line(content, 2), Some("\n".to_string()));
    assert_eq!(reader.read_line(content, 3), Some("last".to_string()));
    assert_eq!(reader.read_line(content, 4), None);
    assert_eq!(reader.read_line(content, usize::MAX), None);
}

#[test]
fn the_lines_read_give_back_the_file() {
    let content = "{\"t\":\"a\"}\nzwölf\n\n{\"t\":\"b\",\"n\":1}";
    let mut reader = LogFileReader::open();
    let count = reader.load(content.as_bytes());
    let mut joined = String::new();
    for line in 0..count {
        joined.push_str(&reader.read_line(content.as_bytes(), line).unwrap());
    }
    assert_eq!(joined, content);
}

#[test]
fn invalid_utf8_is_replaced_and_not_refused() {
    let content: &[u8] = b"ok\nbad \xff byte\n";
    let mut reader = LogFileReader::open();
    assert_eq!(reader.load(content), 2);
    assert_eq!(reader.read_line(content, 1), Some("bad \u{fffd} byte\n".to_string()));
}

#[test]
fn decode_line_keeps_valid_text_and_replaces_the_rest() {
    assert_eq!(decode_line(b""), "");
    assert_eq!(decode_line("gr\u{fc}n \u{1f4d3}".as_bytes()), "gr\u{fc}n \u{1f4d3}");
    assert_eq!(decode_line(b"a\xc3"), "a\u{fffd}");
    assert_eq!(decode_line(b"\xe2\x82"), "\u{fffd}");
    assert_eq!(decode_line(b"\xff\xff"), "\u{fffd}\u{fffd}");
}

#[test]
fn a_file_that_shrank_gives_no_line_past_its_end() {
    let loaded_from: &[u8] = b"one\ntwo\nthree\n";
    let shrunk: &[u8] = b"one\ntw";
    let mut reader = LogFileReader::open();
    assert_eq!(reader.load(loaded_from), 3);
    assert_eq!(reader.read_line(shrunk, 0), Some("one\n".to_string()));
    assert_eq!(reader.read_line(shrunk, 1), None);
    assert_eq!(reader.read_line(shrunk, 2), None);
}

#[test]
fn offsets_of_lines_and_of_what_is_no_line() {
    let mut reader = LogFileReader::open();
    reader.load(b"ab\ncde\nf");
    assert_eq!(reader.line_start_offset(0), 0);
    assert_eq!(reader.line_end_offset(0), 3);
    assert_eq!(reader.line_file_offsets(1), (3, 7));
    assert_eq!(reader.line_file_offsets(2), (7, 8));
    assert_eq!(reader.line_file_offsets(3), (8, 8));
    assert_eq!(reader.line_file_offsets(4), (8, 8));
    assert_eq!(reader.line_file_offsets(usize::MAX), (8, 8));
    assert_eq!(reader.line_start_offset(3), 8);
    assert_eq!(reader.line_end_offset(2), 8);
}

#[test]
fn scenario_reload_after_append() {
    let mut file: Vec<u8> = b"{\"t\":\"1\"}\n{\"t\":\"2\"}\n".to_vec();
    let mut reader = LogFileReader::open();
    let before = reader.load(&file);
    assert_eq!(before, 2);
    assert!(!reader.has_changed());

    file.extend_from_slice(b"{\"t\":\"3\",\"message\":\"new\"}\n");
    reader.signal_change();
    assert_eq!(reader.line_count(), 2);
    assert!(reader.has_changed());
    let after = reader.load(&file);
    assert_eq!(after, before + 1);
    assert_eq!(reader.line_count(), 3);
    assert_eq!(
        reader.read_line(&file, after - 1),
        Some("{\"t\":\"3\",\"message\":\"new\"}\n".to_string())
    );
    assert_eq!(reader.read_entry(&file, after - 1).unwrap().timestamp, "3");
    assert!(!reader.has_changed());
}

#[test]
fn several_changes_are_reported_once() {
    let mut reader = LogFileReader::open();
    reader.signal_change();
    reader.signal_change();
    reader.signal_change();
    assert!(reader.has_changed());
    assert!(!reader.has_changed());
    reader.signal_change();
    assert!(reader.has_changed());
}

#[test]
fn a_failed_load_leaves_an_open_file_without_lines() {
    let mut reader = LogFileReader::open();
    reader.load_at(b"a\nb\n", at(3));
    reader.signal_change();
    reader.unload();
    assert_eq!(reader.line_count(), 0);
    assert_eq!(reader.read_line(b"a\nb\n", 0), None);
    assert_eq!(reader.load_time_point(), Some(at(3)));
    assert!(reader.has_changed());
}

#[test]
fn an_index_built_in_pieces_can_be_loaded() {
    let content: &[u8] = b"x\nyy\nzzz\n";
    let mut builder = LineIndexBuilder::new();
    builder.feed(&content[..4]);
    builder.feed(&content[4..]);
    let mut reader = LogFileReader::open();
    assert_eq!(reader.load_index_at(builder.finish(), at(9)), 3);
    assert_eq!(reader.load_time_point(), Some(at(9)));
    assert_eq!(reader.read_line(content, 2), Some("zzz\n".to_string()));
    assert_eq!(reader.load_index(LineIndex::build(b"only")), 1);
    assert!(reader.load_time_point().is_some());
    assert_eq!(reader.read_line(b"only", 0), Some("only".to_string()));
}

#[test]
fn time_points_are_ordered_by_seconds_then_nanoseconds() {
    let early = TimePoint { secs: 5, nanos: 999_999_999 };
    let late = TimePoint { secs: 6, nanos: 0 };
    let later = TimePoint { secs: 6, nanos: 1 };
    assert!(early.is_before(&late));
    assert!(late.is_before(&later));
    assert!(early.is_before(&later));
    assert!(!late.is_before(&early));
    assert!(!late.is_before(&late));
    assert!(!later.is_before(&late));
}

#[test]
fn a_reload_happens_only_after_a_change() {
    let mut file: Vec<u8> = b"a\nb\n".to_vec();
    let mut reader = LogFileReader::open();
    assert_eq!(reader.load_at(&file, at(1)), 2);
    assert_eq!(reader.reload_if_changed_at(&file, at(2)), None);
    assert_eq!(reader.load_time_point(), Some(at(1)));

    file.extend_from_slice(b"c\n");
    assert_eq!(reader.reload_if_changed_at(&file, at(3)), None);
    assert_eq!(reader.line_count(), 2);

    reader.signal_change();
    assert_eq!(reader.reload_if_changed_at(&file, at(4)), Some(3));
    assert_eq!(reader.load_time_point(), Some(at(4)));
    assert_eq!(reader.read_line(&file, 2), Some("c\n".to_string()));
    assert_eq!(reader.reload_if_changed_at(&file, at(5)), None);

    reader.signal_change();
    assert_eq!(reader.reload_if_changed(b""), Some(0));
    assert_eq!(reader.line_count(), 0);
    assert!(!reader.has_changed());
}
