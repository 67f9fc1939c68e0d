//! The lines of a file whose bytes are valid UTF-8.
//!
//! A line feed is a character of its own in UTF-8 and never part of another
//! one. So every line of a valid text is a valid text, and the lines, decoded
//! one by one and put together again, are the decoded file.

use crate::line_index::{
    lemma_first_line_starts_at_zero, lemma_line_starts_sound, line_bytes, line_offsets, line_starts, line_total, starts_line,
    LINE_FEED,
};
use vstd::prelude::*;
use vstd::utf8::{
    decode_utf8, decode_utf8_split, is_char_boundary, is_char_boundary_iff_not_is_continuation_byte,
    is_char_boundary_start_end_of_seq, is_continuation_byte, valid_utf8, valid_utf8_split,
};

verus! {

/// The first `count` lines of `content`, each decoded by itself, one behind
/// the other.
pub open spec fn decoded_lines(content: Seq<u8>, count: int) -> Seq<char>
    decreases count,
{
    if count <= 0 {
        Seq::empty()
    } else {
        decoded_lines(content, count - 1) + decode_utf8(line_bytes(content, count - 1))
    }
}

/// In valid UTF-8 a character begins behind every line feed, or the text
/// ends there.
pub proof fn lemma_char_boundary_behind_line_feed(bytes: Seq<u8>, pos: int)
    requires
        valid_utf8(bytes),
        0 < pos <= bytes.len(),
        bytes[pos - 1] == LINE_FEED,
    ensures
        is_char_boundary(bytes, pos),
{
    if pos == bytes.len() {
        is_char_boundary_start_end_of_seq(bytes);
    } else {
        is_char_boundary_iff_not_is_continuation_byte(bytes, pos - 1);
        assert(!is_continuation_byte(bytes[pos - 1]));
        valid_utf8_split(bytes, pos - 1);
        let tail = bytes.subrange(pos - 1, bytes.len() as int);
        assert(tail[0] == LINE_FEED);
        assert(tail[1] == bytes[pos]);
        assert(is_char_boundary(tail, 1)) by {
            reveal_with_fuel(is_char_boundary, 2);
        }
        is_char_boundary_iff_not_is_continuation_byte(tail, 1);
        is_char_boundary_iff_not_is_continuation_byte(bytes, pos);
    }
}

/// Every entry of the offset table of a valid text is the beginning of a
/// character, or the end of the text.
pub proof fn lemma_offsets_are_char_boundaries(content: Seq<u8>, position: int)
    requires
        valid_utf8(content),
        0 <= position <= line_total(content),
    ensures
        is_char_boundary(content, line_offsets(content)[position]),
        0 <= line_offsets(content)[position] <= content.len(),
{
    let size = content.len() as int;
    lemma_line_starts_sound(content, size);
    if position == line_total(content) {
        is_char_boundary_start_end_of_seq(content);
    } else {
        let start = line_starts(content)[position];
        assert(line_offsets(content)[position] == start);
        assert(starts_line(content, start));
        if start > 0 {
            lemma_char_boundary_behind_line_feed(content, start);
        }
    }
}

/// A line of a valid text is a valid text.
pub proof fn lemma_line_of_valid_text_is_valid(content: Seq<u8>, line_num: int)
    requires
        valid_utf8(content),
        0 <= line_num < line_total(content),
    ensures
        valid_utf8(line_bytes(content, line_num)),
{
    let table = line_offsets(content);
    let start = table[line_num];
    let end = table[line_num + 1];
    lemma_line_starts_sound(content, content.len() as int);
    lemma_offsets_are_char_boundaries(content, line_num);
    lemma_offsets_are_char_boundaries(content, line_num + 1);
    assert(start < end);
    valid_utf8_split(content, start);
    let tail = content.subrange(start, content.len() as int);
    assert(is_char_boundary(tail, end - start)) by {
        if end == content.len() {
            is_char_boundary_start_end_of_seq(tail);
        } else {
            assert(tail[end - start - 1] == content[end - 1]);
            assert(starts_line(content, end));
            lemma_char_boundary_behind_line_feed(tail, end - start);
        }
    }
    valid_utf8_split(tail, end - start);
    assert(tail.subrange(0, end - start) =~= line_bytes(content, line_num));
}

/// The first `count` lines of a valid text, decoded one by one, are the
/// decoded text up to where line `count` starts.
pub proof fn lemma_decoded_lines_are_a_prefix(content: Seq<u8>, count: int)
    requires
        valid_utf8(content),
        0 <= count <= line_total(content),
    ensures
        decoded_lines(content, count) == decode_utf8(
            content.subrange(0, line_offsets(content)[count]),
        ),
    decreases count,
{
    let table = line_offsets(content);
    lemma_line_starts_sound(content, content.len() as int);
    lemma_offsets_are_char_boundaries(content, count);
    if count == 0 {
        if content.len() > 0 {
            lemma_first_line_starts_at_zero(content, content.len() as int);
        }
        assert(table[0] == 0);
        assert(content.subrange(0, 0) =~= Seq::<u8>::empty());
        assert(decode_utf8(Seq::<u8>::empty()) =~= Seq::<char>::empty());
    } else {
        lemma_decoded_lines_are_a_prefix(content, count - 1);
        lemma_offsets_are_char_boundaries(content, count - 1);
        let start = table[count - 1];
        let end = table[count];
        assert(start < end);
        valid_utf8_split(content, end);
        let head = content.subrange(0, end);
        assert(is_char_boundary(head, start)) by {
            if start > 0 {
                assert(starts_line(content, start));
                assert(head[start - 1] == content[start - 1]);
                lemma_char_boundary_behind_line_feed(head, start);
            }
        }
        decode_utf8_split(head, start);
        assert(head.subrange(0, start) =~= content.subrange(0, start));
        assert(head.subrange(start, head.len() as int) =~= line_bytes(content, count - 1));
    }
}

/// The lines of a valid text, decoded one by one and put together, are the
/// decoded text.
pub proof fn lemma_decoded_lines_are_the_text(content: Seq<u8>)
    requires
        valid_utf8(content),
    ensures
        decoded_lines(content, line_total(content) as int) == decode_utf8(content),
{
    lemma_decoded_lines_are_a_prefix(content, line_total(content) as int);
    assert(content.subrange(0, content.len() as int) =~= content);
}

} // verus!
