//! The table of line offsets of a file.
//!
//! A line starts at the first byte of a file and at every byte that follows a
//! line feed. The table lists these starts in ascending order and ends with
//! the size of the file, so that line `n` is the span between entry `n` and
//! entry `n + 1`, its line feed included. A file that does not end with a
//! line feed has a last line without one; the empty file has no line.

use vstd::prelude::*;

verus! {

/// The byte that ends a line.
pub const LINE_FEED: u8 = 10;

/// A position in a file, counted in bytes from its beginning.
pub type FileOffset = u64;

/// Whether a line begins at `pos`: there is a byte at `pos`, and it is the
/// first of the file or follows a line feed.
pub open spec fn starts_line(content: Seq<u8>, pos: int) -> bool {
    &&& 0 <= pos < content.len()
    &&& (pos == 0 || content[pos - 1] == LINE_FEED)
}

/// The line starts below `upto`, in ascending order.
pub open spec fn line_starts_upto(content: Seq<u8>, upto: int) -> Seq<int>
    decreases upto,
{
    if upto <= 0 {
        Seq::empty()
    } else if starts_line(content, upto - 1) {
        line_starts_upto(content, upto - 1).push(upto - 1)
    } else {
        line_starts_upto(content, upto - 1)
    }
}

/// All line starts of `content`, in ascending order.
pub open spec fn line_starts(content: Seq<u8>) -> Seq<int> {
    line_starts_upto(content, content.len() as int)
}

/// The offset table of `content`: its line starts, then its size.
pub open spec fn line_offsets(content: Seq<u8>) -> Seq<int> {
    line_starts(content).push(content.len() as int)
}

/// The number of lines of `content`.
pub open spec fn line_total(content: Seq<u8>) -> nat {
    line_starts(content).len()
}

/// What a table of offsets must satisfy to be the table of some file: it ends
/// with a sentinel, it is strictly increasing, every entry fits a
/// `FileOffset`, and the first line, if there is one, starts at 0.
pub open spec fn is_offset_table(table: Seq<int>) -> bool {
    &&& table.len() >= 1
    &&& forall|k: int| 0 <= k < table.len() ==> 0 <= #[trigger] table[k] <= u64::MAX
    &&& forall|j: int, k: int| 0 <= j < k < table.len() ==> table[j] < table[k]
    &&& table.len() > 1 ==> table[0] == 0
}

/// The offsets of a vector, as mathematical integers.
pub open spec fn as_ints(offsets: Seq<FileOffset>) -> Seq<int> {
    offsets.map_values(|o: FileOffset| o as int)
}

/// Every listed start is a line start below `upto`, and the list ascends.
pub proof fn lemma_line_starts_sound(content: Seq<u8>, upto: int)
    requires
        upto <= content.len(),
    ensures
        forall|k: int|
            0 <= k < line_starts_upto(content, upto).len() ==> {
                &&& starts_line(content, #[trigger] line_starts_upto(content, upto)[k])
                &&& line_starts_upto(content, upto)[k] < upto
            },
        forall|j: int, k: int|
            0 <= j < k < line_starts_upto(content, upto).len() ==> line_starts_upto(
                content,
                upto,
            )[j] < line_starts_upto(content, upto)[k],
        line_starts_upto(content, upto).len() <= (if upto > 0 { upto } else { 0 }),
    decreases upto,
{
    if upto > 0 {
        lemma_line_starts_sound(content, upto - 1);
    }
}

/// Every line start below `upto` is listed.
pub proof fn lemma_line_starts_complete(content: Seq<u8>, upto: int, pos: int)
    requires
        upto <= content.len(),
        pos < upto,
        starts_line(content, pos),
    ensures
        line_starts_upto(content, upto).contains(pos),
    decreases upto,
{
    if pos == upto - 1 {
        let prev = line_starts_upto(content, upto - 1);
        assert(prev.push(pos)[prev.len() as int] == pos);
    } else {
        lemma_line_starts_complete(content, upto - 1, pos);
        let prev = line_starts_upto(content, upto - 1);
        let k = choose|k: int| 0 <= k < prev.len() && prev[k] == pos;
        if starts_line(content, upto - 1) {
            assert(prev.push(upto - 1)[k] == pos);
        }
    }
}

/// A file that is not empty has a first line, and it starts at 0.
pub proof fn lemma_first_line_starts_at_zero(content: Seq<u8>, upto: int)
    requires
        0 < upto <= content.len(),
    ensures
        line_starts_upto(content, upto).len() >= 1,
        line_starts_upto(content, upto)[0] == 0,
    decreases upto,
{
    let prev = line_starts_upto(content, upto - 1);
    if upto > 1 {
        lemma_first_line_starts_at_zero(content, upto - 1);
        if starts_line(content, upto - 1) {
            assert(prev.push(upto - 1)[0] == prev[0]);
        }
    } else {
        assert(starts_line(content, 0));
        assert(prev =~= Seq::<int>::empty());
        assert(prev.push(0)[0] == 0);
    }
}

/// The line starts below `upto` depend on the bytes below `upto` alone.
pub proof fn lemma_line_starts_of_prefix(first: Seq<u8>, second: Seq<u8>, upto: int)
    requires
        upto <= first.len(),
        upto <= second.len(),
        forall|i: int| 0 <= i < upto ==> first[i] == second[i],
    ensures
        line_starts_upto(first, upto) == line_starts_upto(second, upto),
    decreases upto,
{
    if upto > 0 {
        lemma_line_starts_of_prefix(first, second, upto - 1);
    }
}

/// Two strictly ascending sequences with the same members are the same
/// sequence.
pub proof fn lemma_ascending_sequences_with_equal_members(first: Seq<int>, second: Seq<int>)
    requires
        forall|j: int, k: int| 0 <= j < k < first.len() ==> first[j] < first[k],
        forall|j: int, k: int| 0 <= j < k < second.len() ==> second[j] < second[k],
        forall|k: int| 0 <= k < first.len() ==> second.contains(#[trigger] first[k]),
        forall|k: int| 0 <= k < second.len() ==> first.contains(#[trigger] second[k]),
    ensures
        first == second,
    decreases first.len(),
{
    if first.len() == 0 {
        if second.len() > 0 {
            assert(first.contains(second[0]));
        }
        assert(first =~= second);
    } else {
        let top = first.last();
        assert(second.contains(top));
        let at = choose|i: int| 0 <= i < second.len() && second[i] == top;
        assert(at == second.len() - 1) by {
            if at < second.len() - 1 {
                assert(first.contains(second.last()));
                let back = choose|i: int| 0 <= i < first.len() && first[i] == second.last();
                assert(second[at] < second.last());
                if back < first.len() - 1 {
                    assert(first[back] < first.last());
                }
            }
        }
        let shorter_first = first.drop_last();
        let shorter_second = second.drop_last();
        assert forall|k: int| 0 <= k < shorter_first.len() implies shorter_second.contains(
            #[trigger] shorter_first[k],
        ) by {
            assert(second.contains(first[k]));
            let i = choose|i: int| 0 <= i < second.len() && second[i] == first[k];
            assert(first[k] < first.last());
            assert(shorter_second[i] == first[k]);
        }
        assert forall|k: int| 0 <= k < shorter_second.len() implies shorter_first.contains(
            #[trigger] shorter_second[k],
        ) by {
            assert(first.contains(second[k]));
            let i = choose|i: int| 0 <= i < first.len() && first[i] == second[k];
            assert(second[k] < second.last());
            assert(shorter_first[i] == second[k]);
        }
        lemma_ascending_sequences_with_equal_members(shorter_first, shorter_second);
        assert(first =~= shorter_first.push(top));
        assert(second =~= shorter_second.push(top));
    }
}

/// The offset table of a file is the only table that lists, in ascending
/// order, the line starts of the file and nothing else, and ends with its
/// size.
pub proof fn lemma_offset_table_is_unique(content: Seq<u8>, table: Seq<int>)
    requires
        table.len() >= 1,
        table.last() == content.len(),
        forall|j: int, k: int| 0 <= j < k < table.len() ==> table[j] < table[k],
        forall|k: int| 0 <= k < table.len() - 1 ==> starts_line(content, #[trigger] table[k]),
        forall|pos: int| #[trigger]
            starts_line(content, pos) ==> exists|k: int| 0 <= k < table.len() - 1 && table[k] == pos,
    ensures
        table == line_offsets(content),
{
    let size = content.len() as int;
    let listed = table.drop_last();
    let starts = line_starts(content);
    lemma_line_starts_sound(content, size);
    assert forall|k: int| 0 <= k < listed.len() implies starts.contains(#[trigger] listed[k]) by {
        assert(starts_line(content, table[k]));
        lemma_line_starts_complete(content, size, listed[k]);
    }
    assert forall|k: int| 0 <= k < starts.len() implies listed.contains(#[trigger] starts[k]) by {
        assert(starts_line(content, starts[k]));
        let i = choose|i: int| 0 <= i < table.len() - 1 && table[i] == starts[k];
        assert(listed[i] == starts[k]);
    }
    lemma_ascending_sequences_with_equal_members(listed, starts);
    assert(table =~= listed.push(size));
}

/// The offset table of any file is a well-formed table, if the file's size
/// fits a `FileOffset`.
pub proof fn lemma_line_offsets_are_a_table(content: Seq<u8>)
    requires
        content.len() <= u64::MAX,
    ensures
        is_offset_table(line_offsets(content)),
        line_offsets(content).len() == line_total(content) + 1,
        line_offsets(content).last() == content.len(),
{
    let size = content.len() as int;
    lemma_line_starts_sound(content, size);
    if size > 0 {
        lemma_first_line_starts_at_zero(content, size);
    }
}

/// The number of line feeds below `upto`.
pub open spec fn terminators_upto(content: Seq<u8>, upto: int) -> nat
    decreases upto,
{
    if upto <= 0 {
        0
    } else if content[upto - 1] == LINE_FEED {
        terminators_upto(content, upto - 1) + 1
    } else {
        terminators_upto(content, upto - 1)
    }
}

/// The number of line feeds in `content`.
pub open spec fn terminator_count(content: Seq<u8>) -> nat {
    terminators_upto(content, content.len() as int)
}

/// Whether `content` ends in bytes that no line feed follows.
pub open spec fn has_unterminated_tail(content: Seq<u8>) -> bool {
    content.len() > 0 && content.last() != LINE_FEED
}

/// The bytes of line `line_num`: the span between two neighbouring entries of
/// the offset table.
pub open spec fn line_bytes(content: Seq<u8>, line_num: int) -> Seq<u8> {
    content.subrange(line_offsets(content)[line_num], line_offsets(content)[line_num + 1])
}

/// The first `count` lines of `content`, one behind the other.
pub open spec fn joined_lines(content: Seq<u8>, count: int) -> Seq<u8>
    decreases count,
{
    if count <= 0 {
        Seq::empty()
    } else {
        joined_lines(content, count - 1) + line_bytes(content, count - 1)
    }
}

proof fn lemma_starts_and_terminators(content: Seq<u8>, upto: int)
    requires
        0 < upto <= content.len(),
    ensures
        line_starts_upto(content, upto).len() == 1 + terminators_upto(content, upto - 1),
    decreases upto,
{
    if upto > 1 {
        lemma_starts_and_terminators(content, upto - 1);
    } else {
        assert(line_starts_upto(content, 0) =~= Seq::<int>::empty());
    }
}

/// A file has as many lines as it has line feeds, and one more if bytes
/// follow the last of them.
pub proof fn lemma_line_total_counts_terminators(content: Seq<u8>)
    ensures
        line_total(content) == terminator_count(content) + (if has_unterminated_tail(content) {
            1nat
        } else {
            0nat
        }),
{
    if content.len() > 0 {
        lemma_starts_and_terminators(content, content.len() as int);
    }
}

/// The first `count` lines, joined, are the file up to where line `count`
/// starts.
pub proof fn lemma_joined_lines_are_a_prefix(content: Seq<u8>, count: int)
    requires
        0 <= count <= line_total(content),
    ensures
        joined_lines(content, count) == content.subrange(0, line_offsets(content)[count]),
    decreases count,
{
    let table = line_offsets(content);
    lemma_line_starts_sound(content, content.len() as int);
    if content.len() > 0 {
        lemma_first_line_starts_at_zero(content, content.len() as int);
    }
    if count > 0 {
        lemma_joined_lines_are_a_prefix(content, count - 1);
        assert(0 <= table[count - 1] < table[count] <= content.len());
        assert(content.subrange(0, table[count - 1]) + content.subrange(
            table[count - 1],
            table[count],
        ) =~= content.subrange(0, table[count]));
    } else {
        assert(table[0] == 0);
        assert(content.subrange(0, 0) =~= Seq::<u8>::empty());
    }
}

/// All the lines of a file, one behind the other, are the file, byte for
/// byte.
pub proof fn lemma_lines_tile_content(content: Seq<u8>)
    ensures
        joined_lines(content, line_total(content) as int) == content,
{
    lemma_joined_lines_are_a_prefix(content, line_total(content) as int);
    assert(content.subrange(0, content.len() as int) =~= content);
}

/// A line holds no line feed but, possibly, as its last byte; and every line
/// but the last one ends with a line feed.
pub proof fn lemma_line_shape(content: Seq<u8>, line_num: int)
    requires
        0 <= line_num < line_total(content),
    ensures
        line_bytes(content, line_num).len() >= 1,
        forall|i: int|
            0 <= i < line_bytes(content, line_num).len() - 1 ==> #[trigger] line_bytes(
                content,
                line_num,
            )[i] != LINE_FEED,
        line_num < line_total(content) - 1 ==> line_bytes(content, line_num).last() == LINE_FEED,
{
    let size = content.len() as int;
    let table = line_offsets(content);
    let starts = line_starts(content);
    lemma_line_starts_sound(content, size);
    let start = table[line_num];
    let end = table[line_num + 1];
    assert(start == starts[line_num]);
    assert(start < end <= size);
    assert forall|i: int| 0 <= i < end - start - 1 implies #[trigger] line_bytes(
        content,
        line_num,
    )[i] != LINE_FEED by {
        if content[start + i] == LINE_FEED {
            let next = start + i + 1;
            assert(starts_line(content, next));
            lemma_line_starts_complete(content, size, next);
            let k = choose|k: int| 0 <= k < starts.len() && starts[k] == next;
            // `next` lies strictly between two neighbouring starts
            if k <= line_num {
                assert(starts[k] <= starts[line_num]);
            } else {
                assert(k >= line_num + 1);
                assert(line_num + 1 < starts.len());
                assert(starts[line_num + 1] <= starts[k]);
            }
        }
    }
    if line_num < line_total(content) - 1 {
        assert(end == starts[line_num + 1]);
        assert(starts_line(content, end));
    }
}

proof fn lemma_no_start_inside_appended_line(content: Seq<u8>, line: Seq<u8>, upto: int)
    requires
        content.len() == 0 || content.last() == LINE_FEED,
        forall|i: int| 0 <= i < line.len() - 1 ==> line[i] != LINE_FEED,
        content.len() < upto <= content.len() + line.len(),
    ensures
        line_starts_upto(content + line, upto) == line_starts(content).push(content.len() as int),
    decreases upto,
{
    let whole = content + line;
    let size = content.len() as int;
    if upto == size + 1 {
        lemma_line_starts_of_prefix(content, whole, size);
        if size > 0 {
            assert(whole[size - 1] == content.last());
        }
        assert(starts_line(whole, size));
    } else {
        lemma_no_start_inside_appended_line(content, line, upto - 1);
        assert(whole[upto - 2] == line[upto - 2 - size]);
        assert(!starts_line(whole, upto - 1));
    }
}

/// A line appended to a file that ends with a line feed, or is empty, is
/// one more line: the lines before it stay what they were, and the new last
/// line is what was appended.
pub proof fn lemma_appended_line(content: Seq<u8>, line: Seq<u8>)
    requires
        content.len() == 0 || content.last() == LINE_FEED,
        line.len() > 0,
        forall|i: int| 0 <= i < line.len() - 1 ==> line[i] != LINE_FEED,
    ensures
        line_total(content + line) == line_total(content) + 1,
        forall|k: int|
            0 <= k < line_total(content) ==> #[trigger] line_bytes(content + line, k)
                == line_bytes(content, k),
        line_bytes(content + line, line_total(content) as int) == line,
{
    let whole = content + line;
    let size = content.len() as int;
    let old_table = line_offsets(content);
    let new_table = line_offsets(whole);
    lemma_no_start_inside_appended_line(content, line, whole.len() as int);
    lemma_line_starts_sound(content, size);
    assert(new_table =~= old_table.push(whole.len() as int));
    assert forall|k: int| 0 <= k < line_total(content) implies #[trigger] line_bytes(whole, k)
        == line_bytes(content, k) by {
        assert(new_table[k] == old_table[k]);
        assert(new_table[k + 1] == old_table[k + 1]);
        assert(0 <= old_table[k] <= old_table[k + 1] <= size) by {
            if k + 1 < line_total(content) {
                assert(old_table[k + 1] == line_starts(content)[k + 1]);
            }
        }
        assert(whole.subrange(old_table[k], old_table[k + 1]) =~= content.subrange(
            old_table[k],
            old_table[k + 1],
        ));
    }
    assert(new_table[line_total(content) as int] == size);
    assert(new_table[line_total(content) as int + 1] == whole.len());
    assert(whole.subrange(size, whole.len() as int) =~= line);
}

/// The offset table of one file: where each of its lines starts, and its size.
pub struct LineIndex {
    offsets: Vec<FileOffset>,
}

impl View for LineIndex {
    type V = Seq<int>;

    closed spec fn view(&self) -> Seq<int> {
        as_ints(self.offsets@)
    }
}

impl LineIndex {
    /// The invariant of the type: the offsets form a well-formed table.
    pub open spec fn wf(&self) -> bool {
        is_offset_table(self@)
    }

    /// Whether this is the table of `content`.
    pub open spec fn describes(&self, content: Seq<u8>) -> bool {
        self@ == line_offsets(content)
    }

    /// The number of lines, as a specification.
    pub open spec fn spec_line_count(&self) -> nat {
        (self@.len() - 1) as nat
    }

    /// The table has no more entries than a vector can hold.
    pub proof fn lemma_len_fits(&self)
        ensures
            self@.len() <= usize::MAX,
    {
        assert(self@.len() == self.offsets.len());
    }

    /// The table of the empty file: no line, size 0.
    pub fn empty() -> (index: Self)
        ensures
            index.wf(),
            index@ == seq![0int],
            index.describes(Seq::<u8>::empty()),
    {
        let mut offsets: Vec<FileOffset> = Vec::new();
        offsets.push(0);
        let index = LineIndex { offsets };
        proof {
            assert(index@ =~= seq![0int]);
            assert(line_offsets(Seq::<u8>::empty()) =~= seq![0int]);
        }
        index
    }

    /// Builds the table of `content` in one pass over its bytes.
    pub fn build(content: &[u8]) -> (index: Self)
        ensures
            index.wf(),
            index.describes(content@),
    {
        let mut builder = LineIndexBuilder::new();
        proof {
            assert(content@.len() == content.len());
            assert(builder.content().len() == 0);
            assert(Seq::<u8>::empty() + content@ =~= content@);
        }
        builder.feed(content);
        builder.finish()
    }

    /// The number of lines.
    pub fn line_count(&self) -> (count: usize)
        requires
            self.wf(),
        ensures
            count == self.spec_line_count(),
    {
        self.offsets.len() - 1
    }

    /// The size of the file, which is the last entry of the table.
    pub fn file_size(&self) -> (size: FileOffset)
        requires
            self.wf(),
        ensures
            size == self@.last(),
    {
        self.offsets[self.offsets.len() - 1]
    }

    /// The entry at `position`, if the table has one there.
    pub fn offset_at(&self, position: usize) -> (offset: Option<FileOffset>)
        ensures
            match offset {
                Some(entry) => position < self@.len() && entry == self@[position as int],
                None => position >= self@.len(),
            },
    {
        if position < self.offsets.len() {
            Some(self.offsets[position])
        } else {
            None
        }
    }

    /// The byte span of line `line_num`: where it starts and where it ends,
    /// its line feed included. `None` if the file has no such line.
    pub fn line_span(&self, line_num: usize) -> (span: Option<(FileOffset, FileOffset)>)
        requires
            self.wf(),
        ensures
            match span {
                Some((start, end)) => {
                    &&& line_num < self.spec_line_count()
                    &&& start == self@[line_num as int]
                    &&& end == self@[line_num + 1]
                    &&& start < end
                },
                None => line_num >= self.spec_line_count(),
            },
    {
        if line_num < self.offsets.len() - 1 {
            let start = self.offsets[line_num];
            let end = self.offsets[line_num + 1];
            assert(start == self@[line_num as int] && end == self@[line_num + 1]);
            Some((start, end))
        } else {
            None
        }
    }
}

/// Builds the offset table of a file from its bytes, handed over piece by
/// piece in the order in which they stand in the file.
pub struct LineIndexBuilder {
    starts: Vec<FileOffset>,
    consumed: FileOffset,
    at_line_start: bool,
    seen: Ghost<Seq<u8>>,
}

impl LineIndexBuilder {
    /// The bytes handed over so far.
    pub closed spec fn content(&self) -> Seq<u8> {
        self.seen@
    }

    /// The invariant of the type: the builder holds the line starts and the
    /// size of `content()`, and knows whether its next byte starts a line.
    pub closed spec fn wf(&self) -> bool {
        &&& self.consumed == self.seen@.len()
        &&& as_ints(self.starts@) == line_starts(self.seen@)
        &&& self.at_line_start == (self.seen@.len() == 0 || self.seen@.last() == LINE_FEED)
    }

    /// A builder that has seen no byte yet.
    pub fn new() -> (builder: Self)
        ensures
            builder.wf(),
            builder.content() == Seq::<u8>::empty(),
    {
        let builder = LineIndexBuilder {
            starts: Vec::new(),
            consumed: 0,
            at_line_start: true,
            seen: Ghost(Seq::empty()),
        };
        proof {
            assert(as_ints(builder.starts@) =~= line_starts(Seq::<u8>::empty()));
        }
        builder
    }

    /// Whether `chunk` can still be handed over: the size of the file must fit
    /// a `FileOffset`.
    pub open spec fn has_room_for(&self, chunk: Seq<u8>) -> bool {
        self.content().len() + chunk.len() <= u64::MAX
    }

    /// Takes the next bytes of the file.
    pub fn feed(&mut self, chunk: &[u8])
        requires
            old(self).wf(),
            old(self).has_room_for(chunk@),
        ensures
            final(self).wf(),
            final(self).content() == old(self).content() + chunk@,
    {
        let ghost before = self.seen@;
        let ghost after = before + chunk@;
        proof {
            lemma_line_starts_of_prefix(before, after, before.len() as int);
        }
        let mut i: usize = 0;
        while i < chunk.len()
            invariant
                i <= chunk.len(),
                after == before + chunk@,
                before.len() + chunk.len() <= u64::MAX,
                self.consumed == before.len() + i,
                as_ints(self.starts@) == line_starts_upto(after, before.len() + i),
                self.at_line_start == (before.len() + i == 0 || after[before.len() + i - 1]
                    == LINE_FEED),
            decreases chunk.len() - i,
        {
            let ghost pos = before.len() + i;
            if self.at_line_start {
                proof {
                    assert(starts_line(after, pos));
                    assert(as_ints(self.starts@.push(self.consumed)) =~= as_ints(self.starts@).push(
                        pos,
                    ));
                }
                self.starts.push(self.consumed);
            }
            assert(after[pos] == chunk@[i as int]);
            self.at_line_start = chunk[i] == LINE_FEED;
            self.consumed = self.consumed + 1;
            i = i + 1;
        }
        self.seen = Ghost(after);
    }

    /// The table of all the bytes handed over.
    pub fn finish(self) -> (index: LineIndex)
        requires
            self.wf(),
        ensures
            index.wf(),
            index.describes(self.content()),
    {
        let ghost content = self.seen@;
        let size = self.consumed;
        let mut offsets = self.starts;
        proof {
            assert(as_ints(offsets@.push(size)) =~= as_ints(offsets@).push(size as int));
            lemma_line_offsets_are_a_table(content);
        }
        offsets.push(size);
        LineIndex { offsets }
    }
}

} // verus!
