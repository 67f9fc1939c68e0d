//! Search for a pattern in the lines of a file.
//!
//! The pattern is compiled by `grep-regex` and the bytes are scanned by
//! `grep`'s searcher, which reports the number of every line that matches.
//! What this module adds is the choice of the pattern, the conversion of the
//! line numbers, and the kinds of failure.

use crate::line_index::{lemma_line_starts_sound, line_total};
use crate::log_file_reader::LineNumber;
use grep::searcher::sinks::Lossy;
use grep::searcher::Searcher;
use grep_regex::RegexMatcherBuilder;
use vstd::prelude::*;

verus! {

/// `grep_regex::Error`, the error of a pattern that cannot be compiled. The
/// library carries it in `SearchError` and does not look into it.
#[verifier::external_type_specification]
#[verifier::external_body]
pub struct ExGrepRegexError(grep_regex::Error);

/// `std::io::Error`, the error of a read. The library carries it in
/// `SearchError` and does not look into it.
#[verifier::external_type_specification]
#[verifier::external_body]
pub struct ExIoError(std::io::Error);

/// How a search treats its pattern.
#[derive(Clone, Copy, Debug, PartialEq, Eq, Structural)]
pub struct SearchOptions {
    /// Letters match only in the case in which they are written.
    pub case_sensitive: bool,
    /// A match must begin and end at the border of a word.
    pub whole_word: bool,
    /// The pattern is a regular expression; else it is matched as it is
    /// written.
    pub regex: bool,
}

impl Default for SearchOptions {
    fn default() -> (options: Self)
        ensures
            !options.case_sensitive,
            !options.whole_word,
            !options.regex,
    {
        SearchOptions { case_sensitive: false, whole_word: false, regex: false }
    }
}

/// The two ways in which a search fails.
#[derive(Clone, Copy, Debug, PartialEq, Eq, Structural)]
pub enum SearchFailure {
    /// The pattern is no valid regular expression.
    Pattern,
    /// The bytes could not be read through.
    Io,
}

/// Why a search failed, with the error that the outside crate gave.
#[derive(Debug)]
pub enum SearchError {
    IoError(std::io::Error),
    GrepError(grep_regex::Error),
}

impl From<std::io::Error> for SearchError {
    fn from(value: std::io::Error) -> (error: Self) {
        SearchError::IoError(value)
    }
}

impl vstd::std_specs::convert::FromSpecImpl<std::io::Error> for SearchError {
    open spec fn obeys_from_spec() -> bool {
        true
    }

    open spec fn from_spec(value: std::io::Error) -> Self {
        SearchError::IoError(value)
    }
}

impl From<grep_regex::Error> for SearchError {
    fn from(value: grep_regex::Error) -> (error: Self) {
        SearchError::GrepError(value)
    }
}

impl vstd::std_specs::convert::FromSpecImpl<grep_regex::Error> for SearchError {
    open spec fn obeys_from_spec() -> bool {
        true
    }

    open spec fn from_spec(value: grep_regex::Error) -> Self {
        SearchError::GrepError(value)
    }
}

impl SearchError {
    /// Which of the two failures this is, as a specification.
    pub open spec fn spec_failure(&self) -> SearchFailure {
        match *self {
            SearchError::IoError(_) => SearchFailure::Io,
            SearchError::GrepError(_) => SearchFailure::Pattern,
        }
    }

    /// Which of the two failures this is.
    pub fn failure(&self) -> (failure: SearchFailure)
        ensures
            failure == self.spec_failure(),
    {
        match self {
            SearchError::IoError(_) => SearchFailure::Io,
            SearchError::GrepError(_) => SearchFailure::Pattern,
        }
    }

    /// Whether the pattern was at fault, and not the reading.
    pub fn is_pattern_error(&self) -> (yes: bool)
        ensures
            yes == (self.spec_failure() == SearchFailure::Pattern),
    {
        match self {
            SearchError::IoError(_) => false,
            SearchError::GrepError(_) => true,
        }
    }
}

/// Whether `c` has a meaning of its own in a regular expression.
pub open spec fn is_meta_character(c: char) -> bool {
    c == '\\' || c == '.' || c == '+' || c == '*' || c == '?' || c == '(' || c == ')' || c == '|'
        || c == '[' || c == ']' || c == '{' || c == '}' || c == '^' || c == '$' || c == '#' || c
        == '&' || c == '-' || c == '~'
}

/// `c` as it is written to be matched literally: with a backslash before it
/// if it is a meta character.
pub open spec fn escaped_char(c: char) -> Seq<char> {
    if is_meta_character(c) {
        seq!['\\', c]
    } else {
        seq![c]
    }
}

/// `text` as it is written to be matched literally, character by character.
pub open spec fn escaped_text(text: Seq<char>) -> Seq<char>
    decreases text.len(),
{
    if text.len() == 0 {
        Seq::empty()
    } else {
        escaped_text(text.drop_last()) + escaped_char(text.last())
    }
}

/// The pattern that a search compiles: the text itself where it is meant as
/// a regular expression, else the text escaped.
pub open spec fn search_pattern(options: SearchOptions, text: Seq<char>) -> Seq<char> {
    if options.regex {
        text
    } else {
        escaped_text(text)
    }
}

/// What `grep` makes of a pattern and the bytes of a file: the numbers of
/// the matching lines, counted from one, or the kind of its failure.
pub uninterp spec fn grep_scan(
    pattern: Seq<char>,
    case_insensitive: bool,
    whole_word: bool,
    haystack: Seq<u8>,
) -> Result<Seq<u64>, SearchFailure>;

/// What the searcher reports of the bytes `haystack`: line numbers that
/// start at one, ascend strictly, and do not exceed the number of lines.
pub open spec fn is_line_report(lines: Seq<u64>, haystack: Seq<u8>) -> bool {
    &&& forall|i: int| 0 <= i < lines.len() ==> 1 <= #[trigger] lines[i] <= line_total(haystack)
    &&& forall|i: int, j: int| 0 <= i < j < lines.len() ==> lines[i] < lines[j]
}

/// The outcome of a scan without the errors' contents.
pub open spec fn scan_outcome(found: Result<Vec<u64>, SearchError>) -> Result<
    Seq<u64>,
    SearchFailure,
> {
    match found {
        Ok(lines) => Ok(lines@),
        Err(error) => Err(error.spec_failure()),
    }
}

/// Line numbers counted from zero, for line numbers counted from one.
pub open spec fn zero_based(lines: Seq<u64>) -> Seq<LineNumber> {
    lines.map_values(|line: u64| (line - 1) as LineNumber)
}

/// The invariant of a set of search results: the line numbers ascend
/// strictly, so none occurs twice.
pub open spec fn is_result_set(lines: Seq<LineNumber>) -> bool {
    forall|i: int, j: int| 0 <= i < j < lines.len() ==> lines[i] < lines[j]
}

/// Whether `lines` can be the results of a search in `content`: a result
/// set of numbers of lines that `content` has.
pub open spec fn is_result_set_of(lines: Seq<LineNumber>, content: Seq<u8>) -> bool {
    &&& is_result_set(lines)
    &&& forall|i: int| 0 <= i < lines.len() ==> #[trigger] lines[i] < line_total(content)
    &&& forall|i: int| 0 <= i < lines.len() ==> #[trigger] lines[i] < content.len()
}

/// Notes the number of a matching line behind those noted before, and asks
/// for the scan to go on.
pub(crate) fn keep_line(lines: &mut Vec<u64>, line_number: u64) -> (go_on: bool)
    ensures
        go_on,
        final(lines)@ == old(lines)@.push(line_number),
{
    lines.push(line_number);
    true
}

/// `regex::escape`: writes a backslash before each meta character of
/// `text`, and leaves the other characters as they are.
#[verifier::external_body]
fn escape_pattern(text: &str) -> (escaped: String)
    ensures
        escaped@ == escaped_text(text@),
{
    regex::escape(text)
}

/// `RegexMatcherBuilder::build` with the two options set, then
/// `Searcher::search_slice` with a default searcher and the sink `Lossy`,
/// which hands out the line number of each matching line.
///
/// The contract names the outcome, which depends on the arguments alone. An
/// error of the builder counts as `Pattern`, one of the searcher as `Io`. Of
/// the line numbers it states what the searcher's line counting shows: the
/// number of a line is one more than the number of line feeds before it, the
/// matching lines are reported in the order in which they stand in the
/// file, and nothing is reported of an empty file.
#[verifier::external_body]
fn grep_matching_lines(
    pattern: &str,
    case_insensitive: bool,
    whole_word: bool,
    haystack: &[u8],
) -> (found: Result<Vec<u64>, SearchError>)
    ensures
        scan_outcome(found) == grep_scan(pattern@, case_insensitive, whole_word, haystack@),
        found matches Ok(lines) ==> is_line_report(lines@, haystack@),
{
    let mut builder = RegexMatcherBuilder::new();
    builder.case_insensitive(case_insensitive).word(whole_word);
    let matcher = match builder.build(pattern) {
        Ok(matcher) => matcher,
        Err(error) => return Err(SearchError::GrepError(error)),
    };
    let mut lines: Vec<u64> = Vec::new();
    let sink = Lossy(|line_number, _| Ok(keep_line(&mut lines, line_number)));
    match Searcher::new().search_slice(matcher, haystack, sink) {
        Ok(()) => Ok(lines),
        Err(error) => Err(SearchError::IoError(error)),
    }
}

/// Turns line numbers counted from one into line numbers counted from zero.
pub fn to_line_numbers(one_based: Vec<u64>) -> (lines: Vec<LineNumber>)
    requires
        forall|i: int| 0 <= i < one_based.len() ==> 1 <= #[trigger] one_based[i] <= usize::MAX + 1,
    ensures
        lines@ == zero_based(one_based@),
{
    let mut lines: Vec<LineNumber> = Vec::new();
    let mut i: usize = 0;
    while i < one_based.len()
        invariant
            i <= one_based.len(),
            forall|k: int|
                0 <= k < one_based.len() ==> 1 <= #[trigger] one_based[k] <= usize::MAX + 1,
            lines@ == zero_based(one_based@.take(i as int)),
        decreases one_based.len() - i,
    {
        let zero_based_line_num = one_based[i] - 1;
        proof {
            assert(one_based@.take(i + 1) =~= one_based@.take(i as int).push(one_based[i as int]));
            assert(zero_based(one_based@.take(i + 1)) =~= zero_based(
                one_based@.take(i as int),
            ).push(zero_based_line_num as LineNumber));
        }
        lines.push(zero_based_line_num as LineNumber);
        i = i + 1;
    }
    proof {
        assert(one_based@.take(one_based.len() as int) =~= one_based@);
    }
    lines
}

/// The line numbers of a report, counted from zero, are a result set of
/// numbers of lines that the file has.
pub proof fn lemma_report_gives_result_set(lines: Seq<u64>, content: Seq<u8>)
    requires
        is_line_report(lines, content),
        content.len() <= usize::MAX,
    ensures
        is_result_set_of(zero_based(lines), content),
        zero_based(lines).len() == lines.len(),
        forall|i: int| 0 <= i < lines.len() ==> #[trigger] zero_based(lines)[i] == lines[i] - 1,
        line_total(content) <= content.len(),
{
    lemma_line_starts_sound(content, content.len() as int);
    assert forall|i: int| 0 <= i < lines.len() implies #[trigger] zero_based(lines)[i] == lines[i]
        - 1 by {
        assert(1 <= lines[i] <= line_total(content));
    }
}

/// Searches the bytes of a file for `search_text` and returns the numbers of
/// the lines that match, counted from zero and ascending.
///
/// Without the option `regex` the text is matched as it is written. A
/// pattern that cannot be compiled gives `GrepError`, a failure of the scan
/// `IoError`.
pub fn search(options: &SearchOptions, content: &[u8], search_text: &str) -> (result: Result<
    Vec<LineNumber>,
    SearchError,
>)
    ensures
        match grep_scan(
            search_pattern(*options, search_text@),
            !options.case_sensitive,
            options.whole_word,
            content@,
        ) {
            Ok(lines) => result is Ok && result.unwrap()@ == zero_based(lines),
            Err(failure) => result is Err && result.unwrap_err().spec_failure() == failure,
        },
        result matches Ok(lines) ==> is_result_set_of(lines@, content@),
{
    let found = if options.regex {
        grep_matching_lines(search_text, !options.case_sensitive, options.whole_word, content)
    } else {
        let escaped_search_text = escape_pattern(search_text);
        grep_matching_lines(
            escaped_search_text.as_str(),
            !options.case_sensitive,
            options.whole_word,
            content,
        )
    };
    match found {
        Ok(one_based) => {
            proof {
                assert(content@.len() == content.len());
                lemma_report_gives_result_set(one_based@, content@);
                assert forall|i: int| 0 <= i < one_based.len() implies 1 <= #[trigger] one_based[i]
                    <= usize::MAX + 1 by {
                    assert(1 <= one_based@[i] <= line_total(content@));
                }
            }
            Ok(to_line_numbers(one_based))
        },
        Err(error) => Err(error),
    }
}

/// The kind of failure of a search whose file cannot be read: that of the
/// pattern, if the pattern cannot be compiled, since a search compiles its
/// pattern before it reads; else that of the reading.
pub open spec fn failure_of_unread_search(options: SearchOptions, text: Seq<char>) -> SearchFailure {
    match grep_scan(
        search_pattern(options, text),
        !options.case_sensitive,
        options.whole_word,
        Seq::<u8>::empty(),
    ) {
        Err(SearchFailure::Pattern) => SearchFailure::Pattern,
        _ => SearchFailure::Io,
    }
}

/// The error of a search for `search_text` in a file that could not be read
/// for the reason `read_error`. The pattern is tried on no bytes at all: if
/// it cannot be compiled, that is the error; else `read_error` is.
pub fn search_unread(options: &SearchOptions, search_text: &str, read_error: std::io::Error) -> (error:
    SearchError)
    ensures
        error.spec_failure() == failure_of_unread_search(*options, search_text@),
        error.spec_failure() == SearchFailure::Io ==> error == SearchError::IoError(read_error),
{
    let nothing: Vec<u8> = Vec::new();
    match search(options, nothing.as_slice(), search_text) {
        Ok(_) => SearchError::IoError(read_error),
        Err(error) => {
            if error.is_pattern_error() {
                error
            } else {
                SearchError::IoError(read_error)
            }
        },
    }
}

} // verus!
