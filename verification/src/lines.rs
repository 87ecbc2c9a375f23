//! Splitting the text of a configuration file into its lines.

use vstd::prelude::*;
use vstd::string::*;

verus! {

/// A line without the carriage return that preceded its line feed.
pub open spec fn without_trailing_cr(line: Seq<char>) -> Seq<char> {
    if line.len() > 0 && line.last() == '\r' {
        line.drop_last()
    } else {
        line
    }
}

/// The lines of `text` from the line that began at `start`, of which the
/// characters before `at` hold no line feed.
///
/// A line ends at a line feed. The line feed, and a carriage return directly
/// before it, belong to no line. Text after the last line feed is a line of
/// its own, kept as it stands; no text after it is no line.
pub open spec fn lines_scan(text: Seq<char>, start: int, at: int) -> Seq<Seq<char>>
    decreases text.len() - at,
{
    if at >= text.len() {
        if start < text.len() {
            seq![text.subrange(start, text.len() as int)]
        } else {
            Seq::empty()
        }
    } else if text[at] == '\n' {
        seq![without_trailing_cr(text.subrange(start, at))] + lines_scan(text, at + 1, at + 1)
    } else {
        lines_scan(text, start, at + 1)
    }
}

/// The lines of `text`, first to last.
pub open spec fn lines_of(text: Seq<char>) -> Seq<Seq<char>> {
    lines_scan(text, 0, 0)
}

/// Splits `text` into its lines.
///
/// Each character is found by its index, which takes time in proportion to
/// the index: the whole takes time quadratic in the length of `text`.
pub fn split_lines(text: &str) -> (lines: Vec<String>)
    ensures
        lines.deep_view() == lines_of(text@),
{
    let n: usize = text.unicode_len();
    let mut lines: Vec<String> = Vec::new();
    let mut start: usize = 0;
    let mut at: usize = 0;
    while at < n
        invariant
            n == text@.len(),
            start <= at <= n,
            lines.deep_view() + lines_scan(text@, start as int, at as int) == lines_of(text@),
        decreases n - at,
    {
        if text.get_char(at) == '\n' {
            let stop: usize = if at > start && text.get_char(at - 1) == '\r' {
                at - 1
            } else {
                at
            };
            let line: String = text.substring_char(start, stop).to_owned();
            proof {
                let whole = text@.subrange(start as int, at as int);
                assert(line@ == without_trailing_cr(whole)) by {
                    if at > start && text@[at - 1] == '\r' {
                        assert(whole.last() == '\r');
                        assert(whole.drop_last() == text@.subrange(start as int, stop as int));
                    }
                }
                assert(lines.deep_view().push(line@) + lines_scan(text@, at + 1, at + 1)
                    == lines.deep_view() + lines_scan(text@, start as int, at as int));
            }
            let ghost before = lines.deep_view();
            lines.push(line);
            assert(lines.deep_view() == before.push(line@));
            start = at + 1;
        }
        at = at + 1;
    }
    if start < n {
        let line: String = text.substring_char(start, n).to_owned();
        let ghost before = lines.deep_view();
        lines.push(line);
        assert(lines.deep_view() == before.push(line@));
        assert(before + seq![line@] == before.push(line@));
    } else {
        assert(lines.deep_view() + Seq::<Seq<char>>::empty() == lines.deep_view());
    }
    lines
}

} // verus!
