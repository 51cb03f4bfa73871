//! Splitting a text into its lines.
//!
//! A line ends at a line feed, which is not part of the line; a carriage return
//! directly before that line feed is not part of it either. A text that ends
//! with a line feed has the same lines as the text without it, and the last
//! line of a text that does not end with a line feed keeps everything it
//! holds.

use vstd::prelude::*;
use vstd::slice::slice_subrange;

verus! {

pub const LINE_FEED: u8 = 10;

pub const CARRIAGE_RETURN: u8 = 13;

/// The position of the first line feed at or after `from`, or the length of
/// the text where there is none.
pub open spec fn line_end(text: Seq<u8>, from: int) -> int
    decreases text.len() - from,
{
    if from < 0 || from >= text.len() {
        text.len() as int
    } else if text[from] == LINE_FEED {
        from
    } else {
        line_end(text, from + 1)
    }
}

/// `line_end` is the least position from `from` on that holds a line feed.
pub proof fn lemma_line_end(text: Seq<u8>, from: int)
    requires
        0 <= from <= text.len(),
    ensures
        from <= line_end(text, from) <= text.len(),
        line_end(text, from) < text.len() ==> text[line_end(text, from)] == LINE_FEED,
        forall|k: int| from <= k < line_end(text, from) ==> text[k] != LINE_FEED,
    decreases text.len() - from,
{
    if from < text.len() && text[from] != LINE_FEED {
        lemma_line_end(text, from + 1);
    }
}

/// A line as it was cut off before its line feed, without the carriage return
/// that belonged to the line ending.
pub open spec fn without_carriage_return(line: Seq<u8>) -> Seq<u8> {
    if line.len() > 0 && line.last() == CARRIAGE_RETURN {
        line.drop_last()
    } else {
        line
    }
}

/// The lines of the part of `text` that starts at `from`.
pub open spec fn lines_from(text: Seq<u8>, from: int) -> Seq<Seq<u8>>
    decreases text.len() - from,
{
    if from < 0 || from >= text.len() {
        Seq::empty()
    } else {
        let end = line_end(text, from);
        if end >= text.len() {
            seq![text.subrange(from, text.len() as int)]
        } else {
            proof {
                lemma_line_end(text, from);
            }
            seq![without_carriage_return(text.subrange(from, end))] + lines_from(text, end + 1)
        }
    }
}

/// The lines of `text`, in order.
pub open spec fn lines(text: Seq<u8>) -> Seq<Seq<u8>> {
    lines_from(text, 0)
}

/// The number of lines of `text` that hold at least one byte.
pub open spec fn non_empty_line_count(text: Seq<u8>) -> nat {
    lines(text).filter(|line: Seq<u8>| line.len() > 0).len()
}

/// Cuts the carriage return off a line that was found before a line feed.
fn trim_carriage_return<'a>(line: &'a [u8]) -> (r: &'a [u8])
    ensures
        r@ == without_carriage_return(line@),
{
    let n: usize = line.len();
    if n > 0 && line[n - 1] == CARRIAGE_RETURN {
        let r = slice_subrange(line, 0, n - 1);
        assert(r@ =~= line@.drop_last());
        r
    } else {
        line
    }
}

/// Splits `text` into its lines, each a part of `text` itself.
pub fn split_lines<'a>(text: &'a [u8]) -> (r: Vec<&'a [u8]>)
    ensures
        r@.len() == lines(text@).len(),
        forall|i: int| 0 <= i < r@.len() ==> (#[trigger] r@[i])@ == lines(text@)[i],
{
    let mut out: Vec<&'a [u8]> = Vec::new();
    let n: usize = text.len();
    let mut start: usize = 0;
    while start < n
        invariant
            n == text@.len(),
            start <= n,
            lines(text@).len() == out@.len() + lines_from(text@, start as int).len(),
            forall|i: int| 0 <= i < out@.len() ==> (#[trigger] out@[i])@ == lines(text@)[i],
            forall|i: int|
                0 <= i < lines_from(text@, start as int).len() ==> lines(text@)[out@.len() + i]
                    == #[trigger] lines_from(text@, start as int)[i],
        decreases n - start,
    {
        let mut end: usize = start;
        while end < n && text[end] != LINE_FEED
            invariant
                n == text@.len(),
                start <= end <= n,
                line_end(text@, end as int) == line_end(text@, start as int),
            decreases n - end,
        {
            end += 1;
        }
        proof {
            lemma_line_end(text@, start as int);
            assert(line_end(text@, end as int) == end);
        }
        let ghost rest = lines_from(text@, start as int);
        if end == n {
            let line = slice_subrange(text, start, n);
            assert(rest =~= seq![text@.subrange(start as int, n as int)]);
            assert(lines(text@)[out@.len() as int] == rest[0]);
            out.push(line);
            start = n;
        } else {
            let line = trim_carriage_return(slice_subrange(text, start, end));
            let ghost tail = lines_from(text@, end + 1);
            assert(rest =~= seq![line@] + tail);
            assert forall|i: int| 0 <= i < tail.len() implies lines(text@)[out@.len() + 1 + i]
                == #[trigger] tail[i] by {
                assert(rest[i + 1] == tail[i]);
            }
            assert(lines(text@)[out@.len() as int] == rest[0]);
            out.push(line);
            start = end + 1;
        }
    }
    out
}

} // verus!
