//! Lines and columns, as functions of an offset into the buffer.

use vstd::prelude::*;
use crate::bytes::LINE_FEED;

verus! {

/// The line, counted from 1, of the byte at offset `pos`: one more than the
/// number of line feeds before it.
pub open spec fn line_at(src: Seq<u8>, pos: int) -> int
    decreases pos,
{
    if pos <= 0 {
        1
    } else if src[pos - 1] == LINE_FEED {
        line_at(src, pos - 1) + 1
    } else {
        line_at(src, pos - 1)
    }
}

/// The offset at which the line of the byte at offset `pos` starts: just
/// after the last line feed before `pos`, or 0.
pub open spec fn line_start(src: Seq<u8>, pos: int) -> int
    decreases pos,
{
    if pos <= 0 {
        0
    } else if src[pos - 1] == LINE_FEED {
        pos
    } else {
        line_start(src, pos - 1)
    }
}

/// The column, counted from 1, of the byte at offset `pos`.
pub open spec fn column_at(src: Seq<u8>, pos: int) -> int {
    pos - line_start(src, pos) + 1
}

/// Lines and columns start at 1 and never exceed the offset by more than 1.
pub proof fn lemma_position_bounds(src: Seq<u8>, pos: int)
    requires
        0 <= pos,
    ensures
        1 <= line_at(src, pos) <= pos + 1,
        0 <= line_start(src, pos) <= pos,
        1 <= column_at(src, pos) <= pos + 1,
    decreases pos,
{
    if pos > 0 {
        lemma_position_bounds(src, pos - 1);
    }
}

/// Positions never go back: of two offsets, the later one has the greater
/// line, or the same line and the greater column.
pub proof fn lemma_position_monotonic(src: Seq<u8>, a: int, b: int)
    requires
        0 <= a <= b,
    ensures
        line_at(src, a) <= line_at(src, b),
        line_at(src, a) == line_at(src, b) ==> column_at(src, a) <= column_at(src, b),
        line_at(src, a) == line_at(src, b) ==> line_start(src, a) == line_start(src, b),
    decreases b - a,
{
    if a < b {
        lemma_position_monotonic(src, a, b - 1);
        lemma_position_bounds(src, b - 1);
    }
}

/// Carries a line number and a line start from offset `from` to offset `to`.
pub fn advance(src: &[u8], from: usize, to: usize, line: usize, start: usize) -> (out: (usize, usize))
    requires
        from <= to <= src@.len(),
        src@.len() < usize::MAX,
        line == line_at(src@, from as int),
        start == line_start(src@, from as int),
    ensures
        out.0 == line_at(src@, to as int),
        out.1 == line_start(src@, to as int),
{
    let mut line: usize = line;
    let mut start: usize = start;
    let mut at: usize = from;
    while at < to
        invariant
            from <= at <= to <= src@.len(),
            src@.len() < usize::MAX,
            line == line_at(src@, at as int),
            start == line_start(src@, at as int),
        decreases to - at,
    {
        proof {
            lemma_position_bounds(src@, at as int);
        }
        if src[at] == LINE_FEED {
            line += 1;
            start = at + 1;
        }
        at += 1;
    }
    (line, start)
}

} // verus!
