//! Comments. `//` opens a comment that runs to the end of its line, `/*`
//! one that runs to the next `*/`. Where `!` follows the opening mark the
//! comment is documentation, and its text is kept.

use vstd::prelude::*;
use crate::bytes::{byte_is, lemma_run_end, run_end, scan_run, Class};
use crate::piece::{copy_range, Piece, Scan};
use crate::token::{ErrorKind, Kind, KindView};

verus! {

/// Whether a comment opens at index `at`.
pub open spec fn comment_opens(src: Seq<u8>, at: int) -> bool {
    &&& 0 <= at
    &&& at + 1 < src.len()
    &&& src[at] == '/' as u8
    &&& (src[at + 1] == '/' as u8 || src[at + 1] == '*' as u8)
}

/// The index of the first `*/` that starts at `from` or later, or the
/// length of `src` if there is none.
pub open spec fn block_close(src: Seq<u8>, from: int) -> int
    decreases src.len() - from,
{
    if from < 0 || from + 1 >= src.len() {
        src.len() as int
    } else if src[from] == '*' as u8 && src[from + 1] == '/' as u8 {
        from
    } else {
        block_close(src, from + 1)
    }
}

/// The comment that opens at index `at`.
pub open spec fn comment_at(src: Seq<u8>, at: int) -> Piece {
    let doc = at + 2 < src.len() && src[at + 2] == '!' as u8;
    if src[at + 1] == '/' as u8 {
        let end = run_end(src, at + 2, Class::InLine);
        Piece {
            end,
            what: Ok(
                if doc {
                    KindView::LineComment(src.subrange(at + 3, end))
                } else {
                    KindView::Comment
                },
            ),
        }
    } else {
        let close = block_close(src, at + 2);
        if close >= src.len() {
            Piece { end: src.len() as int, what: Err(ErrorKind::UnterminatedBlockComment) }
        } else {
            Piece {
                end: close + 2,
                what: Ok(
                    if doc {
                        KindView::LineComment(src.subrange(at + 3, close))
                    } else {
                        KindView::Comment
                    },
                ),
            }
        }
    }
}

/// Where a block comment closes, `*/` stands; and it is not looked for
/// before the index given.
pub proof fn lemma_block_close(src: Seq<u8>, from: int)
    requires
        0 <= from <= src.len(),
    ensures
        from <= block_close(src, from) <= src.len(),
        block_close(src, from) < src.len() ==> {
            &&& block_close(src, from) + 2 <= src.len()
            &&& src[block_close(src, from)] == '*' as u8
            &&& src[block_close(src, from) + 1] == '/' as u8
        },
    decreases src.len() - from,
{
    if from + 1 < src.len() && !(src[from] == '*' as u8 && src[from + 1] == '/' as u8) {
        lemma_block_close(src, from + 1);
    }
}

/// A comment holds its opening mark and ends within the buffer.
pub proof fn lemma_comment_at(src: Seq<u8>, at: int)
    requires
        comment_opens(src, at),
    ensures
        at + 2 <= comment_at(src, at).end <= src.len(),
{
    lemma_run_end(src, at + 2, Class::InLine);
    lemma_block_close(src, at + 2);
}

/// Finds the first `*/` that starts at `from` or later.
fn find_block_close(src: &[u8], from: usize) -> (close: usize)
    requires
        from <= src@.len(),
    ensures
        close == block_close(src@, from as int),
        from <= close <= src@.len(),
{
    let len = src.len();
    let mut at: usize = from;
    while len - at >= 2
        invariant
            len == src@.len(),
            from <= at <= len,
            block_close(src@, from as int) == block_close(src@, at as int),
        decreases len - at,
    {
        if src[at] == '*' as u8 && src[at + 1] == '/' as u8 {
            return at;
        }
        at += 1;
    }
    len
}

/// Reads the comment that opens at index `at`.
pub fn scan_comment(src: &[u8], at: usize) -> (out: Scan)
    requires
        comment_opens(src@, at as int),
    ensures
        out@ == comment_at(src@, at as int),
        at < out.end <= src@.len(),
{
    let len = src.len();
    let doc = byte_is(src, at + 2, '!' as u8);
    if src[at + 1] == '/' as u8 {
        let end = scan_run(src, at + 2, Class::InLine);
        if doc {
            proof {
                lemma_run_end(src@, at + 3, Class::InLine);
            }
            Scan { end, what: Ok(Kind::LineComment(copy_range(src, at + 3, end))) }
        } else {
            Scan { end, what: Ok(Kind::Comment) }
        }
    } else {
        let close = find_block_close(src, at + 2);
        proof {
            lemma_block_close(src@, at + 2);
            if doc {
                lemma_block_close(src@, at + 3);
            }
        }
        if close >= len {
            Scan { end: len, what: Err(ErrorKind::UnterminatedBlockComment) }
        } else if doc {
            Scan { end: close + 2, what: Ok(Kind::LineComment(copy_range(src, at + 3, close))) }
        } else {
            Scan { end: close + 2, what: Ok(Kind::Comment) }
        }
    }
}

} // verus!
