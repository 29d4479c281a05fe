//! What a scanner hands back: where a piece of text ends and what it is.

use vstd::prelude::*;
use vstd::slice::*;
use crate::token::{ErrorKind, Kind, KindView};

verus! {

/// A piece of text that a scanner has read: the index just after its last
/// byte, and the kind of token that it is, or what is wrong with it.
pub struct Scan {
    pub end: usize,
    pub what: Result<Kind, ErrorKind>,
}

/// What a [`Scan`] is.
pub struct Piece {
    pub end: int,
    pub what: Result<KindView, ErrorKind>,
}

impl View for Scan {
    type V = Piece;

    open spec fn view(&self) -> Piece {
        Piece {
            end: self.end as int,
            what: match self.what {
                Ok(kind) => Ok(kind@),
                Err(error) => Err(error),
            },
        }
    }
}

/// Copies the bytes of `src` from index `from` up to index `to`.
pub fn copy_range(src: &[u8], from: usize, to: usize) -> (out: Vec<u8>)
    requires
        from <= to <= src@.len(),
    ensures
        out@ == src@.subrange(from as int, to as int),
{
    slice_to_vec(slice_subrange(src, from, to))
}

} // verus!
