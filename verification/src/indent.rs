//! Indentation. The widths of the blocks that are open form a stack, each
//! wider than the one below it. A line that is indented by more than the
//! top of the stack opens a block; a line that is indented by less closes
//! every block that is wider than the line.

use vstd::prelude::*;

verus! {

/// Whether `levels` is a stack of indentation widths: none is zero, and
/// each is wider than the one below it.
pub open spec fn levels_wf(levels: Seq<usize>) -> bool {
    &&& forall|i: int| 0 <= i < levels.len() ==> #[trigger] levels[i] > 0
    &&& forall|i: int, j: int| 0 <= i < j < levels.len() ==> levels[i] < levels[j]
}

/// The width of the innermost open block, 0 where none is open.
pub open spec fn top_width(levels: Seq<usize>) -> int {
    if levels.len() == 0 {
        0
    } else {
        levels.last() as int
    }
}

/// How many blocks stay open on a line that is indented by `width`: those
/// that are not wider than the line.
pub open spec fn open_levels(levels: Seq<usize>, width: int) -> int
    decreases levels.len(),
{
    if levels.len() == 0 {
        0
    } else if levels.last() <= width {
        levels.len() as int
    } else {
        open_levels(levels.drop_last(), width)
    }
}

/// The blocks that stay open are the lowest of the stack; they are not
/// wider than the line, and every block above them is.
pub proof fn lemma_open_levels(levels: Seq<usize>, width: int)
    requires
        levels_wf(levels),
        0 <= width,
    ensures
        0 <= open_levels(levels, width) <= levels.len(),
        forall|i: int| 0 <= i < open_levels(levels, width) ==> #[trigger] levels[i] <= width,
        forall|i: int| open_levels(levels, width) <= i < levels.len() ==> #[trigger] levels[i] > width,
        top_width(levels.take(open_levels(levels, width))) <= width,
        levels_wf(levels.take(open_levels(levels, width))),
    decreases levels.len(),
{
    if levels.len() > 0 && levels.last() > width {
        let below = levels.drop_last();
        lemma_open_levels(below, width);
        assert(below.take(open_levels(below, width)) =~= levels.take(open_levels(levels, width)));
        assert forall|i: int| open_levels(levels, width) <= i < levels.len() implies #[trigger] levels[i]
            > width by {
            if i < below.len() {
                assert(below[i] > width);
            }
        }
    } else {
        assert(levels.take(levels.len() as int) =~= levels);
        assert forall|i: int| 0 <= i < levels.len() implies #[trigger] levels[i] <= width by {
            if i < levels.len() - 1 {
                assert(levels[i] < levels[levels.len() - 1]);
            }
        }
    }
}

/// A stack stays a stack when a block is opened that is wider than its top.
pub proof fn lemma_push_level(levels: Seq<usize>, width: usize)
    requires
        levels_wf(levels),
        width > top_width(levels),
    ensures
        levels_wf(levels.push(width)),
{
    let pushed = levels.push(width);
    assert forall|i: int, j: int| 0 <= i < j < pushed.len() implies pushed[i] < pushed[j] by {
        if j == levels.len() {
            if i < levels.len() - 1 {
                assert(levels[i] < levels[levels.len() - 1]);
            }
        }
    }
}

/// Counts the blocks that stay open on a line that is indented by `width`.
pub fn count_open(levels: &Vec<usize>, width: usize) -> (open: usize)
    ensures
        open == open_levels(levels@, width as int),
        open <= levels@.len(),
{
    let mut open: usize = levels.len();
    proof {
        assert(levels@.take(open as int) =~= levels@);
    }
    while open > 0 && levels[open - 1] > width
        invariant
            open <= levels@.len(),
            open_levels(levels@, width as int) == open_levels(levels@.take(open as int), width as int),
        decreases open,
    {
        proof {
            assert(levels@.take(open as int).drop_last() =~= levels@.take(open - 1));
        }
        open -= 1;
    }
    proof {
        assert(levels@.take(levels@.len() as int) =~= levels@);
        if open > 0 {
            assert(levels@.take(open as int).last() == levels@[open - 1]);
        }
    }
    open
}

} // verus!
