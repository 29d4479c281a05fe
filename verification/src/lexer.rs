//! The scanning engine: a cursor over the buffer that hands out one token
//! at each pull.
//!
//! Blanks before a token are passed over. A line feed gives `NewLine`, and
//! the blanks at the start of the line that follows are its indentation,
//! unless that line is empty. Indentation wider than the innermost open
//! block opens a block and gives `Indent`; narrower indentation closes the
//! blocks that are wider than it, which the `NewLine` before it has told by
//! its number. Where the line is then still wider than the block it has
//! come back to, the indentation is inconsistent, and the line opens a
//! block of its own.

use vstd::prelude::*;
use crate::bytes::{lemma_run_end, run_end, scan_run, Class, LINE_FEED};
use crate::indent::{
    count_open, lemma_open_levels, lemma_push_level, levels_wf, open_levels, top_width,
};
use crate::lexeme::{lemma_lexeme_at, lexeme_at, scan_lexeme};
use crate::piece::copy_range;
use crate::position::{advance, column_at, lemma_position_bounds, line_at, line_start};
use crate::token::{ErrorKind, Kind, KindView, LexError, Token};

verus! {

/// Where a lexer stands: the offset of the next byte, whether that byte is
/// the first of its line to be looked at, and the widths of the open
/// blocks.
pub struct Cursor {
    pub pos: int,
    pub fresh: bool,
    pub levels: Seq<usize>,
}

/// What a pull hands out: the kind of a token or of an error, and the line
/// and the column of its first byte.
pub struct Unit {
    pub what: Result<KindView, ErrorKind>,
    pub line: int,
    pub column: int,
}

/// What a pull does: what it hands out, the offset of the first byte of
/// that, and where the lexer stands afterwards.
pub struct Pull {
    pub what: Result<KindView, ErrorKind>,
    pub at: int,
    pub next: Cursor,
}

/// What a token or an error is, as a [`Unit`].
pub open spec fn unit_of(out: Result<Token, LexError>) -> Unit {
    match out {
        Ok(token) => Unit { what: Ok(token.0@), line: token.1 as int, column: token.2 as int },
        Err(error) => Unit {
            what: Err(error.kind),
            line: error.line as int,
            column: error.column as int,
        },
    }
}

/// Where a lexer stands before its first pull.
pub open spec fn start_cursor() -> Cursor {
    Cursor { pos: 0, fresh: true, levels: Seq::empty() }
}

/// Whether a lexer can stand at `cur` in `src`: the buffer is one that a
/// machine can hold, the cursor lies within it, and the widths form a stack.
pub open spec fn cursor_wf(src: Seq<u8>, cur: Cursor) -> bool {
    &&& src.len() <= usize::MAX
    &&& 0 <= cur.pos <= src.len()
    &&& levels_wf(cur.levels)
}

/// How many blocks are open on the line that starts at offset `from`: as
/// many as before on an empty line, else those that are not wider than the
/// line's indentation.
pub open spec fn depth_after(src: Seq<u8>, from: int, levels: Seq<usize>) -> int {
    let at = run_end(src, from, Class::Blank);
    if at >= src.len() || src[at] == LINE_FEED {
        levels.len() as int
    } else {
        open_levels(levels, at - from)
    }
}

/// One pull from `src` with the lexer at `cur`.
pub open spec fn step(src: Seq<u8>, cur: Cursor) -> Pull {
    let at = run_end(src, cur.pos, Class::Blank);
    if at >= src.len() {
        Pull { what: Ok(KindView::Eof), at, next: Cursor { pos: at, ..cur } }
    } else if src[at] == LINE_FEED {
        Pull {
            what: Ok(KindView::NewLine(depth_after(src, at + 1, cur.levels) as usize)),
            at,
            next: Cursor { pos: at + 1, fresh: true, levels: cur.levels },
        }
    } else if cur.fresh {
        let width = at - cur.pos;
        let kept = cur.levels.take(open_levels(cur.levels, width));
        if width > top_width(kept) {
            Pull {
                what: if kept.len() == cur.levels.len() {
                    Ok(KindView::Indent(src.subrange(cur.pos, at)))
                } else {
                    Err(ErrorKind::InconsistentIndentation)
                },
                at: cur.pos,
                next: Cursor { pos: at, fresh: false, levels: kept.push(width as usize) },
            }
        } else {
            Pull {
                what: lexeme_at(src, at).what,
                at,
                next: Cursor { pos: lexeme_at(src, at).end, fresh: false, levels: kept },
            }
        }
    } else {
        Pull {
            what: lexeme_at(src, at).what,
            at,
            next: Cursor { pos: lexeme_at(src, at).end, fresh: false, levels: cur.levels },
        }
    }
}

/// What one pull from `src` hands out with the lexer at `cur`.
pub open spec fn pulled(src: Seq<u8>, cur: Cursor) -> Unit {
    let pull = step(src, cur);
    Unit { what: pull.what, line: line_at(src, pull.at), column: column_at(src, pull.at) }
}

/// Bytes that hold no line feed leave the line as it is.
pub proof fn lemma_same_line(src: Seq<u8>, from: int, to: int)
    requires
        0 <= from <= to <= src.len(),
        forall|i: int| from <= i < to ==> #[trigger] src[i] != LINE_FEED,
    ensures
        line_at(src, to) == line_at(src, from),
        line_start(src, to) == line_start(src, from),
    decreases to - from,
{
    if from < to {
        lemma_same_line(src, from, to - 1);
        assert(src[to - 1] != LINE_FEED);
    }
}

/// A pull leaves the lexer within the buffer, with a stack of widths. It
/// hands out something that starts at or after the cursor, and unless that
/// is the end of the input it moves on.
pub proof fn lemma_step(src: Seq<u8>, cur: Cursor)
    requires
        cursor_wf(src, cur),
    ensures
        cursor_wf(src, step(src, cur).next),
        cur.pos <= step(src, cur).at <= step(src, cur).next.pos,
        step(src, cur).what != Ok::<KindView, ErrorKind>(KindView::Eof) ==> cur.pos < step(
            src,
            cur,
        ).next.pos,
        step(src, cur).what == Ok::<KindView, ErrorKind>(KindView::Eof) <==> run_end(
            src,
            cur.pos,
            Class::Blank,
        ) >= src.len(),
{
    let at = run_end(src, cur.pos, Class::Blank);
    lemma_run_end(src, cur.pos, Class::Blank);
    if at < src.len() && src[at] != LINE_FEED {
        lemma_lexeme_at(src, at);
        lemma_lexeme_what(src, at);
        if cur.fresh {
            let width = at - cur.pos;
            lemma_open_levels(cur.levels, width);
            let kept = cur.levels.take(open_levels(cur.levels, width));
            if width > top_width(kept) {
                lemma_push_level(kept, width as usize);
            }
        }
    }
}

/// No lexeme is the end of the input.
pub proof fn lemma_lexeme_what(src: Seq<u8>, at: int)
    requires
        0 <= at < src.len(),
    ensures
        lexeme_at(src, at).what != Ok::<KindView, ErrorKind>(KindView::Eof),
{
}

struct Place {
    pos: usize,
    line: usize,
    start: usize,
}

struct Leap {
    unit: Result<Token, LexError>,
    place: Place,
    fresh: bool,
    keep: usize,
    push: Option<usize>,
}

/// A lexer over one buffer. It hands out the tokens of the buffer one by
/// one, and `Eof` from the end of the input on.
pub struct Lexer<'a> {
    source: &'a [u8],
    place: Place,
    fresh: bool,
    levels: Vec<usize>,
}

impl<'a> View for Lexer<'a> {
    type V = Cursor;

    closed spec fn view(&self) -> Cursor {
        Cursor { pos: self.place.pos as int, fresh: self.fresh, levels: self.levels@ }
    }
}

impl<'a> Lexer<'a> {
    /// Whether the lexer is sound: it stands within its buffer, knows the
    /// line it stands on, and holds a stack of widths. Every lexer that
    /// `new` has made is sound, and stays so.
    pub closed spec fn wf(&self) -> bool {
        &&& self.source@.len() < usize::MAX
        &&& self.place.pos <= self.source@.len()
        &&& self.place.line == line_at(self.source@, self.place.pos as int)
        &&& self.place.start == line_start(self.source@, self.place.pos as int)
        &&& levels_wf(self.levels@)
    }

    /// The buffer that the lexer reads.
    pub closed spec fn source(&self) -> Seq<u8> {
        self.source@
    }

    /// A lexer at the start of `source`. The buffer must be shorter than
    /// `usize::MAX` bytes, so that every line and column has a number.
    pub fn new(source: &'a [u8]) -> (lexer: Self)
        requires
            source@.len() < usize::MAX,
        ensures
            lexer.wf(),
            lexer.source() == source@,
            lexer@ == start_cursor(),
    {
        Lexer { source, place: Place { pos: 0, line: 1, start: 0 }, fresh: true, levels: Vec::new() }
    }

    /// A sound lexer stands within its buffer, with a stack of widths.
    pub proof fn lemma_wf(&self)
        requires
            self.wf(),
        ensures
            cursor_wf(self.source(), self@),
            self.source().len() < usize::MAX,
    {
    }

    /// The offset of the next byte to be read.
    pub fn offset(&self) -> (pos: usize)
        ensures
            pos == self@.pos,
    {
        self.place.pos
    }

    /// The number of indentation levels that are open.
    pub fn depth(&self) -> (depth: usize)
        ensures
            depth == self@.levels.len(),
    {
        self.levels.len()
    }

    fn depth_from(&self, from: usize) -> (depth: usize)
        requires
            from <= self.source@.len(),
        ensures
            depth == depth_after(self.source@, from as int, self.levels@),
    {
        let at = scan_run(self.source, from, Class::Blank);
        if at >= self.source.len() || self.source[at] == LINE_FEED {
            self.levels.len()
        } else {
            count_open(&self.levels, at - from)
        }
    }

    fn scan(&self) -> (out: Leap)
        requires
            self.wf(),
        ensures
            unit_of(out.unit) == pulled(self.source@, self@),
            out.place.pos == step(self.source@, self@).next.pos,
            out.place.pos <= self.source@.len(),
            out.place.line == line_at(self.source@, out.place.pos as int),
            out.place.start == line_start(self.source@, out.place.pos as int),
            out.fresh == step(self.source@, self@).next.fresh,
            out.keep <= self.levels@.len(),
            step(self.source@, self@).next.levels == match out.push {
                Some(width) => self.levels@.take(out.keep as int).push(width),
                None => self.levels@.take(out.keep as int),
            },
            levels_wf(self.levels@.take(out.keep as int)),
            levels_wf(step(self.source@, self@).next.levels),
    {
        let src = self.source;
        let len = src.len();
        let pos = self.place.pos;
        let line = self.place.line;
        let start = self.place.start;
        let at = scan_run(src, pos, Class::Blank);
        proof {
            lemma_run_end(src@, pos as int, Class::Blank);
            lemma_same_line(src@, pos as int, at as int);
            lemma_position_bounds(src@, at as int);
            lemma_position_bounds(src@, pos as int);
            lemma_step(src@, self@);
            assert(self.levels@.take(self.levels@.len() as int) =~= self.levels@);
        }
        let column = at - start + 1;
        if at >= len {
            Leap {
                unit: Ok(Token(Kind::Eof, line, column)),
                place: Place { pos: at, line, start },
                fresh: self.fresh,
                keep: self.levels.len(),
                push: None,
            }
        } else if src[at] == LINE_FEED {
            let depth = self.depth_from(at + 1);
            Leap {
                unit: Ok(Token(Kind::NewLine(depth), line, column)),
                place: Place { pos: at + 1, line: line + 1, start: at + 1 },
                fresh: true,
                keep: self.levels.len(),
                push: None,
            }
        } else {
            let width = at - pos;
            let keep = if self.fresh {
                count_open(&self.levels, width)
            } else {
                self.levels.len()
            };
            let top = if keep == 0 {
                0
            } else {
                self.levels[keep - 1]
            };
            proof {
                lemma_open_levels(self.levels@, width as int);
            }
            if self.fresh && width > top {
                let here = pos - start + 1;
                let unit = if keep == self.levels.len() {
                    Ok(Token(Kind::Indent(copy_range(src, pos, at)), line, here))
                } else {
                    Err(LexError { kind: ErrorKind::InconsistentIndentation, line, column: here })
                };
                Leap { unit, place: Place { pos: at, line, start }, fresh: false, keep, push: Some(width) }
            } else {
                let piece = scan_lexeme(src, at);
                let (end_line, end_start) = advance(src, at, piece.end, line, start);
                let unit = match piece.what {
                    Ok(kind) => Ok(Token(kind, line, column)),
                    Err(kind) => Err(LexError { kind, line, column }),
                };
                Leap {
                    unit,
                    place: Place { pos: piece.end, line: end_line, start: end_start },
                    fresh: false,
                    keep,
                    push: None,
                }
            }
        }
    }

    /// Pulls the next token. What comes out, and where the lexer stands
    /// afterwards, is [`step`] of the buffer and of where the lexer stood.
    /// From the end of the input on, every pull gives `Eof`.
    pub fn next_token(&mut self) -> (out: Result<Token, LexError>)
        requires
            old(self).wf(),
        ensures
            final(self).wf(),
            final(self).source() == old(self).source(),
            final(self)@ == step(old(self).source(), old(self)@).next,
            unit_of(out) == pulled(old(self).source(), old(self)@),
    {
        let leap = self.scan();
        self.place = leap.place;
        self.fresh = leap.fresh;
        self.levels.truncate(leap.keep);
        if let Some(width) = leap.push {
            self.levels.push(width);
        }
        leap.unit
    }

    /// Looks at the next token without pulling it: what the next pull will
    /// hand out.
    pub fn peek(&self) -> (out: Result<Token, LexError>)
        requires
            self.wf(),
        ensures
            unit_of(out) == pulled(self.source(), self@),
    {
        self.scan().unit
    }
}

} // verus!
