//! The whole token stream of a buffer.

use vstd::prelude::*;
use crate::lexer::{cursor_wf, lemma_step, pulled, start_cursor, step, unit_of, Cursor, Lexer, Unit};
use crate::token::{ErrorKind, Kind, KindView, LexError, Token};

verus! {

/// One item of a token stream: a token or an error, and the span of the
/// buffer that it was read from. The span starts at `start`, with the
/// blanks that were passed over before the token, and ends before `end`.
#[derive(Debug, PartialEq, Eq)]
pub struct Lexeme {
    pub unit: Result<Token, LexError>,
    pub start: usize,
    pub end: usize,
}

/// What a [`Lexeme`] is.
pub struct LexemeView {
    pub unit: Unit,
    pub start: int,
    pub end: int,
}

impl View for Lexeme {
    type V = LexemeView;

    open spec fn view(&self) -> LexemeView {
        LexemeView { unit: unit_of(self.unit), start: self.start as int, end: self.end as int }
    }
}

/// What each of `items` is.
pub open spec fn views(items: Seq<Lexeme>) -> Seq<LexemeView> {
    items.map_values(|item: Lexeme| item@)
}

/// Whether `what` is the token that ends a stream.
pub open spec fn is_end(what: Result<KindView, ErrorKind>) -> bool {
    what == Ok::<KindView, ErrorKind>(KindView::Eof)
}

/// The stream that a lexer at `cur` hands out, pull after pull, up to and
/// with the first `Eof`.
pub open spec fn lex_from(src: Seq<u8>, cur: Cursor) -> Seq<LexemeView>
    decreases src.len() - cur.pos,
{
    let pull = step(src, cur);
    let here = LexemeView { unit: pulled(src, cur), start: cur.pos, end: pull.next.pos };
    if is_end(pull.what) || pull.next.pos <= cur.pos || pull.next.pos > src.len() {
        seq![here]
    } else {
        seq![here] + lex_from(src, pull.next)
    }
}

/// The token stream of `src`.
pub open spec fn lex(src: Seq<u8>) -> Seq<LexemeView> {
    lex_from(src, start_cursor())
}

/// Tells whether a pull has handed out the end of the input.
pub fn is_eof(unit: &Result<Token, LexError>) -> (end: bool)
    ensures
        end == is_end(unit_of(*unit).what),
{
    match unit {
        Ok(Token(Kind::Eof, _, _)) => true,
        _ => false,
    }
}

/// Reads the whole of `source`: every token and every error in the order
/// of the text, each with its span, up to and with the `Eof` that ends the
/// stream. The buffer must be shorter than `usize::MAX` bytes.
pub fn tokenize(source: &[u8]) -> (out: Vec<Lexeme>)
    requires
        source@.len() < usize::MAX,
    ensures
        views(out@) == lex(source@),
{
    let mut lexer = Lexer::new(source);
    let mut out: Vec<Lexeme> = Vec::new();
    proof {
        assert(views(out@) =~= Seq::empty());
        assert(views(out@) + lex(source@) =~= lex(source@));
    }
    loop
        invariant
            lexer.wf(),
            lexer.source() == source@,
            views(out@) + lex_from(source@, lexer@) == lex(source@),
        decreases source@.len() - lexer@.pos,
    {
        let ghost before = lexer@;
        let ghost read = out@;
        proof {
            lexer.lemma_wf();
            lemma_step(source@, before);
        }
        let start = lexer.offset();
        let unit = lexer.next_token();
        let end = lexer.offset();
        let done = is_eof(&unit);
        let item = Lexeme { unit, start, end };
        out.push(item);
        proof {
            assert(views(out@) =~= views(read).push(item@));
            if done {
                assert(views(read) + seq![item@] =~= views(out@));
            } else {
                assert(views(read) + (seq![item@] + lex_from(source@, lexer@)) =~= views(out@)
                    + lex_from(source@, lexer@));
            }
        }
        if done {
            return out;
        }
    }
}

} // verus!
