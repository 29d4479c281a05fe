//! One lexeme: what stands at an index where a token starts.

use vstd::prelude::*;
use crate::bytes::{byte_is, is_digit, is_word_start, lemma_run_end, run_end, scan_run, Class};
use crate::comment::{comment_at, comment_opens, lemma_comment_at, scan_comment};
use crate::number::{lemma_number_at, number_at, scan_number};
use crate::piece::{copy_range, Piece, Scan};
use crate::punct::{lemma_punct_at, lemma_text_len, punct_at, scan_punct};
use crate::quoted::{
    char_at, check_raw_opens, lemma_quoted_at, lemma_raw_at, raw_at, raw_opens, scan_char, scan_raw,
    scan_string, string_at,
};
use crate::token::{ErrorKind, Kind, KindView};

verus! {

/// The name that starts at index `at`: the run of letters, digits and `_`.
pub open spec fn word_at(src: Seq<u8>, at: int) -> Piece {
    let end = run_end(src, at, Class::Word);
    Piece { end, what: Ok(KindView::Identifier(src.subrange(at, end))) }
}

/// The text at index `at` with which no token starts: one byte, and with a
/// byte that is not ASCII the continuation bytes that follow it.
pub open spec fn unknown_at(src: Seq<u8>, at: int) -> Piece {
    Piece {
        end: if src[at] >= 0x80 {
            run_end(src, at + 1, Class::Continuation)
        } else {
            at + 1
        },
        what: Err(ErrorKind::UnknownCharacter),
    }
}

/// The lexeme that starts at index `at`. A comment comes before the
/// operator `/`, a literal with `b` or `r` in front before a name, and of
/// the punctuation marks the longest.
pub open spec fn lexeme_at(src: Seq<u8>, at: int) -> Piece {
    let b = src[at];
    if comment_opens(src, at) {
        comment_at(src, at)
    } else if b == 'b' as u8 && at + 1 < src.len() && src[at + 1] == '\'' as u8 {
        char_at(src, at, true)
    } else if b == 'b' as u8 && at + 1 < src.len() && src[at + 1] == '"' as u8 {
        string_at(src, at, true)
    } else if b == 'b' as u8 && raw_opens(src, at + 1) {
        raw_at(src, at, true)
    } else if raw_opens(src, at) {
        raw_at(src, at, false)
    } else if is_word_start(b) {
        word_at(src, at)
    } else if is_digit(b) {
        number_at(src, at)
    } else if b == '"' as u8 {
        string_at(src, at, false)
    } else if b == '\'' as u8 {
        char_at(src, at, false)
    } else {
        match punct_at(src, at) {
            Some((kind, n)) => Piece { end: at + n, what: Ok(KindView::Punct(kind)) },
            None => unknown_at(src, at),
        }
    }
}

/// A lexeme is not empty and ends within the buffer.
pub proof fn lemma_lexeme_at(src: Seq<u8>, at: int)
    requires
        0 <= at < src.len(),
    ensures
        at < lexeme_at(src, at).end <= src.len(),
{
    let b = src[at];
    if comment_opens(src, at) {
        lemma_comment_at(src, at);
    } else if b == 'b' as u8 && at + 1 < src.len() && (src[at + 1] == '\'' as u8 || src[at + 1]
        == '"' as u8) {
        lemma_quoted_at(src, at + 1, true);
    } else if b == 'b' as u8 && raw_opens(src, at + 1) {
        lemma_raw_at(src, at, true);
    } else if raw_opens(src, at) {
        lemma_raw_at(src, at, false);
    } else if is_word_start(b) {
        lemma_run_end(src, at + 1, Class::Word);
    } else if is_digit(b) {
        lemma_number_at(src, at);
    } else if b == '"' as u8 || b == '\'' as u8 {
        lemma_quoted_at(src, at, false);
    } else if punct_at(src, at) is Some {
        let (kind, n) = punct_at(src, at)->0;
        lemma_punct_at(src, at);
        lemma_text_len(kind);
    } else {
        lemma_run_end(src, at + 1, Class::Continuation);
    }
}

/// A name holds letters, digits and `_` only, so it is ASCII text.
pub proof fn lemma_word_at(src: Seq<u8>, at: int)
    requires
        0 <= at <= src.len(),
    ensures
        word_at(src, at).what matches Ok(KindView::Identifier(name)) && forall|i: int|
            0 <= i < name.len() ==> Class::Word.has(#[trigger] name[i]) && name[i] < 0x80,
{
    lemma_run_end(src, at, Class::Word);
}

/// Reads the lexeme that starts at index `at`.
pub fn scan_lexeme(src: &[u8], at: usize) -> (out: Scan)
    requires
        at < src@.len(),
    ensures
        out@ == lexeme_at(src@, at as int),
        at < out.end <= src@.len(),
{
    let len = src.len();
    let b = src[at];
    if b == '/' as u8 && len - at >= 2 && (src[at + 1] == '/' as u8 || src[at + 1] == '*' as u8) {
        scan_comment(src, at)
    } else if b == 'b' as u8 && byte_is(src, at + 1, '\'' as u8) {
        scan_char(src, at, true)
    } else if b == 'b' as u8 && byte_is(src, at + 1, '"' as u8) {
        scan_string(src, at, true)
    } else if b == 'b' as u8 && check_raw_opens(src, at + 1) {
        scan_raw(src, at, true)
    } else if check_raw_opens(src, at) {
        scan_raw(src, at, false)
    } else if is_word_start(b) {
        let end = scan_run(src, at, Class::Word);
        proof {
            lemma_run_end(src@, at + 1, Class::Word);
        }
        Scan { end, what: Ok(Kind::Identifier(copy_range(src, at, end))) }
    } else if is_digit(b) {
        scan_number(src, at)
    } else if b == '"' as u8 {
        scan_string(src, at, false)
    } else if b == '\'' as u8 {
        scan_char(src, at, false)
    } else {
        match scan_punct(src, at) {
            Some((kind, n)) => {
                proof {
                    lemma_punct_at(src@, at as int);
                }
                Scan { end: at + n, what: Ok(kind) }
            },
            None => {
                let end = if b >= 0x80 {
                    scan_run(src, at + 1, Class::Continuation)
                } else {
                    at + 1
                };
                Scan { end, what: Err(ErrorKind::UnknownCharacter) }
            },
        }
    }
}

} // verus!
