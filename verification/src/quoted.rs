//! Quoted literals. A string stands between `"` and `"`, a character
//! between `'` and `'`, both on one line and with escape sequences; a raw
//! string stands between `r`, any number of `#`, `"` and the next `"` that
//! as many `#` follow, and is taken as it is. A `b` in front makes a literal
//! of bytes; without it the literal must be UTF-8.
//!
//! The escape sequences are `\n`, `\r`, `\t`, `\0`, `\\`, `\'`, `\"` and
//! `\x` with two hexadecimal digits, which without `b` must stay below
//! `\x80`.

use vstd::prelude::*;
use vstd::string::*;
use vstd::utf8::{decode_utf8, valid_utf8};
use crate::bytes::{lemma_run_end, run_end, scan_run, Class, LINE_FEED};
use crate::number::{digit_of, digit_value};
use crate::piece::{copy_range, Piece, Scan};
use crate::text::read_text;
use crate::token::{ErrorKind, Kind, KindView, LiteralKind, LiteralView};

verus! {

/// What was read between two quotes: the index at which reading stopped,
/// whether it stopped behind a closing quote, whether every escape
/// sequence was sound, and the bytes that the text denotes.
pub struct QuotedView {
    pub end: int,
    pub closed: bool,
    pub sound: bool,
    pub bytes: Seq<u8>,
}

struct Quoted {
    end: usize,
    closed: bool,
    sound: bool,
    bytes: Vec<u8>,
}

impl View for Quoted {
    type V = QuotedView;

    closed spec fn view(&self) -> QuotedView {
        QuotedView {
            end: self.end as int,
            closed: self.closed,
            sound: self.sound,
            bytes: self.bytes@,
        }
    }
}

/// The byte that the escape sequence at index `at` denotes, where a
/// backslash stands, and the length of the sequence; nothing where what
/// follows the backslash is no escape.
pub open spec fn escape_at(src: Seq<u8>, at: int, byte_literal: bool) -> Option<(u8, int)> {
    if at + 1 >= src.len() {
        None
    } else {
        match src[at + 1] as char {
            'n' => Some((0x0Au8, 2int)),
            'r' => Some((0x0Du8, 2int)),
            't' => Some((0x09u8, 2int)),
            '0' => Some((0x00u8, 2int)),
            '\\' => Some((0x5Cu8, 2int)),
            '\'' => Some((0x27u8, 2int)),
            '"' => Some((0x22u8, 2int)),
            'x' => {
                if at + 3 < src.len() && digit_value(src[at + 2]) < (if byte_literal {
                    16int
                } else {
                    8int
                }) && digit_value(src[at + 3]) < 16 {
                    Some(((digit_value(src[at + 2]) * 16 + digit_value(src[at + 3])) as u8, 4int))
                } else {
                    None
                }
            },
            _ => None,
        }
    }
}

/// How many bytes are passed over at a backslash that starts no escape:
/// the backslash, and the byte after it unless the line ends there.
pub open spec fn passed_over(src: Seq<u8>, at: int) -> int {
    if at + 1 < src.len() && src[at + 1] != LINE_FEED {
        2
    } else {
        1
    }
}

/// Reads on from index `at` to the closing `quote`, having read `bytes` so
/// far, all escapes sound if `sound`. Reading stops without closing at the
/// end of the line.
pub open spec fn quoted_from(
    src: Seq<u8>,
    at: int,
    quote: u8,
    byte_literal: bool,
    sound: bool,
    bytes: Seq<u8>,
) -> QuotedView
    decreases src.len() - at,
{
    if at < 0 || at >= src.len() || src[at] == LINE_FEED {
        QuotedView { end: at, closed: false, sound, bytes }
    } else if src[at] == quote {
        QuotedView { end: at + 1, closed: true, sound, bytes }
    } else if src[at] == '\\' as u8 {
        match escape_at(src, at, byte_literal) {
            Some((b, n)) => quoted_from(src, at + n, quote, byte_literal, sound, bytes.push(b)),
            None => quoted_from(src, at + passed_over(src, at), quote, byte_literal, false, bytes),
        }
    } else {
        quoted_from(src, at + 1, quote, byte_literal, sound, bytes.push(src[at]))
    }
}

/// What stands between the quotes of the literal whose opening quote is at
/// index `open`.
pub open spec fn quoted_at(src: Seq<u8>, open: int, byte_literal: bool) -> QuotedView {
    quoted_from(src, open + 1, src[open], byte_literal, true, Seq::empty())
}

/// The index of the opening quote of the literal at index `at`: a literal
/// of bytes has `b` before it.
pub open spec fn quote_index(at: int, byte_literal: bool) -> int {
    if byte_literal {
        at + 1
    } else {
        at
    }
}

/// The string literal that starts at index `at`.
pub open spec fn string_at(src: Seq<u8>, at: int, byte_literal: bool) -> Piece {
    let read = quoted_at(src, quote_index(at, byte_literal), byte_literal);
    Piece {
        end: read.end,
        what: if !read.closed {
            Err(ErrorKind::UnterminatedString)
        } else if !read.sound {
            Err(ErrorKind::InvalidEscapeSequence)
        } else if !byte_literal && !valid_utf8(read.bytes) {
            Err(ErrorKind::InvalidEncoding)
        } else {
            Ok(KindView::Literal(LiteralView::Str(read.bytes, byte_literal)))
        },
    }
}

/// The character literal that starts at index `at`. A literal of bytes
/// holds one byte; any other holds the UTF-8 encoding of one character.
pub open spec fn char_at(src: Seq<u8>, at: int, byte_literal: bool) -> Piece {
    let read = quoted_at(src, quote_index(at, byte_literal), byte_literal);
    Piece {
        end: read.end,
        what: if !read.closed {
            Err(ErrorKind::UnterminatedString)
        } else if !read.sound {
            Err(ErrorKind::InvalidEscapeSequence)
        } else if byte_literal {
            if read.bytes.len() == 1 {
                Ok(KindView::Literal(LiteralView::Char(read.bytes[0] as u32, true)))
            } else {
                Err(ErrorKind::InvalidCharLiteralLength)
            }
        } else if valid_utf8(read.bytes) && decode_utf8(read.bytes).len() == 1 {
            Ok(KindView::Literal(LiteralView::Char(decode_utf8(read.bytes)[0] as u32, false)))
        } else {
            Err(ErrorKind::InvalidCharLiteralLength)
        },
    }
}

/// Whether `count` bytes `#` stand from index `at` on.
pub open spec fn hashes_at(src: Seq<u8>, at: int, count: int) -> bool
    decreases count,
{
    count <= 0 || (0 <= at < src.len() && src[at] == '#' as u8 && hashes_at(src, at + 1, count - 1))
}

/// The index of the first `"` at `from` or later that `hashes` bytes `#`
/// follow, or the length of `src` if there is none.
pub open spec fn raw_close(src: Seq<u8>, from: int, hashes: int) -> int
    decreases src.len() - from,
{
    if from < 0 || from >= src.len() {
        src.len() as int
    } else if src[from] == '"' as u8 && hashes_at(src, from + 1, hashes) {
        from
    } else {
        raw_close(src, from + 1, hashes)
    }
}

/// Whether a raw string opens at index `at`: `r`, any number of `#`, `"`.
pub open spec fn raw_opens(src: Seq<u8>, at: int) -> bool {
    &&& 0 <= at < src.len()
    &&& src[at] == 'r' as u8
    &&& run_end(src, at + 1, Class::Hash) < src.len()
    &&& src[run_end(src, at + 1, Class::Hash)] == '"' as u8
}

/// The raw string that starts at index `at`.
pub open spec fn raw_at(src: Seq<u8>, at: int, byte_literal: bool) -> Piece {
    let open = run_end(src, quote_index(at, byte_literal) + 1, Class::Hash);
    let hashes = open - (quote_index(at, byte_literal) + 1);
    let close = raw_close(src, open + 1, hashes);
    if close >= src.len() {
        Piece { end: src.len() as int, what: Err(ErrorKind::UnterminatedRawString) }
    } else {
        Piece {
            end: close + 1 + hashes,
            what: if !byte_literal && !valid_utf8(src.subrange(open + 1, close)) {
                Err(ErrorKind::InvalidEncoding)
            } else {
                Ok(KindView::Literal(LiteralView::RawStr(src.subrange(open + 1, close), byte_literal)))
            },
        }
    }
}

/// Reading between quotes never leaves the buffer, and moves on.
pub proof fn lemma_quoted_from(
    src: Seq<u8>,
    at: int,
    quote: u8,
    byte_literal: bool,
    sound: bool,
    bytes: Seq<u8>,
)
    requires
        0 <= at <= src.len(),
    ensures
        at <= quoted_from(src, at, quote, byte_literal, sound, bytes).end <= src.len(),
    decreases src.len() - at,
{
    if at < src.len() && src[at] != LINE_FEED && src[at] != quote {
        if src[at] == '\\' as u8 {
            match escape_at(src, at, byte_literal) {
                Some((b, n)) => lemma_quoted_from(src, at + n, quote, byte_literal, sound, bytes.push(b)),
                None => lemma_quoted_from(
                    src,
                    at + passed_over(src, at),
                    quote,
                    byte_literal,
                    false,
                    bytes,
                ),
            }
        } else {
            lemma_quoted_from(src, at + 1, quote, byte_literal, sound, bytes.push(src[at]));
        }
    }
}

/// A string or character literal holds its opening quote and ends within
/// the buffer.
pub proof fn lemma_quoted_at(src: Seq<u8>, open: int, byte_literal: bool)
    requires
        0 <= open < src.len(),
    ensures
        open < quoted_at(src, open, byte_literal).end <= src.len(),
{
    lemma_quoted_from(src, open + 1, src[open], byte_literal, true, Seq::empty());
}

/// The hashes that close a raw string lie within the buffer.
pub proof fn lemma_hashes_at(src: Seq<u8>, at: int, count: int)
    requires
        0 <= at <= src.len(),
        hashes_at(src, at, count),
    ensures
        at + count <= src.len(),
    decreases count,
{
    if count > 0 {
        lemma_hashes_at(src, at + 1, count - 1);
    }
}

/// Where a raw string closes, a quote stands and the hashes follow it.
pub proof fn lemma_raw_close(src: Seq<u8>, from: int, hashes: int)
    requires
        0 <= from <= src.len(),
        0 <= hashes,
    ensures
        from <= raw_close(src, from, hashes) <= src.len(),
        raw_close(src, from, hashes) < src.len() ==> raw_close(src, from, hashes) + 1 + hashes
            <= src.len(),
    decreases src.len() - from,
{
    if from < src.len() {
        if src[from] == '"' as u8 && hashes_at(src, from + 1, hashes) {
            lemma_hashes_at(src, from + 1, hashes);
        } else {
            lemma_raw_close(src, from + 1, hashes);
        }
    }
}

/// A raw string holds its opening mark and ends within the buffer.
pub proof fn lemma_raw_at(src: Seq<u8>, at: int, byte_literal: bool)
    requires
        0 <= at,
        raw_opens(src, quote_index(at, byte_literal)),
    ensures
        at < raw_at(src, at, byte_literal).end <= src.len(),
{
    let start = quote_index(at, byte_literal);
    lemma_run_end(src, start + 1, Class::Hash);
    let open = run_end(src, start + 1, Class::Hash);
    lemma_raw_close(src, open + 1, open - (start + 1));
}

/// Reads the escape sequence at index `at`, where a backslash stands.
fn scan_escape(src: &[u8], at: usize, byte_literal: bool) -> (out: Option<(u8, usize)>)
    requires
        at < src@.len(),
    ensures
        out matches Some((b, n)) ==> escape_at(src@, at as int, byte_literal) == Some((b, n as int)),
        out is None ==> escape_at(src@, at as int, byte_literal) is None,
{
    let len = src.len();
    if len - at < 2 {
        return None;
    }
    match src[at + 1] as char {
        'n' => Some((0x0Au8, 2usize)),
        'r' => Some((0x0Du8, 2usize)),
        't' => Some((0x09u8, 2usize)),
        '0' => Some((0x00u8, 2usize)),
        '\\' => Some((0x5Cu8, 2usize)),
        '\'' => Some((0x27u8, 2usize)),
        '"' => Some((0x22u8, 2usize)),
        'x' => {
            if len - at < 4 {
                return None;
            }
            let high = digit_of(src[at + 2]);
            let low = digit_of(src[at + 3]);
            let limit: u8 = if byte_literal {
                16
            } else {
                8
            };
            if high < limit && low < 16 {
                Some((high * 16 + low, 4usize))
            } else {
                None
            }
        },
        _ => None,
    }
}

/// Reads from index `from`, just after an opening quote, to the closing
/// `quote`.
fn scan_quoted(src: &[u8], from: usize, quote: u8, byte_literal: bool) -> (out: Quoted)
    requires
        from <= src@.len(),
    ensures
        out@ == quoted_from(src@, from as int, quote, byte_literal, true, Seq::empty()),
        from <= out.end <= src@.len(),
{
    let len = src.len();
    let mut at: usize = from;
    let mut sound = true;
    let mut bytes: Vec<u8> = Vec::new();
    loop
        invariant
            len == src@.len(),
            from <= at <= len,
            quoted_from(src@, from as int, quote, byte_literal, true, Seq::empty()) == quoted_from(
                src@,
                at as int,
                quote,
                byte_literal,
                sound,
                bytes@,
            ),
        decreases len - at,
    {
        if at >= len || src[at] == LINE_FEED {
            return Quoted { end: at, closed: false, sound, bytes };
        }
        let b = src[at];
        if b == quote {
            return Quoted { end: at + 1, closed: true, sound, bytes };
        }
        if b == '\\' as u8 {
            match scan_escape(src, at, byte_literal) {
                Some((value, n)) => {
                    bytes.push(value);
                    at += n;
                },
                None => {
                    sound = false;
                    at += if len - at >= 2 && src[at + 1] != LINE_FEED {
                        2
                    } else {
                        1
                    };
                },
            }
        } else {
            bytes.push(b);
            at += 1;
        }
    }
}

/// Reads the string literal that starts at index `at`.
pub fn scan_string(src: &[u8], at: usize, byte_literal: bool) -> (out: Scan)
    requires
        quote_index(at as int, byte_literal) < src@.len(),
    ensures
        out@ == string_at(src@, at as int, byte_literal),
        at < out.end <= src@.len(),
{
    proof {
        assert(src.len() == src@.len());
    }
    let open: usize = if byte_literal {
        at + 1
    } else {
        at
    };
    let read = scan_quoted(src, open + 1, src[open], byte_literal);
    let what = if !read.closed {
        Err(ErrorKind::UnterminatedString)
    } else if !read.sound {
        Err(ErrorKind::InvalidEscapeSequence)
    } else if !byte_literal && read_text(read.bytes.as_slice()).is_none() {
        Err(ErrorKind::InvalidEncoding)
    } else {
        Ok(Kind::Literal(LiteralKind::Str(read.bytes, byte_literal)))
    };
    Scan { end: read.end, what }
}

/// Reads the character literal that starts at index `at`.
pub fn scan_char(src: &[u8], at: usize, byte_literal: bool) -> (out: Scan)
    requires
        quote_index(at as int, byte_literal) < src@.len(),
    ensures
        out@ == char_at(src@, at as int, byte_literal),
        at < out.end <= src@.len(),
{
    proof {
        assert(src.len() == src@.len());
    }
    let open: usize = if byte_literal {
        at + 1
    } else {
        at
    };
    let read = scan_quoted(src, open + 1, src[open], byte_literal);
    let what = if !read.closed {
        Err(ErrorKind::UnterminatedString)
    } else if !read.sound {
        Err(ErrorKind::InvalidEscapeSequence)
    } else if byte_literal {
        if read.bytes.len() == 1 {
            Ok(Kind::Literal(LiteralKind::Char(read.bytes[0] as u32, true)))
        } else {
            Err(ErrorKind::InvalidCharLiteralLength)
        }
    } else {
        match read_text(read.bytes.as_slice()) {
            Some(text) => {
                if text.unicode_len() == 1 {
                    Ok(Kind::Literal(LiteralKind::Char(text.get_char(0) as u32, false)))
                } else {
                    Err(ErrorKind::InvalidCharLiteralLength)
                }
            },
            None => Err(ErrorKind::InvalidCharLiteralLength),
        }
    };
    Scan { end: read.end, what }
}

/// Tells whether `count` bytes `#` stand from index `at` on.
fn check_hashes(src: &[u8], at: usize, count: usize) -> (found: bool)
    requires
        at <= src@.len(),
    ensures
        found == hashes_at(src@, at as int, count as int),
{
    let len = src.len();
    let mut seen: usize = 0;
    while seen < count
        invariant
            len == src@.len(),
            seen <= count,
            at + seen <= len,
            hashes_at(src@, at as int, count as int) == hashes_at(src@, at + seen, count - seen),
        decreases count - seen,
    {
        if at + seen >= len || src[at + seen] != '#' as u8 {
            return false;
        }
        seen += 1;
    }
    true
}

/// Finds the first `"` at `from` or later that `hashes` bytes `#` follow.
fn find_raw_close(src: &[u8], from: usize, hashes: usize) -> (close: usize)
    requires
        from <= src@.len(),
    ensures
        close == raw_close(src@, from as int, hashes as int),
{
    let len = src.len();
    let mut at: usize = from;
    while at < len
        invariant
            len == src@.len(),
            from <= at <= len,
            raw_close(src@, from as int, hashes as int) == raw_close(src@, at as int, hashes as int),
        decreases len - at,
    {
        if src[at] == '"' as u8 && check_hashes(src, at + 1, hashes) {
            return at;
        }
        at += 1;
    }
    len
}

/// Tells whether a raw string opens at index `at`.
pub fn check_raw_opens(src: &[u8], at: usize) -> (opens: bool)
    ensures
        opens == raw_opens(src@, at as int),
{
    let len = src.len();
    if at < len && src[at] == 'r' as u8 {
        let open = scan_run(src, at + 1, Class::Hash);
        open < len && src[open] == '"' as u8
    } else {
        false
    }
}

/// Reads the raw string that starts at index `at`.
pub fn scan_raw(src: &[u8], at: usize, byte_literal: bool) -> (out: Scan)
    requires
        raw_opens(src@, quote_index(at as int, byte_literal)),
    ensures
        out@ == raw_at(src@, at as int, byte_literal),
        at < out.end <= src@.len(),
{
    let len = src.len();
    let start: usize = if byte_literal {
        at + 1
    } else {
        at
    };
    let open = scan_run(src, start + 1, Class::Hash);
    let hashes = open - (start + 1);
    let close = find_raw_close(src, open + 1, hashes);
    proof {
        lemma_raw_close(src@, open + 1, hashes as int);
    }
    if close >= len {
        Scan { end: len, what: Err(ErrorKind::UnterminatedRawString) }
    } else {
        let end = close + 1 + hashes;
        let body = copy_range(src, open + 1, close);
        if !byte_literal && read_text(body.as_slice()).is_none() {
            Scan { end, what: Err(ErrorKind::InvalidEncoding) }
        } else {
            Scan { end, what: Ok(Kind::Literal(LiteralKind::RawStr(body, byte_literal))) }
        }
    }
}

} // verus!
