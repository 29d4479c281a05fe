//! Classes of bytes, and runs of bytes of one class.

use vstd::prelude::*;

verus! {

/// The line feed, which ends a line.
pub const LINE_FEED: u8 = 0x0A;

/// A class of bytes.
#[derive(Clone, Copy, Debug, PartialEq, Eq, Structural)]
pub enum Class {
    /// Space, tab and carriage return.
    Blank,
    /// `0` to `9`.
    Digit,
    /// A decimal digit or the separator `_`.
    DigitOrSeparator,
    /// A hexadecimal digit or the separator `_`.
    HexOrSeparator,
    /// A letter, a decimal digit or `_`: what a name is made of.
    Word,
    /// `#`.
    Hash,
    /// Any byte but the line feed.
    InLine,
    /// The bytes `0x80` to `0xBF`, which continue a UTF-8 sequence.
    Continuation,
}

/// Whether `b` is an ASCII letter.
#[verifier::allow_in_spec]
pub fn is_letter(b: u8) -> bool
    returns
        ('a' as u8 <= b && b <= 'z' as u8) || ('A' as u8 <= b && b <= 'Z' as u8),
{
    ('a' as u8 <= b && b <= 'z' as u8) || ('A' as u8 <= b && b <= 'Z' as u8)
}

/// Whether `b` is a decimal digit.
#[verifier::allow_in_spec]
pub fn is_digit(b: u8) -> bool
    returns
        '0' as u8 <= b && b <= '9' as u8,
{
    '0' as u8 <= b && b <= '9' as u8
}

/// Whether `b` is a hexadecimal digit, in either case.
#[verifier::allow_in_spec]
pub fn is_hex_digit(b: u8) -> bool
    returns
        is_digit(b) || ('a' as u8 <= b && b <= 'f' as u8) || ('A' as u8 <= b && b <= 'F' as u8),
{
    is_digit(b) || ('a' as u8 <= b && b <= 'f' as u8) || ('A' as u8 <= b && b <= 'F' as u8)
}

/// Whether a name can start with `b`: a letter or `_`.
#[verifier::allow_in_spec]
pub fn is_word_start(b: u8) -> bool
    returns
        is_letter(b) || b == '_' as u8,
{
    is_letter(b) || b == '_' as u8
}

impl Class {
    /// Whether `b` belongs to the class.
    #[verifier::allow_in_spec]
    pub fn has(self, b: u8) -> bool
        returns
            match self {
                Class::Blank => b == ' ' as u8 || b == '\t' as u8 || b == '\r' as u8,
                Class::Digit => is_digit(b),
                Class::DigitOrSeparator => is_digit(b) || b == '_' as u8,
                Class::HexOrSeparator => is_hex_digit(b) || b == '_' as u8,
                Class::Word => is_letter(b) || is_digit(b) || b == '_' as u8,
                Class::Hash => b == '#' as u8,
                Class::InLine => b != LINE_FEED,
                Class::Continuation => 0x80 <= b && b <= 0xBF,
            },
    {
        match self {
            Class::Blank => b == ' ' as u8 || b == '\t' as u8 || b == '\r' as u8,
            Class::Digit => is_digit(b),
            Class::DigitOrSeparator => is_digit(b) || b == '_' as u8,
            Class::HexOrSeparator => is_hex_digit(b) || b == '_' as u8,
            Class::Word => is_letter(b) || is_digit(b) || b == '_' as u8,
            Class::Hash => b == '#' as u8,
            Class::InLine => b != LINE_FEED,
            Class::Continuation => 0x80 <= b && b <= 0xBF,
        }
    }
}

/// Where the run of bytes of `class` that starts at `from` ends: the first
/// index from `from` on whose byte is not of the class, or the length of
/// `src` if there is none.
pub open spec fn run_end(src: Seq<u8>, from: int, class: Class) -> int
    decreases src.len() - from,
{
    if 0 <= from < src.len() && class.has(src[from]) {
        run_end(src, from + 1, class)
    } else {
        from
    }
}

/// A run lies within the buffer, holds bytes of its class only, and stops
/// at the first byte that is not of the class.
pub proof fn lemma_run_end(src: Seq<u8>, from: int, class: Class)
    requires
        0 <= from <= src.len(),
    ensures
        from <= run_end(src, from, class) <= src.len(),
        forall|i: int| from <= i < run_end(src, from, class) ==> class.has(#[trigger] src[i]),
        run_end(src, from, class) < src.len() ==> !class.has(src[run_end(src, from, class)]),
    decreases src.len() - from,
{
    if from < src.len() && class.has(src[from]) {
        lemma_run_end(src, from + 1, class);
    }
}

/// Finds the end of the run of bytes of `class` that starts at `from`.
pub fn scan_run(src: &[u8], from: usize, class: Class) -> (end: usize)
    requires
        from <= src@.len(),
    ensures
        end == run_end(src@, from as int, class),
        from <= end <= src@.len(),
{
    let mut end: usize = from;
    while end < src.len() && class.has(src[end])
        invariant
            from <= end <= src@.len(),
            run_end(src@, from as int, class) == run_end(src@, end as int, class),
        decreases src@.len() - end,
    {
        end += 1;
    }
    end
}

/// Whether `src` holds the byte `b` at index `at`.
#[verifier::allow_in_spec]
pub fn byte_is(src: &[u8], at: usize, b: u8) -> bool
    returns
        at < src@.len() && src@[at as int] == b,
{
    at < src.len() && src[at] == b
}

} // verus!
