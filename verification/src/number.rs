//! Numbers. A number starts with a decimal digit. After `0x`, `0o` or `0b`
//! it is an integer in base 16, 8 or 2; otherwise it is decimal, and a
//! fraction or an exponent makes it a float. Digits may be set apart with
//! `_`. Letters and digits that follow the number are its type suffix:
//! `u`, `i` or `f`, then decimal digits. The token keeps the digits, without
//! prefix, separators and suffix.

use vstd::prelude::*;
use crate::bytes::{is_digit, lemma_run_end, run_end, scan_run, Class};
use crate::piece::{Piece, Scan};
use crate::token::{ErrorKind, Kind, KindView, LiteralKind, LiteralView};

verus! {

/// The value of a digit, and 16 for a byte that is no digit.
pub open spec fn digit_value(b: u8) -> int {
    if is_digit(b) {
        b - '0' as u8
    } else if 'a' as u8 <= b && b <= 'f' as u8 {
        b - 'a' as u8 + 10
    } else if 'A' as u8 <= b && b <= 'F' as u8 {
        b - 'A' as u8 + 10
    } else {
        16
    }
}

/// The base of the number that starts at index `at`.
pub open spec fn base_at(src: Seq<u8>, at: int) -> u8 {
    if src[at] == '0' as u8 && at + 1 < src.len() {
        match src[at + 1] as char {
            'x' => 16,
            'o' => 8,
            'b' => 2,
            _ => 10,
        }
    } else {
        10
    }
}

/// The bytes of `src` from `from` up to `to`, without the separators.
pub open spec fn strip(src: Seq<u8>, from: int, to: int) -> Seq<u8>
    decreases to - from,
{
    if to <= from {
        Seq::empty()
    } else if src[to - 1] == '_' as u8 {
        strip(src, from, to - 1)
    } else {
        strip(src, from, to - 1).push(src[to - 1])
    }
}

/// Whether `digits` holds at least one digit, and only digits of `base`.
pub open spec fn digits_fit(digits: Seq<u8>, base: u8) -> bool {
    &&& digits.len() > 0
    &&& forall|i: int| 0 <= i < digits.len() ==> digit_value(#[trigger] digits[i]) < base
}

/// Where the fraction ends that starts at index `at`, or `at` itself where
/// none starts: a fraction is `.` and a digit, with the digits and
/// separators that follow.
pub open spec fn fraction_end(src: Seq<u8>, at: int) -> int {
    if at + 1 < src.len() && src[at] == '.' as u8 && is_digit(src[at + 1]) {
        run_end(src, at + 1, Class::DigitOrSeparator)
    } else {
        at
    }
}

/// Where the digits of the exponent start that starts at index `at`: an
/// exponent is `e` or `E`, then `+` or `-` or neither, then a digit.
pub open spec fn exponent_digits(src: Seq<u8>, at: int) -> Option<int> {
    if at < src.len() && (src[at] == 'e' as u8 || src[at] == 'E' as u8) {
        let signed = at + 1 < src.len() && (src[at + 1] == '+' as u8 || src[at + 1] == '-' as u8);
        let digits = if signed {
            at + 2
        } else {
            at + 1
        };
        if digits < src.len() && is_digit(src[digits]) {
            Some(digits)
        } else {
            None
        }
    } else {
        None
    }
}

/// Where the exponent ends that starts at index `at`, or `at` itself where
/// none starts.
pub open spec fn exponent_end(src: Seq<u8>, at: int) -> int {
    match exponent_digits(src, at) {
        Some(digits) => run_end(src, digits, Class::DigitOrSeparator),
        None => at,
    }
}

/// Whether the bytes from `from` up to `to`, which follow a number, are no
/// suffix at all or a type suffix.
pub open spec fn suffix_fits(src: Seq<u8>, from: int, to: int) -> bool {
    ||| from == to
    ||| {
        &&& src[from] == 'u' as u8 || src[from] == 'i' as u8 || src[from] == 'f' as u8
        &&& from + 1 < to
        &&& run_end(src, from + 1, Class::Digit) == to
    }
}

/// The number that starts at index `at`.
pub open spec fn number_at(src: Seq<u8>, at: int) -> Piece {
    let base = base_at(src, at);
    let from = if base == 10 {
        at
    } else {
        at + 2
    };
    let whole_end = run_end(
        src,
        from,
        if base == 16 {
            Class::HexOrSeparator
        } else {
            Class::DigitOrSeparator
        },
    );
    let number_end = if base == 10 {
        exponent_end(src, fraction_end(src, whole_end))
    } else {
        whole_end
    };
    let end = run_end(src, number_end, Class::Word);
    Piece {
        end,
        what: if !digits_fit(strip(src, from, whole_end), base) {
            Err(ErrorKind::InvalidDigitForBase)
        } else if !suffix_fits(src, number_end, end) {
            Err(ErrorKind::MalformedSuffix)
        } else if number_end > whole_end {
            Ok(KindView::Literal(LiteralView::Float(strip(src, from, number_end))))
        } else {
            Ok(KindView::Literal(LiteralView::Int(base, strip(src, from, whole_end))))
        },
    }
}

/// A fraction and an exponent end within the buffer, not before they start.
pub proof fn lemma_number_parts(src: Seq<u8>, at: int)
    requires
        0 <= at <= src.len(),
    ensures
        at <= fraction_end(src, at) <= src.len(),
        at <= exponent_end(src, at) <= src.len(),
{
    if at + 1 < src.len() {
        lemma_run_end(src, at + 1, Class::DigitOrSeparator);
    }
    if let Some(digits) = exponent_digits(src, at) {
        lemma_run_end(src, digits, Class::DigitOrSeparator);
    }
}

/// A number holds its first digit and ends within the buffer.
pub proof fn lemma_number_at(src: Seq<u8>, at: int)
    requires
        0 <= at < src.len(),
        is_digit(src[at]),
    ensures
        at < number_at(src, at).end <= src.len(),
{
    let base = base_at(src, at);
    let from = if base == 10 {
        at
    } else {
        at + 2
    };
    let class = if base == 16 {
        Class::HexOrSeparator
    } else {
        Class::DigitOrSeparator
    };
    let whole_end = run_end(src, from, class);
    lemma_run_end(src, from, class);
    lemma_run_end(src, at + 1, Class::DigitOrSeparator);
    lemma_number_parts(src, whole_end);
    lemma_number_parts(src, fraction_end(src, whole_end));
    let number_end = if base == 10 {
        exponent_end(src, fraction_end(src, whole_end))
    } else {
        whole_end
    };
    lemma_run_end(src, number_end, Class::Word);
}

/// Gives the value of a digit, and 16 for a byte that is no digit.
pub fn digit_of(b: u8) -> (value: u8)
    ensures
        value == digit_value(b),
{
    if is_digit(b) {
        b - '0' as u8
    } else if 'a' as u8 <= b && b <= 'f' as u8 {
        b - 'a' as u8 + 10
    } else if 'A' as u8 <= b && b <= 'F' as u8 {
        b - 'A' as u8 + 10
    } else {
        16
    }
}

/// Copies the bytes of `src` from `from` up to `to`, without the separators.
fn strip_separators(src: &[u8], from: usize, to: usize) -> (out: Vec<u8>)
    requires
        from <= to <= src@.len(),
    ensures
        out@ == strip(src@, from as int, to as int),
{
    let mut out: Vec<u8> = Vec::new();
    let mut at: usize = from;
    while at < to
        invariant
            from <= at <= to <= src@.len(),
            out@ == strip(src@, from as int, at as int),
        decreases to - at,
    {
        if src[at] != '_' as u8 {
            out.push(src[at]);
        }
        at += 1;
    }
    out
}

/// Tells whether `digits` holds at least one digit, and only digits of
/// `base`.
fn check_digits(digits: &Vec<u8>, base: u8) -> (fit: bool)
    ensures
        fit == digits_fit(digits@, base),
{
    let mut at: usize = 0;
    while at < digits.len()
        invariant
            at <= digits@.len(),
            forall|i: int| 0 <= i < at ==> digit_value(#[trigger] digits@[i]) < base,
        decreases digits@.len() - at,
    {
        if digit_of(digits[at]) >= base {
            return false;
        }
        at += 1;
    }
    digits.len() > 0
}

/// Finds the end of the fraction that starts at index `at`.
fn scan_fraction(src: &[u8], at: usize) -> (end: usize)
    requires
        at <= src@.len(),
    ensures
        end == fraction_end(src@, at as int),
        at <= end <= src@.len(),
{
    let len = src.len();
    if len - at >= 2 && src[at] == '.' as u8 && is_digit(src[at + 1]) {
        scan_run(src, at + 1, Class::DigitOrSeparator)
    } else {
        at
    }
}

/// Finds the end of the exponent that starts at index `at`.
fn scan_exponent(src: &[u8], at: usize) -> (end: usize)
    requires
        at <= src@.len(),
    ensures
        end == exponent_end(src@, at as int),
        at <= end <= src@.len(),
{
    let len = src.len();
    if at < len && (src[at] == 'e' as u8 || src[at] == 'E' as u8) {
        let signed = len - at >= 2 && (src[at + 1] == '+' as u8 || src[at + 1] == '-' as u8);
        let digits: usize = if signed {
            at + 2
        } else {
            at + 1
        };
        if digits < len && is_digit(src[digits]) {
            scan_run(src, digits, Class::DigitOrSeparator)
        } else {
            at
        }
    } else {
        at
    }
}

/// Tells whether the bytes from `from` up to `to` are no suffix at all or
/// a type suffix.
fn check_suffix(src: &[u8], from: usize, to: usize) -> (fits: bool)
    requires
        from <= to <= src@.len(),
    ensures
        fits == suffix_fits(src@, from as int, to as int),
{
    if from == to {
        return true;
    }
    let b = src[from];
    (b == 'u' as u8 || b == 'i' as u8 || b == 'f' as u8) && to - from >= 2 && scan_run(
        src,
        from + 1,
        Class::Digit,
    ) == to
}

/// Reads the number that starts at index `at`.
pub fn scan_number(src: &[u8], at: usize) -> (out: Scan)
    requires
        at < src@.len(),
        is_digit(src@[at as int]),
    ensures
        out@ == number_at(src@, at as int),
        at < out.end <= src@.len(),
{
    let len = src.len();
    let base: u8 = if src[at] == '0' as u8 && len - at >= 2 {
        match src[at + 1] as char {
            'x' => 16,
            'o' => 8,
            'b' => 2,
            _ => 10,
        }
    } else {
        10
    };
    let from: usize = if base == 10 {
        at
    } else {
        at + 2
    };
    let whole_end = scan_run(
        src,
        from,
        if base == 16 {
            Class::HexOrSeparator
        } else {
            Class::DigitOrSeparator
        },
    );
    let number_end = if base == 10 {
        scan_exponent(src, scan_fraction(src, whole_end))
    } else {
        whole_end
    };
    let end = scan_run(src, number_end, Class::Word);
    proof {
        lemma_run_end(src@, at + 1, Class::DigitOrSeparator);
    }
    let whole = strip_separators(src, from, whole_end);
    let what = if !check_digits(&whole, base) {
        Err(ErrorKind::InvalidDigitForBase)
    } else if !check_suffix(src, number_end, end) {
        Err(ErrorKind::MalformedSuffix)
    } else if number_end > whole_end {
        Ok(Kind::Literal(LiteralKind::Float(strip_separators(src, from, number_end))))
    } else {
        Ok(Kind::Literal(LiteralKind::Int(base, whole)))
    };
    Scan { end, what }
}

} // verus!
