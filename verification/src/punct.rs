//! Punctuation marks and operators: from bytes to kinds, the longest
//! mark first.

use vstd::prelude::*;
use crate::token::Kind;

verus! {

/// The punctuation kind that is written as `text`, if there is one.
pub open spec fn punct_of(text: Seq<u8>) -> Option<Kind> {
    if exists|k: Kind| k.is_punct() && k.text() == text {
        Some(choose|k: Kind| k.is_punct() && k.text() == text)
    } else {
        None
    }
}

/// Whether the bytes of `text` stand in `src` from index `at` on.
pub open spec fn holds_at(src: Seq<u8>, at: int, text: Seq<u8>) -> bool {
    0 <= at && at + text.len() <= src.len() && src.subrange(at, at + text.len()) == text
}

/// The punctuation mark of `len` bytes that stands in `src` at `at`, if any.
pub open spec fn punct_of_len(src: Seq<u8>, at: int, len: int) -> Option<Kind> {
    if 0 <= at && at + len <= src.len() {
        punct_of(src.subrange(at, at + len))
    } else {
        None
    }
}

/// The punctuation mark that is read at index `at` of `src`, with its
/// length: a mark of three bytes if one stands there, else one of two
/// bytes, else one of one byte.
pub open spec fn punct_at(src: Seq<u8>, at: int) -> Option<(Kind, int)> {
    if punct_of_len(src, at, 3) is Some {
        Some((punct_of_len(src, at, 3)->0, 3))
    } else if punct_of_len(src, at, 2) is Some {
        Some((punct_of_len(src, at, 2)->0, 2))
    } else if punct_of_len(src, at, 1) is Some {
        Some((punct_of_len(src, at, 1)->0, 1))
    } else {
        None
    }
}

/// A punctuation mark has one, two or three bytes.
pub proof fn lemma_text_len(k: Kind)
    requires
        k.is_punct(),
    ensures
        1 <= k.text().len() <= 3,
{
}

/// No two punctuation kinds are written alike.
pub proof fn lemma_text_injective(j: Kind, k: Kind)
    requires
        j.is_punct(),
        k.is_punct(),
        j.text() == k.text(),
    ensures
        j == k,
{
    let t = k.text();
    match j {
        Kind::LParen => {
            assert(t.len() == 1);
            assert(t[0] == '(' as u8);
        },
        Kind::RParen => {
            assert(t.len() == 1);
            assert(t[0] == ')' as u8);
        },
        Kind::LBrace => {
            assert(t.len() == 1);
            assert(t[0] == '{' as u8);
        },
        Kind::RBrace => {
            assert(t.len() == 1);
            assert(t[0] == '}' as u8);
        },
        Kind::LBracket => {
            assert(t.len() == 1);
            assert(t[0] == '[' as u8);
        },
        Kind::RBracket => {
            assert(t.len() == 1);
            assert(t[0] == ']' as u8);
        },
        Kind::Comma => {
            assert(t.len() == 1);
            assert(t[0] == ',' as u8);
        },
        Kind::Period => {
            assert(t.len() == 1);
            assert(t[0] == '.' as u8);
        },
        Kind::Minus => {
            assert(t.len() == 1);
            assert(t[0] == '-' as u8);
        },
        Kind::Plus => {
            assert(t.len() == 1);
            assert(t[0] == '+' as u8);
        },
        Kind::Slash => {
            assert(t.len() == 1);
            assert(t[0] == '/' as u8);
        },
        Kind::Star => {
            assert(t.len() == 1);
            assert(t[0] == '*' as u8);
        },
        Kind::Percent => {
            assert(t.len() == 1);
            assert(t[0] == '%' as u8);
        },
        Kind::Amper => {
            assert(t.len() == 1);
            assert(t[0] == '&' as u8);
        },
        Kind::VBar => {
            assert(t.len() == 1);
            assert(t[0] == '|' as u8);
        },
        Kind::Colon => {
            assert(t.len() == 1);
            assert(t[0] == ':' as u8);
        },
        Kind::SemiColon => {
            assert(t.len() == 1);
            assert(t[0] == ';' as u8);
        },
        Kind::Assign => {
            assert(t.len() == 1);
            assert(t[0] == '=' as u8);
        },
        Kind::Not => {
            assert(t.len() == 1);
            assert(t[0] == '!' as u8);
        },
        Kind::Less => {
            assert(t.len() == 1);
            assert(t[0] == '<' as u8);
        },
        Kind::Greater => {
            assert(t.len() == 1);
            assert(t[0] == '>' as u8);
        },
        Kind::Elvis => {
            assert(t.len() == 1);
            assert(t[0] == '?' as u8);
        },
        Kind::Caret => {
            assert(t.len() == 1);
            assert(t[0] == '^' as u8);
        },
        Kind::At => {
            assert(t.len() == 1);
            assert(t[0] == '@' as u8);
        },
        Kind::Dollar => {
            assert(t.len() == 1);
            assert(t[0] == '$' as u8);
        },
        Kind::Tilde => {
            assert(t.len() == 1);
            assert(t[0] == '~' as u8);
        },
        Kind::Increment => {
            assert(t.len() == 2);
            assert(t[0] == '+' as u8);
            assert(t[1] == '+' as u8);
        },
        Kind::Decrement => {
            assert(t.len() == 2);
            assert(t[0] == '-' as u8);
            assert(t[1] == '-' as u8);
        },
        Kind::AddAssign => {
            assert(t.len() == 2);
            assert(t[0] == '+' as u8);
            assert(t[1] == '=' as u8);
        },
        Kind::SubAssign => {
            assert(t.len() == 2);
            assert(t[0] == '-' as u8);
            assert(t[1] == '=' as u8);
        },
        Kind::MulAssign => {
            assert(t.len() == 2);
            assert(t[0] == '*' as u8);
            assert(t[1] == '=' as u8);
        },
        Kind::DivAssign => {
            assert(t.len() == 2);
            assert(t[0] == '/' as u8);
            assert(t[1] == '=' as u8);
        },
        Kind::ModAssign => {
            assert(t.len() == 2);
            assert(t[0] == '%' as u8);
            assert(t[1] == '=' as u8);
        },
        Kind::AndAssign => {
            assert(t.len() == 2);
            assert(t[0] == '&' as u8);
            assert(t[1] == '=' as u8);
        },
        Kind::OrAssign => {
            assert(t.len() == 2);
            assert(t[0] == '|' as u8);
            assert(t[1] == '=' as u8);
        },
        Kind::CaretAssign => {
            assert(t.len() == 2);
            assert(t[0] == '^' as u8);
            assert(t[1] == '=' as u8);
        },
        Kind::CoalesceAssign => {
            assert(t.len() == 2);
            assert(t[0] == '?' as u8);
            assert(t[1] == '=' as u8);
        },
        Kind::Coalesce => {
            assert(t.len() == 2);
            assert(t[0] == '?' as u8);
            assert(t[1] == '?' as u8);
        },
        Kind::Or => {
            assert(t.len() == 2);
            assert(t[0] == '|' as u8);
            assert(t[1] == '|' as u8);
        },
        Kind::And => {
            assert(t.len() == 2);
            assert(t[0] == '&' as u8);
            assert(t[1] == '&' as u8);
        },
        Kind::CoalesceAnd => {
            assert(t.len() == 2);
            assert(t[0] == '?' as u8);
            assert(t[1] == ':' as u8);
        },
        Kind::Equal => {
            assert(t.len() == 2);
            assert(t[0] == '=' as u8);
            assert(t[1] == '=' as u8);
        },
        Kind::NotEqual => {
            assert(t.len() == 2);
            assert(t[0] == '!' as u8);
            assert(t[1] == '=' as u8);
        },
        Kind::LessEqual => {
            assert(t.len() == 2);
            assert(t[0] == '<' as u8);
            assert(t[1] == '=' as u8);
        },
        Kind::GreaterEqual => {
            assert(t.len() == 2);
            assert(t[0] == '>' as u8);
            assert(t[1] == '=' as u8);
        },
        Kind::LShift => {
            assert(t.len() == 2);
            assert(t[0] == '<' as u8);
            assert(t[1] == '<' as u8);
        },
        Kind::RShift => {
            assert(t.len() == 2);
            assert(t[0] == '>' as u8);
            assert(t[1] == '>' as u8);
        },
        Kind::Pipe => {
            assert(t.len() == 2);
            assert(t[0] == '|' as u8);
            assert(t[1] == '>' as u8);
        },
        Kind::Attribute => {
            assert(t.len() == 2);
            assert(t[0] == '#' as u8);
            assert(t[1] == '[' as u8);
        },
        Kind::Arrow => {
            assert(t.len() == 2);
            assert(t[0] == '-' as u8);
            assert(t[1] == '>' as u8);
        },
        Kind::DoubleArrow => {
            assert(t.len() == 2);
            assert(t[0] == '=' as u8);
            assert(t[1] == '>' as u8);
        },
        Kind::DoubleColon => {
            assert(t.len() == 2);
            assert(t[0] == ':' as u8);
            assert(t[1] == ':' as u8);
        },
        Kind::Range => {
            assert(t.len() == 2);
            assert(t[0] == '.' as u8);
            assert(t[1] == '.' as u8);
        },
        Kind::ElvisDot => {
            assert(t.len() == 2);
            assert(t[0] == '?' as u8);
            assert(t[1] == '.' as u8);
        },
        Kind::SpaceShip => {
            assert(t.len() == 3);
            assert(t[0] == '<' as u8);
            assert(t[1] == '=' as u8);
            assert(t[2] == '>' as u8);
        },
        Kind::LShiftAssign => {
            assert(t.len() == 3);
            assert(t[0] == '<' as u8);
            assert(t[1] == '<' as u8);
            assert(t[2] == '=' as u8);
        },
        Kind::RShiftAssign => {
            assert(t.len() == 3);
            assert(t[0] == '>' as u8);
            assert(t[1] == '>' as u8);
            assert(t[2] == '=' as u8);
        },
        Kind::RangeInclusive => {
            assert(t.len() == 3);
            assert(t[0] == '.' as u8);
            assert(t[1] == '.' as u8);
            assert(t[2] == '=' as u8);
        },
        _ => {},
    }
}

/// The text of a punctuation kind is read back as that kind.
pub proof fn lemma_punct_of_text(k: Kind)
    requires
        k.is_punct(),
    ensures
        punct_of(k.text()) == Some(k),
{
    let found = choose|j: Kind| j.is_punct() && j.text() == k.text();
    lemma_text_injective(found, k);
}

/// What is read as a punctuation kind is the text of that kind.
pub proof fn lemma_punct_of_some(text: Seq<u8>)
    requires
        punct_of(text) is Some,
    ensures
        punct_of(text)->0.is_punct(),
        punct_of(text)->0.text() == text,
{
}

/// The punctuation kind that is written with the one byte given.
pub fn punct1(a: u8) -> (out: Option<Kind>)
    ensures
        out == punct_of(seq![a]),
{
    match a as char {
        '(' => {
            proof {
                lemma_punct_of_text(Kind::LParen);
                assert(Kind::LParen.text() =~= seq![a]);
            }
            Some(Kind::LParen)
        },
        ')' => {
            proof {
                lemma_punct_of_text(Kind::RParen);
                assert(Kind::RParen.text() =~= seq![a]);
            }
            Some(Kind::RParen)
        },
        '{' => {
            proof {
                lemma_punct_of_text(Kind::LBrace);
                assert(Kind::LBrace.text() =~= seq![a]);
            }
            Some(Kind::LBrace)
        },
        '}' => {
            proof {
                lemma_punct_of_text(Kind::RBrace);
                assert(Kind::RBrace.text() =~= seq![a]);
            }
            Some(Kind::RBrace)
        },
        '[' => {
            proof {
                lemma_punct_of_text(Kind::LBracket);
                assert(Kind::LBracket.text() =~= seq![a]);
            }
            Some(Kind::LBracket)
        },
        ']' => {
            proof {
                lemma_punct_of_text(Kind::RBracket);
                assert(Kind::RBracket.text() =~= seq![a]);
            }
            Some(Kind::RBracket)
        },
        ',' => {
            proof {
                lemma_punct_of_text(Kind::Comma);
                assert(Kind::Comma.text() =~= seq![a]);
            }
            Some(Kind::Comma)
        },
        '.' => {
            proof {
                lemma_punct_of_text(Kind::Period);
                assert(Kind::Period.text() =~= seq![a]);
            }
            Some(Kind::Period)
        },
        '-' => {
            proof {
                lemma_punct_of_text(Kind::Minus);
                assert(Kind::Minus.text() =~= seq![a]);
            }
            Some(Kind::Minus)
        },
        '+' => {
            proof {
                lemma_punct_of_text(Kind::Plus);
                assert(Kind::Plus.text() =~= seq![a]);
            }
            Some(Kind::Plus)
        },
        '/' => {
            proof {
                lemma_punct_of_text(Kind::Slash);
                assert(Kind::Slash.text() =~= seq![a]);
            }
            Some(Kind::Slash)
        },
        '*' => {
            proof {
                lemma_punct_of_text(Kind::Star);
                assert(Kind::Star.text() =~= seq![a]);
            }
            Some(Kind::Star)
        },
        '%' => {
            proof {
                lemma_punct_of_text(Kind::Percent);
                assert(Kind::Percent.text() =~= seq![a]);
            }
            Some(Kind::Percent)
        },
        '&' => {
            proof {
                lemma_punct_of_text(Kind::Amper);
                assert(Kind::Amper.text() =~= seq![a]);
            }
            Some(Kind::Amper)
        },
        '|' => {
            proof {
                lemma_punct_of_text(Kind::VBar);
                assert(Kind::VBar.text() =~= seq![a]);
            }
            Some(Kind::VBar)
        },
        ':' => {
            proof {
                lemma_punct_of_text(Kind::Colon);
                assert(Kind::Colon.text() =~= seq![a]);
            }
            Some(Kind::Colon)
        },
        ';' => {
            proof {
                lemma_punct_of_text(Kind::SemiColon);
                assert(Kind::SemiColon.text() =~= seq![a]);
            }
            Some(Kind::SemiColon)
        },
        '=' => {
            proof {
                lemma_punct_of_text(Kind::Assign);
                assert(Kind::Assign.text() =~= seq![a]);
            }
            Some(Kind::Assign)
        },
        '!' => {
            proof {
                lemma_punct_of_text(Kind::Not);
                assert(Kind::Not.text() =~= seq![a]);
            }
            Some(Kind::Not)
        },
        '<' => {
            proof {
                lemma_punct_of_text(Kind::Less);
                assert(Kind::Less.text() =~= seq![a]);
            }
            Some(Kind::Less)
        },
        '>' => {
            proof {
                lemma_punct_of_text(Kind::Greater);
                assert(Kind::Greater.text() =~= seq![a]);
            }
            Some(Kind::Greater)
        },
        '?' => {
            proof {
                lemma_punct_of_text(Kind::Elvis);
                assert(Kind::Elvis.text() =~= seq![a]);
            }
            Some(Kind::Elvis)
        },
        '^' => {
            proof {
                lemma_punct_of_text(Kind::Caret);
                assert(Kind::Caret.text() =~= seq![a]);
            }
            Some(Kind::Caret)
        },
        '@' => {
            proof {
                lemma_punct_of_text(Kind::At);
                assert(Kind::At.text() =~= seq![a]);
            }
            Some(Kind::At)
        },
        '$' => {
            proof {
                lemma_punct_of_text(Kind::Dollar);
                assert(Kind::Dollar.text() =~= seq![a]);
            }
            Some(Kind::Dollar)
        },
        '~' => {
            proof {
                lemma_punct_of_text(Kind::Tilde);
                assert(Kind::Tilde.text() =~= seq![a]);
            }
            Some(Kind::Tilde)
        },
        _ => {
            proof {
                if punct_of(seq![a]) is Some {
                    let k = punct_of(seq![a])->0;
                    lemma_punct_of_some(seq![a]);
                    assert(k.text().len() == 1);
                    assert(k.text()[0] == a);
                    assert(false);
                }
            }
            None
        },
    }
}

/// The punctuation kind that is written with the two bytes given.
pub fn punct2(a: u8, b: u8) -> (out: Option<Kind>)
    ensures
        out == punct_of(seq![a, b]),
{
    match (a as char, b as char) {
        ('+', '+') => {
            proof {
                lemma_punct_of_text(Kind::Increment);
                assert(Kind::Increment.text() =~= seq![a, b]);
            }
            Some(Kind::Increment)
        },
        ('-', '-') => {
            proof {
                lemma_punct_of_text(Kind::Decrement);
                assert(Kind::Decrement.text() =~= seq![a, b]);
            }
            Some(Kind::Decrement)
        },
        ('+', '=') => {
            proof {
                lemma_punct_of_text(Kind::AddAssign);
                assert(Kind::AddAssign.text() =~= seq![a, b]);
            }
            Some(Kind::AddAssign)
        },
        ('-', '=') => {
            proof {
                lemma_punct_of_text(Kind::SubAssign);
                assert(Kind::SubAssign.text() =~= seq![a, b]);
            }
            Some(Kind::SubAssign)
        },
        ('*', '=') => {
            proof {
                lemma_punct_of_text(Kind::MulAssign);
                assert(Kind::MulAssign.text() =~= seq![a, b]);
            }
            Some(Kind::MulAssign)
        },
        ('/', '=') => {
            proof {
                lemma_punct_of_text(Kind::DivAssign);
                assert(Kind::DivAssign.text() =~= seq![a, b]);
            }
            Some(Kind::DivAssign)
        },
        ('%', '=') => {
            proof {
                lemma_punct_of_text(Kind::ModAssign);
                assert(Kind::ModAssign.text() =~= seq![a, b]);
            }
            Some(Kind::ModAssign)
        },
        ('&', '=') => {
            proof {
                lemma_punct_of_text(Kind::AndAssign);
                assert(Kind::AndAssign.text() =~= seq![a, b]);
            }
            Some(Kind::AndAssign)
        },
        ('|', '=') => {
            proof {
                lemma_punct_of_text(Kind::OrAssign);
                assert(Kind::OrAssign.text() =~= seq![a, b]);
            }
            Some(Kind::OrAssign)
        },
        ('^', '=') => {
            proof {
                lemma_punct_of_text(Kind::CaretAssign);
                assert(Kind::CaretAssign.text() =~= seq![a, b]);
            }
            Some(Kind::CaretAssign)
        },
        ('?', '=') => {
            proof {
                lemma_punct_of_text(Kind::CoalesceAssign);
                assert(Kind::CoalesceAssign.text() =~= seq![a, b]);
            }
            Some(Kind::CoalesceAssign)
        },
        ('?', '?') => {
            proof {
                lemma_punct_of_text(Kind::Coalesce);
                assert(Kind::Coalesce.text() =~= seq![a, b]);
            }
            Some(Kind::Coalesce)
        },
        ('|', '|') => {
            proof {
                lemma_punct_of_text(Kind::Or);
                assert(Kind::Or.text() =~= seq![a, b]);
            }
            Some(Kind::Or)
        },
        ('&', '&') => {
            proof {
                lemma_punct_of_text(Kind::And);
                assert(Kind::And.text() =~= seq![a, b]);
            }
            Some(Kind::And)
        },
        ('?', ':') => {
            proof {
                lemma_punct_of_text(Kind::CoalesceAnd);
                assert(Kind::CoalesceAnd.text() =~= seq![a, b]);
            }
            Some(Kind::CoalesceAnd)
        },
        ('=', '=') => {
            proof {
                lemma_punct_of_text(Kind::Equal);
                assert(Kind::Equal.text() =~= seq![a, b]);
            }
            Some(Kind::Equal)
        },
        ('!', '=') => {
            proof {
                lemma_punct_of_text(Kind::NotEqual);
                assert(Kind::NotEqual.text() =~= seq![a, b]);
            }
            Some(Kind::NotEqual)
        },
        ('<', '=') => {
            proof {
                lemma_punct_of_text(Kind::LessEqual);
                assert(Kind::LessEqual.text() =~= seq![a, b]);
            }
            Some(Kind::LessEqual)
        },
        ('>', '=') => {
            proof {
                lemma_punct_of_text(Kind::GreaterEqual);
                assert(Kind::GreaterEqual.text() =~= seq![a, b]);
            }
            Some(Kind::GreaterEqual)
        },
        ('<', '<') => {
            proof {
                lemma_punct_of_text(Kind::LShift);
                assert(Kind::LShift.text() =~= seq![a, b]);
            }
            Some(Kind::LShift)
        },
        ('>', '>') => {
            proof {
                lemma_punct_of_text(Kind::RShift);
                assert(Kind::RShift.text() =~= seq![a, b]);
            }
            Some(Kind::RShift)
        },
        ('|', '>') => {
            proof {
                lemma_punct_of_text(Kind::Pipe);
                assert(Kind::Pipe.text() =~= seq![a, b]);
            }
            Some(Kind::Pipe)
        },
        ('#', '[') => {
            proof {
                lemma_punct_of_text(Kind::Attribute);
                assert(Kind::Attribute.text() =~= seq![a, b]);
            }
            Some(Kind::Attribute)
        },
        ('-', '>') => {
            proof {
                lemma_punct_of_text(Kind::Arrow);
                assert(Kind::Arrow.text() =~= seq![a, b]);
            }
            Some(Kind::Arrow)
        },
        ('=', '>') => {
            proof {
                lemma_punct_of_text(Kind::DoubleArrow);
                assert(Kind::DoubleArrow.text() =~= seq![a, b]);
            }
            Some(Kind::DoubleArrow)
        },
        (':', ':') => {
            proof {
                lemma_punct_of_text(Kind::DoubleColon);
                assert(Kind::DoubleColon.text() =~= seq![a, b]);
            }
            Some(Kind::DoubleColon)
        },
        ('.', '.') => {
            proof {
                lemma_punct_of_text(Kind::Range);
                assert(Kind::Range.text() =~= seq![a, b]);
            }
            Some(Kind::Range)
        },
        ('?', '.') => {
            proof {
                lemma_punct_of_text(Kind::ElvisDot);
                assert(Kind::ElvisDot.text() =~= seq![a, b]);
            }
            Some(Kind::ElvisDot)
        },
        _ => {
            proof {
                if punct_of(seq![a, b]) is Some {
                    let k = punct_of(seq![a, b])->0;
                    lemma_punct_of_some(seq![a, b]);
                    assert(k.text().len() == 2);
                    assert(k.text()[0] == a);
                    assert(k.text()[1] == b);
                    assert(false);
                }
            }
            None
        },
    }
}

/// The punctuation kind that is written with the three bytes given.
pub fn punct3(a: u8, b: u8, c: u8) -> (out: Option<Kind>)
    ensures
        out == punct_of(seq![a, b, c]),
{
    match (a as char, b as char, c as char) {
        ('<', '=', '>') => {
            proof {
                lemma_punct_of_text(Kind::SpaceShip);
                assert(Kind::SpaceShip.text() =~= seq![a, b, c]);
            }
            Some(Kind::SpaceShip)
        },
        ('<', '<', '=') => {
            proof {
                lemma_punct_of_text(Kind::LShiftAssign);
                assert(Kind::LShiftAssign.text() =~= seq![a, b, c]);
            }
            Some(Kind::LShiftAssign)
        },
        ('>', '>', '=') => {
            proof {
                lemma_punct_of_text(Kind::RShiftAssign);
                assert(Kind::RShiftAssign.text() =~= seq![a, b, c]);
            }
            Some(Kind::RShiftAssign)
        },
        ('.', '.', '=') => {
            proof {
                lemma_punct_of_text(Kind::RangeInclusive);
                assert(Kind::RangeInclusive.text() =~= seq![a, b, c]);
            }
            Some(Kind::RangeInclusive)
        },
        _ => {
            proof {
                if punct_of(seq![a, b, c]) is Some {
                    let k = punct_of(seq![a, b, c])->0;
                    lemma_punct_of_some(seq![a, b, c]);
                    assert(k.text().len() == 3);
                    assert(k.text()[0] == a);
                    assert(k.text()[1] == b);
                    assert(k.text()[2] == c);
                    assert(false);
                }
            }
            None
        },
    }
}

/// Reads the punctuation mark at index `at` of `src`, the longest that
/// stands there, and gives its kind and its length.
pub fn scan_punct(src: &[u8], at: usize) -> (out: Option<(Kind, usize)>)
    requires
        at < src@.len(),
    ensures
        out matches Some((k, n)) ==> punct_at(src@, at as int) == Some((k, n as int)),
        out is None ==> punct_at(src@, at as int) is None,
{
    let len = src.len();
    let a = src[at];
    if len - at >= 3 {
        assert(src@.subrange(at as int, at + 3) =~= seq![a, src@[at + 1], src@[at + 2]]);
        if let Some(k) = punct3(a, src[at + 1], src[at + 2]) {
            return Some((k, 3));
        }
    }
    if len - at >= 2 {
        assert(src@.subrange(at as int, at + 2) =~= seq![a, src@[at + 1]]);
        if let Some(k) = punct2(a, src[at + 1]) {
            return Some((k, 2));
        }
    }
    assert(src@.subrange(at as int, at + 1) =~= seq![a]);
    match punct1(a) {
        Some(k) => Some((k, 1)),
        None => None,
    }
}

/// Maximal munch: where any punctuation mark stands, the mark that is read
/// there is at least as long, and of that length it is the only one.
pub proof fn lemma_maximal_munch(src: Seq<u8>, at: int, other: Kind)
    requires
        other.is_punct(),
        holds_at(src, at, other.text()),
    ensures
        punct_at(src, at) is Some,
        ({
            let (k, n) = punct_at(src, at)->0;
            &&& k.is_punct()
            &&& n == k.text().len()
            &&& holds_at(src, at, k.text())
            &&& other.text().len() <= n
            &&& other.text().len() == n ==> other == k
        }),
{
    lemma_text_len(other);
    lemma_punct_of_text(other);
    lemma_punct_at(src, at);
}

/// What is read as a punctuation mark is the text of its kind, and it
/// stands at the place where it was read.
pub proof fn lemma_punct_at(src: Seq<u8>, at: int)
    requires
        punct_at(src, at) is Some,
    ensures
        ({
            let (k, n) = punct_at(src, at)->0;
            &&& k.is_punct()
            &&& n == k.text().len()
            &&& holds_at(src, at, k.text())
        }),
{
    let (k, n) = punct_at(src, at)->0;
    lemma_punct_of_some(src.subrange(at, at + n));
}

/// Round trip: the text of a punctuation kind, read from its first byte,
/// gives that kind back and is used up.
pub proof fn lemma_text_round_trip(k: Kind)
    requires
        k.is_punct(),
    ensures
        punct_at(k.text(), 0) == Some((k, k.text().len() as int)),
{
    lemma_text_len(k);
    assert(k.text().subrange(0, k.text().len() as int) =~= k.text());
    assert(holds_at(k.text(), 0, k.text()));
    lemma_maximal_munch(k.text(), 0, k);
}

} // verus!
