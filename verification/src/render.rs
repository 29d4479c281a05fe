//! Tokens as text: a punctuation mark as it is written, every other kind
//! by its name and what it holds.

use vstd::prelude::*;
use vstd::string::*;
use vstd::utf8::{char_u32_cast, decode_utf8, is_scalar, valid_utf8};
use crate::text::read_text;
use crate::token::{Kind, KindView, LiteralKind, LiteralView, Token, TokenView};

verus! {

/// A text between double quotes, as `std` writes it for a reader of
/// programs: what `{:?}` gives of a `str`.
pub uninterp spec fn quoted_text(text: Seq<char>) -> Seq<char>;

/// A character between single quotes, as `std` writes it for a reader of
/// programs: what `{:?}` gives of a `char`.
pub uninterp spec fn quoted_char(c: char) -> Seq<char>;

/// `<str as Debug>::fmt`, through `format!`: the text in double quotes,
/// with the escapes that `std` chooses. It depends on the text alone.
#[verifier::external_body]
fn quote_text(text: &str) -> (out: String)
    ensures
        out@ == quoted_text(text@),
{
    format!("{:?}", text)
}

/// `<char as Debug>::fmt`, through `format!`: the character in single
/// quotes, with the escape that `std` chooses. It depends on the
/// character alone.
#[verifier::external_body]
fn quote_char(c: char) -> (out: String)
    ensures
        out@ == quoted_char(c),
{
    format!("{:?}", c)
}

/// `char::from_u32`: the character with the given code, where the code is
/// a Unicode scalar value, and nothing where it is not.
pub assume_specification[ char::from_u32 ](i: u32) -> (out: Option<char>)
    ensures
        out is Some <==> is_scalar(i),
        out matches Some(c) ==> c as u32 == i,
;

/// The character that stands for the digit `d`.
pub open spec fn digit_char(d: nat) -> char {
    ('0' as u8 + d) as u8 as char
}

/// The number `n` in decimal digits.
pub open spec fn decimal_text(n: nat) -> Seq<char>
    decreases n,
{
    if n < 10 {
        seq![digit_char(n)]
    } else {
        decimal_text(n / 10) + seq![digit_char(n % 10)]
    }
}

/// The numbers of `bytes`, set apart by a comma and a space.
pub open spec fn byte_items(bytes: Seq<u8>) -> Seq<char>
    decreases bytes.len(),
{
    if bytes.len() == 0 {
        Seq::empty()
    } else if bytes.len() == 1 {
        decimal_text(bytes[0] as nat)
    } else {
        byte_items(bytes.drop_last()) + ", "@ + decimal_text(bytes.last() as nat)
    }
}

/// The bytes as a list of numbers between square brackets.
pub open spec fn byte_list_text(bytes: Seq<u8>) -> Seq<char> {
    "["@ + byte_items(bytes) + "]"@
}

/// The bytes as text: the characters that they encode where they are
/// UTF-8, and the list of their numbers where they are not.
pub open spec fn payload_text(bytes: Seq<u8>) -> Seq<char> {
    if valid_utf8(bytes) {
        decode_utf8(bytes)
    } else {
        byte_list_text(bytes)
    }
}

/// The character with the given code, and the replacement character where
/// the code is no Unicode scalar value.
pub open spec fn char_of(code: u32) -> char {
    if is_scalar(code) {
        code as char
    } else {
        '\u{FFFD}'
    }
}

/// `true` or `false`.
pub open spec fn bool_text(b: bool) -> Seq<char> {
    if b {
        "true"@
    } else {
        "false"@
    }
}

/// The text of a punctuation kind, in characters.
pub open spec fn symbol_text(kind: Kind) -> Seq<char> {
    Seq::new(kind.text().len(), |i: int| kind.text()[i] as char)
}

/// A literal as text.
pub open spec fn literal_text(literal: LiteralView) -> Seq<char> {
    match literal {
        LiteralView::Int(base, digits) => "Int("@ + payload_text(digits) + ", "@ + decimal_text(
            base as nat,
        ) + ")"@,
        LiteralView::Float(digits) => "Float("@ + quoted_text(payload_text(digits)) + ")"@,
        LiteralView::Char(code, byte) => "Char("@ + quoted_char(char_of(code)) + ", "@ + bool_text(
            byte,
        ) + ")"@,
        LiteralView::Str(bytes, byte) => "Str("@ + quoted_text(payload_text(bytes)) + ", "@
            + bool_text(byte) + ")"@,
        LiteralView::RawStr(bytes, byte) => "RawStr("@ + quoted_text(payload_text(bytes)) + ", "@
            + bool_text(byte) + ")"@,
    }
}

/// A kind as text: a punctuation mark as it is written, every other kind
/// by its name and what it holds.
pub open spec fn kind_text(kind: KindView) -> Seq<char> {
    match kind {
        KindView::Eof => "Eof"@,
        KindView::Comment => "Comment"@,
        KindView::LineComment(text) => "DocComment("@ + byte_list_text(text) + ")"@,
        KindView::NewLine(depth) => "NewLine("@ + decimal_text(depth as nat) + ")"@,
        KindView::Indent(blanks) => "Indent("@ + byte_list_text(blanks) + ")"@,
        KindView::Identifier(name) => "Name("@ + payload_text(name) + ")"@,
        KindView::Literal(literal) => literal_text(literal),
        KindView::Punct(kind) => symbol_text(kind),
    }
}

/// A token as text: its kind, its line and its column, on a line of its
/// own.
pub open spec fn token_text(token: TokenView) -> Seq<char> {
    "Token("@ + kind_text(token.kind) + ", "@ + decimal_text(token.line as nat) + ":"@
        + decimal_text(token.column as nat) + ")\n"@
}

fn digit_str(d: usize) -> (out: &'static str)
    requires
        d < 10,
    ensures
        out@ == seq![digit_char(d as nat)],
{
    let out = match d {
        0 => {
            proof {
                reveal_strlit("0");
            }
            "0"
        },
        1 => {
            proof {
                reveal_strlit("1");
            }
            "1"
        },
        2 => {
            proof {
                reveal_strlit("2");
            }
            "2"
        },
        3 => {
            proof {
                reveal_strlit("3");
            }
            "3"
        },
        4 => {
            proof {
                reveal_strlit("4");
            }
            "4"
        },
        5 => {
            proof {
                reveal_strlit("5");
            }
            "5"
        },
        6 => {
            proof {
                reveal_strlit("6");
            }
            "6"
        },
        7 => {
            proof {
                reveal_strlit("7");
            }
            "7"
        },
        8 => {
            proof {
                reveal_strlit("8");
            }
            "8"
        },
        _ => {
            proof {
                reveal_strlit("9");
            }
            "9"
        },
    };
    proof {
        assert(out@ =~= seq![digit_char(d as nat)]);
    }
    out
}

/// Writes `n` in decimal digits.
pub fn decimal(n: usize) -> (out: String)
    ensures
        out@ == decimal_text(n as nat),
    decreases n,
{
    if n < 10 {
        String::from_str(digit_str(n))
    } else {
        let mut out = decimal(n / 10);
        out.append(digit_str(n % 10));
        out
    }
}

/// Writes `bytes` as a list of numbers between square brackets.
pub fn byte_list(bytes: &[u8]) -> (out: String)
    ensures
        out@ == byte_list_text(bytes@),
{
    let mut items = String::new();
    let mut at: usize = 0;
    while at < bytes.len()
        invariant
            at <= bytes@.len(),
            items@ == byte_items(bytes@.take(at as int)),
        decreases bytes@.len() - at,
    {
        proof {
            assert(bytes@.take(at + 1).drop_last() =~= bytes@.take(at as int));
        }
        if at > 0 {
            items.append(", ");
        }
        let number = decimal(bytes[at] as usize);
        items.append(number.as_str());
        proof {
            assert(items@ =~= byte_items(bytes@.take(at + 1)));
        }
        at += 1;
    }
    proof {
        assert(bytes@.take(at as int) =~= bytes@);
    }
    let mut out = String::from_str("[");
    out.append(items.as_str());
    out.append("]");
    out
}

/// Writes `bytes` as text: the characters that they encode where they are
/// UTF-8, and the list of their numbers where they are not.
pub fn payload(bytes: &[u8]) -> (out: String)
    ensures
        out@ == payload_text(bytes@),
{
    match read_text(bytes) {
        Some(text) => String::from_str(text),
        None => byte_list(bytes),
    }
}

fn truth(b: bool) -> (out: &'static str)
    ensures
        out@ == bool_text(b),
{
    if b {
        "true"
    } else {
        "false"
    }
}

fn quote_code(code: u32) -> (out: String)
    ensures
        out@ == quoted_char(char_of(code)),
{
    match char::from_u32(code) {
        Some(c) => {
            proof {
                char_u32_cast(c, code);
            }
            quote_char(c)
        },
        None => quote_char('\u{FFFD}'),
    }
}

fn named(name: &str, inner: &str) -> (out: String)
    ensures
        out@ == name@ + inner@ + ")"@,
{
    let mut out = String::from_str(name);
    out.append(inner);
    out.append(")");
    out
}

fn named_pair(name: &str, first: &str, second: &str) -> (out: String)
    ensures
        out@ == name@ + first@ + ", "@ + second@ + ")"@,
{
    let mut out = String::from_str(name);
    out.append(first);
    out.append(", ");
    out.append(second);
    out.append(")");
    out
}

impl LiteralKind {
    /// The literal as text: its name, then what it holds.
    pub fn to_string(&self) -> (out: String)
        ensures
            out@ == literal_text(self@),
    {
        match self {
            LiteralKind::Int(base, digits) => named_pair(
                "Int(",
                payload(digits.as_slice()).as_str(),
                decimal(*base as usize).as_str(),
            ),
            LiteralKind::Float(digits) => named(
                "Float(",
                quote_text(payload(digits.as_slice()).as_str()).as_str(),
            ),
            LiteralKind::Char(code, byte) => named_pair(
                "Char(",
                quote_code(*code).as_str(),
                truth(*byte),
            ),
            LiteralKind::Str(bytes, byte) => named_pair(
                "Str(",
                quote_text(payload(bytes.as_slice()).as_str()).as_str(),
                truth(*byte),
            ),
            LiteralKind::RawStr(bytes, byte) => named_pair(
                "RawStr(",
                quote_text(payload(bytes.as_slice()).as_str()).as_str(),
                truth(*byte),
            ),
        }
    }
}

impl Kind {
    /// The kind as text: a punctuation mark as it is written, so that a
    /// punctuation token reads as the text it was made from; every other
    /// kind by its name and what it holds.
    pub fn to_string(&self) -> (out: String)
        ensures
            out@ == kind_text(self@),
            self.is_punct() ==> out@.len() == self.text().len() && forall|i: int|
                0 <= i < out@.len() ==> #[trigger] out@[i] as u8 == self.text()[i],
    {
        match self {
            Kind::Eof => String::from_str("Eof"),
            Kind::Comment => String::from_str("Comment"),
            Kind::LineComment(text) => named("DocComment(", byte_list(text.as_slice()).as_str()),
            Kind::NewLine(depth) => named("NewLine(", decimal(*depth).as_str()),
            Kind::Indent(blanks) => named("Indent(", byte_list(blanks.as_slice()).as_str()),
            Kind::Identifier(name) => named("Name(", payload(name.as_slice()).as_str()),
            Kind::Literal(literal) => literal.to_string(),
            _ => {
                match self.symbol() {
                    Some(symbol) => {
                        proof {
                            assert(symbol@.len() == self.text().len());
                            assert(symbol@ =~= symbol_text(*self));
                        }
                        String::from_str(symbol)
                    },
                    None => String::new(),
                }
            },
        }
    }
}

impl Token {
    /// The token as text: its kind, its line and its column, on a line of
    /// its own.
    pub fn to_string(&self) -> (out: String)
        ensures
            out@ == token_text(self@),
    {
        let mut out = String::from_str("Token(");
        out.append(self.0.to_string().as_str());
        out.append(", ");
        out.append(decimal(self.1).as_str());
        out.append(":");
        out.append(decimal(self.2).as_str());
        out.append(")\n");
        out
    }
}

} // verus!
