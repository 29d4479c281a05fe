//! The token model: what one lexical unit is, and the text of each
//! punctuation mark.

use vstd::prelude::*;
use vstd::string::*;

verus! {

/// The payload of a literal token.
///
/// Digit payloads hold digits only: the base prefix, the `_` separators and
/// the type suffix of the source text are left out. String payloads hold the
/// bytes that the literal denotes, escape sequences already decoded.
#[derive(Clone, Debug, PartialEq, Eq)]
pub enum LiteralKind {
    /// An integer: its base (2, 8, 10 or 16) and its digits.
    Int(u8, Vec<u8>),
    /// A decimal number with a fraction or an exponent.
    Float(Vec<u8>),
    /// A character: its code point, and whether it was written with `b`.
    Char(u32, bool),
    /// A quoted string, and whether it was written with `b`.
    Str(Vec<u8>, bool),
    /// A raw string, and whether it was written with `b`.
    RawStr(Vec<u8>, bool),
}

/// What a [`LiteralKind`] is, with sequences in place of vectors.
pub enum LiteralView {
    Int(u8, Seq<u8>),
    Float(Seq<u8>),
    Char(u32, bool),
    Str(Seq<u8>, bool),
    RawStr(Seq<u8>, bool),
}

impl View for LiteralKind {
    type V = LiteralView;

    open spec fn view(&self) -> LiteralView {
        match self {
            LiteralKind::Int(base, digits) => LiteralView::Int(*base, digits@),
            LiteralKind::Float(digits) => LiteralView::Float(digits@),
            LiteralKind::Char(code, byte) => LiteralView::Char(*code, *byte),
            LiteralKind::Str(bytes, byte) => LiteralView::Str(bytes@, *byte),
            LiteralKind::RawStr(bytes, byte) => LiteralView::RawStr(bytes@, *byte),
        }
    }
}

/// The kinds of token. There is no keyword kind: reserved words are
/// identifiers here, and whoever reads the tokens tells them apart.
#[derive(Clone, Debug, PartialEq, Eq)]
pub enum Kind {
    /// The end of the input.
    Eof,
    /// A comment whose text is not kept.
    Comment,
    /// A documentation comment, with its text.
    LineComment(Vec<u8>),
    /// A line break. The number is the count of indentation levels that are
    /// still open on the line that follows: a number lower than the depth
    /// before the break says how many blocks that line closes.
    NewLine(usize),
    /// Leading blanks that open a new indentation level.
    Indent(Vec<u8>),
    /// A name.
    Identifier(Vec<u8>),
    /// A number, a character or a string.
    Literal(LiteralKind),
    /// `(`
    LParen,
    /// `)`
    RParen,
    /// `{`
    LBrace,
    /// `}`
    RBrace,
    /// `[`
    LBracket,
    /// `]`
    RBracket,
    /// `,`
    Comma,
    /// `.`
    Period,
    /// `-`
    Minus,
    /// `+`
    Plus,
    /// `/`
    Slash,
    /// `*`
    Star,
    /// `%`
    Percent,
    /// `&`
    Amper,
    /// `|`
    VBar,
    /// `:`
    Colon,
    /// `;`
    SemiColon,
    /// `=`
    Assign,
    /// `!`, also read as bang.
    Not,
    /// `<`
    Less,
    /// `>`
    Greater,
    /// `?`, also read as the question mark.
    Elvis,
    /// `^`
    Caret,
    /// `@`
    At,
    /// `$`
    Dollar,
    /// `~`
    Tilde,
    /// `++`
    Increment,
    /// `--`
    Decrement,
    /// `+=`
    AddAssign,
    /// `-=`
    SubAssign,
    /// `*=`
    MulAssign,
    /// `/=`
    DivAssign,
    /// `%=`
    ModAssign,
    /// `&=`
    AndAssign,
    /// `|=`
    OrAssign,
    /// `^=`
    CaretAssign,
    /// `?=`
    CoalesceAssign,
    /// `??`
    Coalesce,
    /// `||`
    Or,
    /// `&&`
    And,
    /// `?:`
    CoalesceAnd,
    /// `==`
    Equal,
    /// `!=`
    NotEqual,
    /// `<=`
    LessEqual,
    /// `>=`
    GreaterEqual,
    /// `<<`
    LShift,
    /// `>>`
    RShift,
    /// `|>`
    Pipe,
    /// `#[`
    Attribute,
    /// `->`
    Arrow,
    /// `=>`
    DoubleArrow,
    /// `::`
    DoubleColon,
    /// `..`
    Range,
    /// `?.`
    ElvisDot,
    /// `<=>`
    SpaceShip,
    /// `<<=`
    LShiftAssign,
    /// `>>=`
    RShiftAssign,
    /// `..=`
    RangeInclusive,
}

/// What a [`Kind`] is, with sequences in place of vectors. All punctuation
/// kinds share one variant, which holds the kind itself.
pub enum KindView {
    Eof,
    Comment,
    LineComment(Seq<u8>),
    NewLine(usize),
    Indent(Seq<u8>),
    Identifier(Seq<u8>),
    Literal(LiteralView),
    Punct(Kind),
}

impl View for Kind {
    type V = KindView;

    open spec fn view(&self) -> KindView {
        match self {
            Kind::Eof => KindView::Eof,
            Kind::Comment => KindView::Comment,
            Kind::LineComment(text) => KindView::LineComment(text@),
            Kind::NewLine(depth) => KindView::NewLine(*depth),
            Kind::Indent(blanks) => KindView::Indent(blanks@),
            Kind::Identifier(name) => KindView::Identifier(name@),
            Kind::Literal(literal) => KindView::Literal(literal@),
            _ => KindView::Punct(*self),
        }
    }
}

impl Kind {
    /// Whether this is a punctuation mark or an operator: a kind without
    /// payload, written in one fixed way.
    pub open spec fn is_punct(&self) -> bool {
        match self {
            Kind::Eof
            | Kind::Comment
            | Kind::LineComment(_)
            | Kind::NewLine(_)
            | Kind::Indent(_)
            | Kind::Identifier(_)
            | Kind::Literal(_) => false,
            _ => true,
        }
    }

    /// The bytes by which a punctuation kind is written; empty for the
    /// other kinds.
    pub open spec fn text(&self) -> Seq<u8> {
        match self {
            Kind::LParen => seq!['(' as u8],
            Kind::RParen => seq![')' as u8],
            Kind::LBrace => seq!['{' as u8],
            Kind::RBrace => seq!['}' as u8],
            Kind::LBracket => seq!['[' as u8],
            Kind::RBracket => seq![']' as u8],
            Kind::Comma => seq![',' as u8],
            Kind::Period => seq!['.' as u8],
            Kind::Minus => seq!['-' as u8],
            Kind::Plus => seq!['+' as u8],
            Kind::Slash => seq!['/' as u8],
            Kind::Star => seq!['*' as u8],
            Kind::Percent => seq!['%' as u8],
            Kind::Amper => seq!['&' as u8],
            Kind::VBar => seq!['|' as u8],
            Kind::Colon => seq![':' as u8],
            Kind::SemiColon => seq![';' as u8],
            Kind::Assign => seq!['=' as u8],
            Kind::Not => seq!['!' as u8],
            Kind::Less => seq!['<' as u8],
            Kind::Greater => seq!['>' as u8],
            Kind::Elvis => seq!['?' as u8],
            Kind::Caret => seq!['^' as u8],
            Kind::At => seq!['@' as u8],
            Kind::Dollar => seq!['$' as u8],
            Kind::Tilde => seq!['~' as u8],
            Kind::Increment => seq!['+' as u8, '+' as u8],
            Kind::Decrement => seq!['-' as u8, '-' as u8],
            Kind::AddAssign => seq!['+' as u8, '=' as u8],
            Kind::SubAssign => seq!['-' as u8, '=' as u8],
            Kind::MulAssign => seq!['*' as u8, '=' as u8],
            Kind::DivAssign => seq!['/' as u8, '=' as u8],
            Kind::ModAssign => seq!['%' as u8, '=' as u8],
            Kind::AndAssign => seq!['&' as u8, '=' as u8],
            Kind::OrAssign => seq!['|' as u8, '=' as u8],
            Kind::CaretAssign => seq!['^' as u8, '=' as u8],
            Kind::CoalesceAssign => seq!['?' as u8, '=' as u8],
            Kind::Coalesce => seq!['?' as u8, '?' as u8],
            Kind::Or => seq!['|' as u8, '|' as u8],
            Kind::And => seq!['&' as u8, '&' as u8],
            Kind::CoalesceAnd => seq!['?' as u8, ':' as u8],
            Kind::Equal => seq!['=' as u8, '=' as u8],
            Kind::NotEqual => seq!['!' as u8, '=' as u8],
            Kind::LessEqual => seq!['<' as u8, '=' as u8],
            Kind::GreaterEqual => seq!['>' as u8, '=' as u8],
            Kind::LShift => seq!['<' as u8, '<' as u8],
            Kind::RShift => seq!['>' as u8, '>' as u8],
            Kind::Pipe => seq!['|' as u8, '>' as u8],
            Kind::Attribute => seq!['#' as u8, '[' as u8],
            Kind::Arrow => seq!['-' as u8, '>' as u8],
            Kind::DoubleArrow => seq!['=' as u8, '>' as u8],
            Kind::DoubleColon => seq![':' as u8, ':' as u8],
            Kind::Range => seq!['.' as u8, '.' as u8],
            Kind::ElvisDot => seq!['?' as u8, '.' as u8],
            Kind::SpaceShip => seq!['<' as u8, '=' as u8, '>' as u8],
            Kind::LShiftAssign => seq!['<' as u8, '<' as u8, '=' as u8],
            Kind::RShiftAssign => seq!['>' as u8, '>' as u8, '=' as u8],
            Kind::RangeInclusive => seq!['.' as u8, '.' as u8, '=' as u8],
            _ => Seq::empty(),
        }
    }

    /// The text by which a punctuation kind is written, `None` for the
    /// other kinds.
    pub fn symbol(&self) -> (out: Option<&'static str>)
        ensures
            out is Some <==> self.is_punct(),
            out matches Some(s) ==> s.spec_bytes() == self.text() && is_ascii(s),
    {
        let out = match self {
            Kind::LParen => {
                proof {
                    reveal_strlit("(");
                }
                Some("(")
            },
            Kind::RParen => {
                proof {
                    reveal_strlit(")");
                }
                Some(")")
            },
            Kind::LBrace => {
                proof {
                    reveal_strlit("{");
                }
                Some("{")
            },
            Kind::RBrace => {
                proof {
                    reveal_strlit("}");
                }
                Some("}")
            },
            Kind::LBracket => {
                proof {
                    reveal_strlit("[");
                }
                Some("[")
            },
            Kind::RBracket => {
                proof {
                    reveal_strlit("]");
                }
                Some("]")
            },
            Kind::Comma => {
                proof {
                    reveal_strlit(",");
                }
                Some(",")
            },
            Kind::Period => {
                proof {
                    reveal_strlit(".");
                }
                Some(".")
            },
            Kind::Minus => {
                proof {
                    reveal_strlit("-");
                }
                Some("-")
            },
            Kind::Plus => {
                proof {
                    reveal_strlit("+");
                }
                Some("+")
            },
            Kind::Slash => {
                proof {
                    reveal_strlit("/");
                }
                Some("/")
            },
            Kind::Star => {
                proof {
                    reveal_strlit("*");
                }
                Some("*")
            },
            Kind::Percent => {
                proof {
                    reveal_strlit("%");
                }
                Some("%")
            },
            Kind::Amper => {
                proof {
                    reveal_strlit("&");
                }
                Some("&")
            },
            Kind::VBar => {
                proof {
                    reveal_strlit("|");
                }
                Some("|")
            },
            Kind::Colon => {
                proof {
                    reveal_strlit(":");
                }
                Some(":")
            },
            Kind::SemiColon => {
                proof {
                    reveal_strlit(";");
                }
                Some(";")
            },
            Kind::Assign => {
                proof {
                    reveal_strlit("=");
                }
                Some("=")
            },
            Kind::Not => {
                proof {
                    reveal_strlit("!");
                }
                Some("!")
            },
            Kind::Less => {
                proof {
                    reveal_strlit("<");
                }
                Some("<")
            },
            Kind::Greater => {
                proof {
                    reveal_strlit(">");
                }
                Some(">")
            },
            Kind::Elvis => {
                proof {
                    reveal_strlit("?");
                }
                Some("?")
            },
            Kind::Caret => {
                proof {
                    reveal_strlit("^");
                }
                Some("^")
            },
            Kind::At => {
                proof {
                    reveal_strlit("@");
                }
                Some("@")
            },
            Kind::Dollar => {
                proof {
                    reveal_strlit("$");
                }
                Some("$")
            },
            Kind::Tilde => {
                proof {
                    reveal_strlit("~");
                }
                Some("~")
            },
            Kind::Increment => {
                proof {
                    reveal_strlit("++");
                }
                Some("++")
            },
            Kind::Decrement => {
                proof {
                    reveal_strlit("--");
                }
                Some("--")
            },
            Kind::AddAssign => {
                proof {
                    reveal_strlit("+=");
                }
                Some("+=")
            },
            Kind::SubAssign => {
                proof {
                    reveal_strlit("-=");
                }
                Some("-=")
            },
            Kind::MulAssign => {
                proof {
                    reveal_strlit("*=");
                }
                Some("*=")
            },
            Kind::DivAssign => {
                proof {
                    reveal_strlit("/=");
                }
                Some("/=")
            },
            Kind::ModAssign => {
                proof {
                    reveal_strlit("%=");
                }
                Some("%=")
            },
            Kind::AndAssign => {
                proof {
                    reveal_strlit("&=");
                }
                Some("&=")
            },
            Kind::OrAssign => {
                proof {
                    reveal_strlit("|=");
                }
                Some("|=")
            },
            Kind::CaretAssign => {
                proof {
                    reveal_strlit("^=");
                }
                Some("^=")
            },
            Kind::CoalesceAssign => {
                proof {
                    reveal_strlit("?=");
                }
                Some("?=")
            },
            Kind::Coalesce => {
                proof {
                    reveal_strlit("??");
                }
                Some("??")
            },
            Kind::Or => {
                proof {
                    reveal_strlit("||");
                }
                Some("||")
            },
            Kind::And => {
                proof {
                    reveal_strlit("&&");
                }
                Some("&&")
            },
            Kind::CoalesceAnd => {
                proof {
                    reveal_strlit("?:");
                }
                Some("?:")
            },
            Kind::Equal => {
                proof {
                    reveal_strlit("==");
                }
                Some("==")
            },
            Kind::NotEqual => {
                proof {
                    reveal_strlit("!=");
                }
                Some("!=")
            },
            Kind::LessEqual => {
                proof {
                    reveal_strlit("<=");
                }
                Some("<=")
            },
            Kind::GreaterEqual => {
                proof {
                    reveal_strlit(">=");
                }
                Some(">=")
            },
            Kind::LShift => {
                proof {
                    reveal_strlit("<<");
                }
                Some("<<")
            },
            Kind::RShift => {
                proof {
                    reveal_strlit(">>");
                }
                Some(">>")
            },
            Kind::Pipe => {
                proof {
                    reveal_strlit("|>");
                }
                Some("|>")
            },
            Kind::Attribute => {
                proof {
                    reveal_strlit("#[");
                }
                Some("#[")
            },
            Kind::Arrow => {
                proof {
                    reveal_strlit("->");
                }
                Some("->")
            },
            Kind::DoubleArrow => {
                proof {
                    reveal_strlit("=>");
                }
                Some("=>")
            },
            Kind::DoubleColon => {
                proof {
                    reveal_strlit("::");
                }
                Some("::")
            },
            Kind::Range => {
                proof {
                    reveal_strlit("..");
                }
                Some("..")
            },
            Kind::ElvisDot => {
                proof {
                    reveal_strlit("?.");
                }
                Some("?.")
            },
            Kind::SpaceShip => {
                proof {
                    reveal_strlit("<=>");
                }
                Some("<=>")
            },
            Kind::LShiftAssign => {
                proof {
                    reveal_strlit("<<=");
                }
                Some("<<=")
            },
            Kind::RShiftAssign => {
                proof {
                    reveal_strlit(">>=");
                }
                Some(">>=")
            },
            Kind::RangeInclusive => {
                proof {
                    reveal_strlit("..=");
                }
                Some("..=")
            },
            _ => None,
        };
        proof {
            if let Some(s) = out {
                assert(is_ascii(s));
                assert(s.spec_bytes() =~= self.text());
            }
        }
        out
    }
}

impl From<LiteralKind> for Kind {
    /// A literal as the kind of a token.
    fn from(literal: LiteralKind) -> (kind: Kind) {
        Kind::Literal(literal)
    }
}

impl vstd::std_specs::convert::FromSpecImpl<LiteralKind> for Kind {
    open spec fn obeys_from_spec() -> bool {
        true
    }

    open spec fn from_spec(literal: LiteralKind) -> Kind {
        Kind::Literal(literal)
    }
}

/// A token: its kind, then the line and the column of its first byte, both
/// counted from 1.
#[derive(Clone, Debug, PartialEq, Eq)]
pub struct Token(pub Kind, pub usize, pub usize);

/// What a [`Token`] is.
pub struct TokenView {
    pub kind: KindView,
    pub line: int,
    pub column: int,
}

impl View for Token {
    type V = TokenView;

    open spec fn view(&self) -> TokenView {
        TokenView { kind: self.0@, line: self.1 as int, column: self.2 as int }
    }
}

impl Token {
    /// The token's kind.
    pub fn kind(&self) -> (kind: &Kind)
        ensures
            kind == self.0,
    {
        &self.0
    }

    /// The line of the token's first byte.
    pub fn line(&self) -> (line: usize)
        ensures
            line == self.1,
    {
        self.1
    }

    /// The column of the token's first byte.
    pub fn column(&self) -> (column: usize)
        ensures
            column == self.2,
    {
        self.2
    }
}

/// What can be wrong with a piece of source text.
#[derive(Clone, Copy, Debug, PartialEq, Eq, Structural)]
pub enum ErrorKind {
    /// A string or character literal with no closing quote on its line.
    UnterminatedString,
    /// A raw string with no closing quote followed by as many `#` as opened it.
    UnterminatedRawString,
    /// A block comment that is never closed.
    UnterminatedBlockComment,
    /// A backslash followed by something that is no escape.
    InvalidEscapeSequence,
    /// A digit that the base of its number does not have, or no digit at all.
    InvalidDigitForBase,
    /// Letters after a number that are no type suffix.
    MalformedSuffix,
    /// A character literal that does not hold exactly one character.
    InvalidCharLiteralLength,
    /// A string literal, written without `b`, that is not UTF-8.
    InvalidEncoding,
    /// Indentation that returns to a width which no open block has.
    InconsistentIndentation,
    /// A byte with which no token starts.
    UnknownCharacter,
}

/// A lexical error: its kind, then the line and the column of the first byte
/// of the text it is about, both counted from 1.
#[derive(Clone, Copy, Debug, PartialEq, Eq, Structural)]
pub struct LexError {
    pub kind: ErrorKind,
    pub line: usize,
    pub column: usize,
}

} // verus!
