use yuniye::lexer::Lexer;
use yuniye::stream::tokenize;
use yuniye::token::{Kind, Token};

const SAMPLE: &[u8] = b"fn main():\n  let x = 0x1F_u8 // note\n  if x <=> 2:\n    y ?= \"a\\tb\"   \n\n  /*! doc */ z = r#\"q\"#\n\t\xC3\xA9 'c' 1.5e3 \"open\nend";

fn all_marks() -> Vec<Kind> {
    vec![
        Kind::LParen, Kind::RParen, Kind::LBrace, Kind::RBrace, Kind::LBracket, Kind::RBracket,
        Kind::Comma, Kind::Period, Kind::Minus, Kind::Plus, Kind::Slash, Kind::Star,
        Kind::Percent, Kind::Amper, Kind::VBar, Kind::Colon, Kind::SemiColon, Kind::Assign,
        Kind::Not, Kind::Less, Kind::Greater, Kind::Elvis, Kind::Caret, Kind::At, Kind::Dollar,
        Kind::Tilde, Kind::Increment, Kind::Decrement, Kind::AddAssign, Kind::SubAssign,
        Kind::MulAssign, Kind::DivAssign, Kind::ModAssign, Kind::AndAssign, Kind::OrAssign,
        Kind::CaretAssign, Kind::CoalesceAssign, Kind::Coalesce, Kind::Or, Kind::And,
        Kind::CoalesceAnd, Kind::Equal, Kind::NotEqual, Kind::LessEqual, Kind::GreaterEqual,
        Kind::LShift, Kind::RShift, Kind::Pipe, Kind::Attribute, Kind::Arrow, Kind::DoubleArrow,
        Kind::DoubleColon, Kind::Range, Kind::ElvisDot, Kind::SpaceShip, Kind::LShiftAssign,
        Kind::RShiftAssign, Kind::RangeInclusive,
    ]
}

#[test]
fn spans_rebuild_the_buffer() {
    let stream = tokenize(SAMPLE);
    let mut text: Vec<u8> = Vec::new();
    let mut at = 0;
    for item in &stream {
        assert_eq!(item.start, at);
        assert!(item.start <= item.end);
        text.extend_from_slice(&SAMPLE[item.start..item.end]);
        at = item.end;
    }
    assert_eq!(at, SAMPLE.len());
    assert_eq!(text, SAMPLE.to_vec());
}

#[test]
fn spans_rebuild_every_small_buffer() {
    let alphabet: &[u8] = b"a0 \n\"'/*#<=.r\\_\xC3";
    for a in alphabet {
        for b in alphabet {
            for c in alphabet {
                let source = [*a, *b, *c];
                let stream = tokenize(&source);
                let mut at = 0;
                for item in &stream {
                    assert_eq!(item.start, at);
                    at = item.end;
                }
                assert_eq!(at, 3);
                assert_eq!(stream.last().unwrap().unit, Ok(stream.last().unwrap().unit.clone().unwrap()));
                let ends = stream.iter().filter(|item| matches!(item.unit, Ok(Token(Kind::Eof, _, _)))).count();
                assert_eq!(ends, 1);
            }
        }
    }
}

#[test]
fn same_buffer_same_stream() {
    assert_eq!(tokenize(SAMPLE), tokenize(SAMPLE));
}

#[test]
fn pulls_give_the_stream() {
    let stream = tokenize(SAMPLE);
    let mut lexer = Lexer::new(SAMPLE);
    for item in &stream {
        assert_eq!(lexer.offset(), item.start);
        assert_eq!(lexer.next_token(), item.unit);
        assert_eq!(lexer.offset(), item.end);
    }
}

#[test]
fn eof_again_and_again() {
    let mut lexer = Lexer::new(b"a  ");
    assert_eq!(lexer.next_token(), Ok(Token(Kind::Identifier(b"a".to_vec()), 1, 1)));
    for _ in 0..5 {
        assert_eq!(lexer.next_token(), Ok(Token(Kind::Eof, 1, 4)));
        assert_eq!(lexer.offset(), 3);
    }
}

#[test]
fn empty_buffer_is_eof() {
    let stream = tokenize(b"");
    assert_eq!(stream.len(), 1);
    assert_eq!(stream[0].unit, Ok(Token(Kind::Eof, 1, 1)));
    assert_eq!((stream[0].start, stream[0].end), (0, 0));
}

#[test]
fn stream_ends_with_one_eof() {
    let stream = tokenize(SAMPLE);
    let last = stream.len() - 1;
    for (i, item) in stream.iter().enumerate() {
        assert_eq!(matches!(item.unit, Ok(Token(Kind::Eof, _, _))), i == last);
    }
}

#[test]
fn places_never_go_back() {
    let stream = tokenize(SAMPLE);
    let mut before = (1, 1);
    for item in &stream {
        let place = match &item.unit {
            Ok(token) => (token.line(), token.column()),
            Err(error) => (error.line, error.column),
        };
        assert!(before <= place);
        before = place;
    }
}

#[test]
fn every_mark_reads_as_written() {
    for kind in all_marks() {
        let text = kind.to_string();
        assert_eq!(Some(text.as_str()), kind.symbol());
        let stream = tokenize(text.as_bytes());
        assert_eq!(stream.len(), 2);
        assert_eq!(stream[0].unit, Ok(Token(kind.clone(), 1, 1)));
        assert_eq!((stream[0].start, stream[0].end), (0, text.len()));
        assert_eq!(stream[1].unit, Ok(Token(Kind::Eof, 1, text.len() + 1)));
    }
}

#[test]
fn marks_in_text_are_their_lexemes() {
    let source: &[u8] = b"a <<= b ?: c ..= d -= e";
    for item in tokenize(source) {
        if let Ok(Token(kind, _, _)) = &item.unit {
            if let Some(symbol) = kind.symbol() {
                let lexeme = &source[item.end - symbol.len()..item.end];
                assert_eq!(lexeme, symbol.as_bytes());
            }
        }
    }
}

#[test]
fn only_marks_have_symbols() {
    assert_eq!(Kind::Eof.symbol(), None);
    assert_eq!(Kind::Comment.symbol(), None);
    assert_eq!(Kind::NewLine(0).symbol(), None);
    assert_eq!(Kind::Identifier(b"a".to_vec()).symbol(), None);
    assert_eq!(Kind::SubAssign.symbol(), Some("-="));
    assert_eq!(Kind::Attribute.symbol(), Some("#["));
}

#[test]
fn peek_does_not_pull() {
    let mut lexer = Lexer::new(b"a\n  b");
    loop {
        let before = lexer.offset();
        let seen = lexer.peek();
        assert_eq!(lexer.peek(), seen);
        assert_eq!(lexer.offset(), before);
        let pulled = lexer.next_token();
        assert_eq!(pulled, seen);
        if pulled == Ok(Token(Kind::Eof, 2, 4)) {
            break;
        }
    }
}
