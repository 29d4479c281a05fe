use yuniye::stream::{tokenize, Lexeme};
use yuniye::token::{ErrorKind, Kind, LexError, LiteralKind, Token};

fn units(source: &[u8]) -> Vec<Result<Token, LexError>> {
    let mut out = Vec::new();
    for Lexeme { unit, .. } in tokenize(source) {
        out.push(unit);
    }
    out
}

fn kinds(source: &[u8]) -> Vec<Result<Kind, ErrorKind>> {
    let mut out = Vec::new();
    for unit in units(source) {
        out.push(match unit {
            Ok(Token(kind, _, _)) => Ok(kind),
            Err(error) => Err(error.kind),
        });
    }
    out
}

#[test]
fn brackets_in_a_row() {
    assert_eq!(
        kinds(b"()[]{}"),
        vec![
            Ok(Kind::LParen),
            Ok(Kind::RParen),
            Ok(Kind::LBracket),
            Ok(Kind::RBracket),
            Ok(Kind::LBrace),
            Ok(Kind::RBrace),
            Ok(Kind::Eof),
        ]
    );
}

#[test]
fn brackets_have_places_and_spans() {
    let stream = tokenize(b"()[]{}");
    assert_eq!(stream.len(), 7);
    for (i, item) in stream.iter().enumerate() {
        let token = item.unit.clone().unwrap();
        assert_eq!(token.line(), 1);
        assert_eq!(token.column(), i + 1);
        assert_eq!(item.start, i);
        assert_eq!(item.end, if i < 6 { i + 1 } else { 6 });
    }
}

#[test]
fn hexadecimal_integer_with_suffix() {
    assert_eq!(
        units(b"0x1Au8"),
        vec![
            Ok(Token(Kind::Literal(LiteralKind::Int(16, b"1A".to_vec())), 1, 1)),
            Ok(Token(Kind::Eof, 1, 7)),
        ]
    );
}

#[test]
fn raw_string_closes_at_matching_hashes() {
    assert_eq!(
        units(b"r#\"a\"b\"#"),
        vec![
            Ok(Token(Kind::Literal(LiteralKind::RawStr(b"a\"b".to_vec(), false)), 1, 1)),
            Ok(Token(Kind::Eof, 1, 9)),
        ]
    );
}

#[test]
fn float_with_digit_separator() {
    assert_eq!(
        units(b"1_000.5"),
        vec![
            Ok(Token(Kind::Literal(LiteralKind::Float(b"1000.5".to_vec())), 1, 1)),
            Ok(Token(Kind::Eof, 1, 8)),
        ]
    );
}

#[test]
fn indented_line_then_sibling_at_zero() {
    assert_eq!(
        units(b"a\n  b\nc"),
        vec![
            Ok(Token(Kind::Identifier(b"a".to_vec()), 1, 1)),
            Ok(Token(Kind::NewLine(0), 1, 2)),
            Ok(Token(Kind::Indent(b"  ".to_vec()), 2, 1)),
            Ok(Token(Kind::Identifier(b"b".to_vec()), 2, 3)),
            Ok(Token(Kind::NewLine(0), 2, 4)),
            Ok(Token(Kind::Identifier(b"c".to_vec()), 3, 1)),
            Ok(Token(Kind::Eof, 3, 2)),
        ]
    );
}

#[test]
fn unterminated_string_at_end_of_buffer() {
    assert_eq!(
        units(b"\"abc"),
        vec![
            Err(LexError { kind: ErrorKind::UnterminatedString, line: 1, column: 1 }),
            Ok(Token(Kind::Eof, 1, 5)),
        ]
    );
}

#[test]
fn scanning_resumes_after_unterminated_string() {
    assert_eq!(
        units(b"\"abc\nx"),
        vec![
            Err(LexError { kind: ErrorKind::UnterminatedString, line: 1, column: 1 }),
            Ok(Token(Kind::NewLine(0), 1, 5)),
            Ok(Token(Kind::Identifier(b"x".to_vec()), 2, 1)),
            Ok(Token(Kind::Eof, 2, 2)),
        ]
    );
}

#[test]
fn shift_assign_is_one_token() {
    assert_eq!(kinds(b"<<="), vec![Ok(Kind::LShiftAssign), Ok(Kind::Eof)]);
    assert_eq!(kinds(b"<<"), vec![Ok(Kind::LShift), Ok(Kind::Eof)]);
    assert_eq!(kinds(b"<"), vec![Ok(Kind::Less), Ok(Kind::Eof)]);
}

#[test]
fn longest_operator_wins() {
    assert_eq!(kinds(b"?:"), vec![Ok(Kind::CoalesceAnd), Ok(Kind::Eof)]);
    assert_eq!(kinds(b"..="), vec![Ok(Kind::RangeInclusive), Ok(Kind::Eof)]);
    assert_eq!(kinds(b".."), vec![Ok(Kind::Range), Ok(Kind::Eof)]);
    assert_eq!(kinds(b"<=>"), vec![Ok(Kind::SpaceShip), Ok(Kind::Eof)]);
    assert_eq!(kinds(b">>="), vec![Ok(Kind::RShiftAssign), Ok(Kind::Eof)]);
    assert_eq!(kinds(b"?.."), vec![Ok(Kind::ElvisDot), Ok(Kind::Period), Ok(Kind::Eof)]);
    assert_eq!(
        kinds(b"a+++b"),
        vec![
            Ok(Kind::Identifier(b"a".to_vec())),
            Ok(Kind::Increment),
            Ok(Kind::Plus),
            Ok(Kind::Identifier(b"b".to_vec())),
            Ok(Kind::Eof),
        ]
    );
}

#[test]
fn range_inclusive_reads_as_written() {
    assert_eq!(Kind::RangeInclusive.to_string(), "..=");
    assert_eq!(kinds(Kind::RangeInclusive.to_string().as_bytes())[0], Ok(Kind::RangeInclusive));
}
