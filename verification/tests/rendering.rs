use yuniye::render::{byte_list, decimal, payload};
use yuniye::text::read_text;
use yuniye::token::{Kind, LiteralKind, Token};

#[test]
fn marks_render_as_written() {
    assert_eq!(Kind::LParen.to_string(), "(");
    assert_eq!(Kind::LBrace.to_string(), "{");
    assert_eq!(Kind::RBrace.to_string(), "}");
    assert_eq!(Kind::SubAssign.to_string(), "-=");
    assert_eq!(Kind::AddAssign.to_string(), "+=");
    assert_eq!(Kind::CoalesceAnd.to_string(), "?:");
    assert_eq!(Kind::Coalesce.to_string(), "??");
    assert_eq!(Kind::ElvisDot.to_string(), "?.");
    assert_eq!(Kind::Attribute.to_string(), "#[");
    assert_eq!(Kind::SpaceShip.to_string(), "<=>");
    assert_eq!(Kind::LShiftAssign.to_string(), "<<=");
    assert_eq!(Kind::RShiftAssign.to_string(), ">>=");
    assert_eq!(Kind::RangeInclusive.to_string(), "..=");
}

#[test]
fn markers_render_by_name() {
    assert_eq!(Kind::Eof.to_string(), "Eof");
    assert_eq!(Kind::Comment.to_string(), "Comment");
    assert_eq!(Kind::NewLine(0).to_string(), "NewLine(0)");
    assert_eq!(Kind::NewLine(12).to_string(), "NewLine(12)");
    assert_eq!(Kind::Indent(b"  ".to_vec()).to_string(), "Indent([32, 32])");
    assert_eq!(Kind::Indent(Vec::new()).to_string(), "Indent([])");
    assert_eq!(Kind::LineComment(b"ab".to_vec()).to_string(), "DocComment([97, 98])");
    assert_eq!(Kind::Identifier(b"let".to_vec()).to_string(), "Name(let)");
}

#[test]
fn literals_render_with_payload() {
    assert_eq!(Kind::Literal(LiteralKind::Int(16, b"1A".to_vec())).to_string(), "Int(1A, 16)");
    assert_eq!(Kind::Literal(LiteralKind::Float(b"1000.5".to_vec())).to_string(), "Float(\"1000.5\")");
    assert_eq!(Kind::Literal(LiteralKind::Char(97, false)).to_string(), "Char('a', false)");
    assert_eq!(Kind::Literal(LiteralKind::Char(10, true)).to_string(), "Char('\\n', true)");
    assert_eq!(Kind::Literal(LiteralKind::Str(b"a\"b\n".to_vec(), false)).to_string(), "Str(\"a\\\"b\\n\", false)");
    assert_eq!(Kind::Literal(LiteralKind::RawStr(b"abc".to_vec(), true)).to_string(), "RawStr(\"abc\", true)");
    assert_eq!(LiteralKind::Int(2, b"101".to_vec()).to_string(), "Int(101, 2)");
}

#[test]
fn codes_that_are_no_character_render_as_replacement() {
    let expected = format!("Char({:?}, false)", '\u{FFFD}');
    assert_eq!(Kind::Literal(LiteralKind::Char(0xD800, false)).to_string(), expected);
    assert_eq!(Kind::Literal(LiteralKind::Char(0x110000, false)).to_string(), expected);
    assert_eq!(Kind::Literal(LiteralKind::Char(0xE9, false)).to_string(), format!("Char({:?}, false)", '\u{e9}'));
}

#[test]
fn bytes_that_are_no_text_render_as_numbers() {
    assert_eq!(Kind::Identifier(b"\xff\x00".to_vec()).to_string(), "Name([255, 0])");
    assert_eq!(Kind::Literal(LiteralKind::Str(b"\xff".to_vec(), true)).to_string(), "Str(\"[255]\", true)");
    assert_eq!(payload(b"\xc3\xa9"), "\u{e9}");
    assert_eq!(payload(b"\xc3"), "[195]");
    assert_eq!(payload(b""), "");
}

#[test]
fn tokens_render_on_a_line() {
    assert_eq!(Token(Kind::Eof, 1, 1).to_string(), "Token(Eof, 1:1)\n");
    assert_eq!(Token(Kind::Identifier(b"let".to_vec()), 1, 5).to_string(), "Token(Name(let), 1:5)\n");
    assert_eq!(Token(Kind::RangeInclusive, 120, 7).to_string(), "Token(..=, 120:7)\n");
}

#[test]
fn numbers_in_decimal() {
    assert_eq!(decimal(0), "0");
    assert_eq!(decimal(9), "9");
    assert_eq!(decimal(10), "10");
    assert_eq!(decimal(1234567890), "1234567890");
    assert_eq!(decimal(usize::MAX), usize::MAX.to_string());
}

#[test]
fn byte_lists_in_brackets() {
    assert_eq!(byte_list(b""), "[]");
    assert_eq!(byte_list(b"a"), "[97]");
    assert_eq!(byte_list(b"\x00\xff\x0a"), "[0, 255, 10]");
    assert_eq!(byte_list(b"ab"), format!("{:?}", b"ab"));
}

#[test]
fn text_is_read_from_utf8_only() {
    assert_eq!(read_text(b"abc"), Some("abc"));
    assert_eq!(read_text("h\u{e9}".as_bytes()), Some("h\u{e9}"));
    assert_eq!(read_text(b""), Some(""));
    assert_eq!(read_text(b"\xff"), None);
    assert_eq!(read_text(b"\xed\xa0\x80"), None);
    assert_eq!(read_text(b"\xc0\x80"), None);
}

#[test]
fn token_parts() {
    let token = Token(Kind::Identifier(b"let".to_vec()), 1, 5);
    assert_eq!(token.kind(), &Kind::Identifier(b"let".to_vec()));
    assert_eq!(token.line(), 1);
    assert_eq!(token.column(), 5);
    assert_eq!(token.clone(), token);
}

#[test]
fn literal_into_kind() {
    let kind: Kind = LiteralKind::Char(97, false).into();
    assert_eq!(kind, Kind::Literal(LiteralKind::Char(97, false)));
    assert_eq!(Kind::from(LiteralKind::Float(b"1.5".to_vec())), Kind::Literal(LiteralKind::Float(b"1.5".to_vec())));
}
