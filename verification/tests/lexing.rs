use yuniye::lexer::Lexer;
use yuniye::stream::tokenize;
use yuniye::token::{ErrorKind, Kind, LexError, LiteralKind, Token};

fn read(source: &[u8]) -> Vec<Result<Kind, ErrorKind>> {
    let mut out = Vec::new();
    for item in tokenize(source) {
        out.push(match item.unit {
            Ok(Token(kind, _, _)) => Ok(kind),
            Err(error) => Err(error.kind),
        });
    }
    out
}

fn first(source: &[u8]) -> Result<Kind, ErrorKind> {
    read(source).remove(0)
}

fn name(text: &[u8]) -> Result<Kind, ErrorKind> {
    Ok(Kind::Identifier(text.to_vec()))
}

fn whole(base: u8, digits: &[u8]) -> Result<Kind, ErrorKind> {
    Ok(Kind::Literal(LiteralKind::Int(base, digits.to_vec())))
}

fn fraction(digits: &[u8]) -> Result<Kind, ErrorKind> {
    Ok(Kind::Literal(LiteralKind::Float(digits.to_vec())))
}

fn quoted(bytes: &[u8], byte: bool) -> Result<Kind, ErrorKind> {
    Ok(Kind::Literal(LiteralKind::Str(bytes.to_vec(), byte)))
}

fn raw(bytes: &[u8], byte: bool) -> Result<Kind, ErrorKind> {
    Ok(Kind::Literal(LiteralKind::RawStr(bytes.to_vec(), byte)))
}

fn character(code: u32, byte: bool) -> Result<Kind, ErrorKind> {
    Ok(Kind::Literal(LiteralKind::Char(code, byte)))
}

#[test]
fn names_are_not_keywords() {
    assert_eq!(read(b"let _x fn9"), vec![name(b"let"), name(b"_x"), name(b"fn9"), Ok(Kind::Eof)]);
    assert_eq!(read(b"b r br rb"), vec![name(b"b"), name(b"r"), name(b"br"), name(b"rb"), Ok(Kind::Eof)]);
}

#[test]
fn integers_in_four_bases() {
    assert_eq!(first(b"0b101"), whole(2, b"101"));
    assert_eq!(first(b"0o17"), whole(8, b"17"));
    assert_eq!(first(b"089"), whole(10, b"089"));
    assert_eq!(first(b"0xfF"), whole(16, b"fF"));
    assert_eq!(first(b"12_u8"), whole(10, b"12"));
    assert_eq!(first(b"1f32"), whole(10, b"1"));
    assert_eq!(first(b"0x_1_f"), whole(16, b"1f"));
    assert_eq!(first(b"0b1f32"), whole(2, b"1"));
}

#[test]
fn floats_have_fraction_or_exponent() {
    assert_eq!(first(b"12.34f32"), fraction(b"12.34"));
    assert_eq!(first(b"1e3"), fraction(b"1e3"));
    assert_eq!(first(b"1.5e-3"), fraction(b"1.5e-3"));
    assert_eq!(first(b"2E+1_0"), fraction(b"2E+10"));
    assert_eq!(read(b"1..2"), vec![whole(10, b"1"), Ok(Kind::Range), whole(10, b"2"), Ok(Kind::Eof)]);
    assert_eq!(read(b"1.x"), vec![whole(10, b"1"), Ok(Kind::Period), name(b"x"), Ok(Kind::Eof)]);
}

#[test]
fn digits_must_fit_the_base() {
    assert_eq!(read(b"0b12"), vec![Err(ErrorKind::InvalidDigitForBase), Ok(Kind::Eof)]);
    assert_eq!(read(b"0o8"), vec![Err(ErrorKind::InvalidDigitForBase), Ok(Kind::Eof)]);
    assert_eq!(read(b"0x"), vec![Err(ErrorKind::InvalidDigitForBase), Ok(Kind::Eof)]);
    assert_eq!(read(b"0x_"), vec![Err(ErrorKind::InvalidDigitForBase), Ok(Kind::Eof)]);
    assert_eq!(read(b"0b120i99"), vec![Err(ErrorKind::InvalidDigitForBase), Ok(Kind::Eof)]);
}

#[test]
fn suffix_must_be_a_type() {
    assert_eq!(read(b"12abc"), vec![Err(ErrorKind::MalformedSuffix), Ok(Kind::Eof)]);
    assert_eq!(read(b"1e"), vec![Err(ErrorKind::MalformedSuffix), Ok(Kind::Eof)]);
    assert_eq!(read(b"7u"), vec![Err(ErrorKind::MalformedSuffix), Ok(Kind::Eof)]);
    assert_eq!(read(b"7u8x"), vec![Err(ErrorKind::MalformedSuffix), Ok(Kind::Eof)]);
    assert_eq!(first(b"7i64"), whole(10, b"7"));
}

#[test]
fn strings_decode_escapes() {
    assert_eq!(first(b"\"abc\""), quoted(b"abc", false));
    assert_eq!(first(b"\"\""), quoted(b"", false));
    assert_eq!(first(b"\"a\\nb\\t\\r\\0\\\\\\'\\\"\""), quoted(b"a\nb\t\r\0\\'\"", false));
    assert_eq!(first(b"\"\\x41\\x7f\""), quoted(b"A\x7f", false));
    assert_eq!(first(b"b\"\\xff\\x00\""), quoted(b"\xff\x00", true));
    assert_eq!(first(b"b\"\xff\""), quoted(b"\xff", true));
    assert_eq!(first("\"h\u{e9}\"".as_bytes()), quoted("h\u{e9}".as_bytes(), false));
}

#[test]
fn unknown_escapes_are_errors() {
    assert_eq!(read(b"\"\\q\" x"), vec![Err(ErrorKind::InvalidEscapeSequence), name(b"x"), Ok(Kind::Eof)]);
    assert_eq!(read(b"\"\\xff\""), vec![Err(ErrorKind::InvalidEscapeSequence), Ok(Kind::Eof)]);
    assert_eq!(read(b"\"\\x4\""), vec![Err(ErrorKind::InvalidEscapeSequence), Ok(Kind::Eof)]);
    assert_eq!(read(b"'\\u'"), vec![Err(ErrorKind::InvalidEscapeSequence), Ok(Kind::Eof)]);
}

#[test]
fn strings_end_on_their_line() {
    assert_eq!(
        read(b"\"ab\ncd\""),
        vec![
            Err(ErrorKind::UnterminatedString),
            Ok(Kind::NewLine(0)),
            name(b"cd"),
            Err(ErrorKind::UnterminatedString),
            Ok(Kind::Eof),
        ]
    );
    assert_eq!(read(b"'a"), vec![Err(ErrorKind::UnterminatedString), Ok(Kind::Eof)]);
    assert_eq!(read(b"\"a\\"), vec![Err(ErrorKind::UnterminatedString), Ok(Kind::Eof)]);
}

#[test]
fn text_must_be_utf8_without_b() {
    assert_eq!(read(b"\"\xff\""), vec![Err(ErrorKind::InvalidEncoding), Ok(Kind::Eof)]);
    assert_eq!(read(b"r\"\xc3\""), vec![Err(ErrorKind::InvalidEncoding), Ok(Kind::Eof)]);
    assert_eq!(first(b"br\"\xc3\""), raw(b"\xc3", true));
}

#[test]
fn characters_hold_one_character() {
    assert_eq!(first(b"'a'"), character(97, false));
    assert_eq!(first(b"'\\n'"), character(10, false));
    assert_eq!(first(b"'\\x41'"), character(0x41, false));
    assert_eq!(first(b"'\"'"), character(34, false));
    assert_eq!(first("'\u{e9}'".as_bytes()), character(0xE9, false));
    assert_eq!(first("'\u{1F600}'".as_bytes()), character(0x1F600, false));
    assert_eq!(first(b"b'a'"), character(97, true));
    assert_eq!(first(b"b'\\xff'"), character(255, true));
    assert_eq!(first(b"b'\xff'"), character(255, true));
}

#[test]
fn characters_of_other_lengths_are_errors() {
    assert_eq!(read(b"''"), vec![Err(ErrorKind::InvalidCharLiteralLength), Ok(Kind::Eof)]);
    assert_eq!(read(b"'ab'"), vec![Err(ErrorKind::InvalidCharLiteralLength), Ok(Kind::Eof)]);
    assert_eq!(read(b"b'ab'"), vec![Err(ErrorKind::InvalidCharLiteralLength), Ok(Kind::Eof)]);
    assert_eq!(read(b"b''"), vec![Err(ErrorKind::InvalidCharLiteralLength), Ok(Kind::Eof)]);
    assert_eq!(read(b"'\xff'"), vec![Err(ErrorKind::InvalidCharLiteralLength), Ok(Kind::Eof)]);
    assert_eq!(read("b'\u{e9}'".as_bytes()), vec![Err(ErrorKind::InvalidCharLiteralLength), Ok(Kind::Eof)]);
}

#[test]
fn raw_strings_take_text_as_it_is() {
    assert_eq!(first(b"r\"a\\nb\""), raw(b"a\\nb", false));
    assert_eq!(first(b"r\"\""), raw(b"", false));
    assert_eq!(first(b"r##\"a\"#b\"##"), raw(b"a\"#b", false));
    assert_eq!(first(b"r\"a\nb\""), raw(b"a\nb", false));
    assert_eq!(first(b"br#\"x\"#"), raw(b"x", true));
    assert_eq!(read(b"r#\"a\"## b"), vec![raw(b"a", false), Err(ErrorKind::UnknownCharacter), name(b"b"), Ok(Kind::Eof)]);
}

#[test]
fn raw_strings_need_their_hashes() {
    assert_eq!(read(b"r#\"abc\""), vec![Err(ErrorKind::UnterminatedRawString), Ok(Kind::Eof)]);
    assert_eq!(read(b"r##\"abc\"# x"), vec![Err(ErrorKind::UnterminatedRawString), Ok(Kind::Eof)]);
    assert_eq!(read(b"r\"abc"), vec![Err(ErrorKind::UnterminatedRawString), Ok(Kind::Eof)]);
    assert_eq!(read(b"r#a"), vec![name(b"r"), Err(ErrorKind::UnknownCharacter), name(b"a"), Ok(Kind::Eof)]);
}

#[test]
fn comments_keep_documentation_only() {
    assert_eq!(read(b"// x"), vec![Ok(Kind::Comment), Ok(Kind::Eof)]);
    assert_eq!(read(b"//"), vec![Ok(Kind::Comment), Ok(Kind::Eof)]);
    assert_eq!(read(b"//! doc"), vec![Ok(Kind::LineComment(b" doc".to_vec())), Ok(Kind::Eof)]);
    assert_eq!(read(b"/* x */"), vec![Ok(Kind::Comment), Ok(Kind::Eof)]);
    assert_eq!(read(b"/**/"), vec![Ok(Kind::Comment), Ok(Kind::Eof)]);
    assert_eq!(read(b"/*! hi */"), vec![Ok(Kind::LineComment(b" hi ".to_vec())), Ok(Kind::Eof)]);
    assert_eq!(read(b"/*!*/"), vec![Ok(Kind::LineComment(b"".to_vec())), Ok(Kind::Eof)]);
    assert_eq!(
        read(b"a // x\nb"),
        vec![name(b"a"), Ok(Kind::Comment), Ok(Kind::NewLine(0)), name(b"b"), Ok(Kind::Eof)]
    );
    assert_eq!(read(b"a / b /= c"), vec![name(b"a"), Ok(Kind::Slash), name(b"b"), Ok(Kind::DivAssign), name(b"c"), Ok(Kind::Eof)]);
}

#[test]
fn block_comments_must_close() {
    assert_eq!(read(b"/* abc"), vec![Err(ErrorKind::UnterminatedBlockComment), Ok(Kind::Eof)]);
    assert_eq!(read(b"/*/"), vec![Err(ErrorKind::UnterminatedBlockComment), Ok(Kind::Eof)]);
    assert_eq!(read(b"a /*! b\nc"), vec![name(b"a"), Err(ErrorKind::UnterminatedBlockComment), Ok(Kind::Eof)]);
}

#[test]
fn block_comment_moves_the_line() {
    let stream = tokenize(b"/* a\nb */ c");
    assert_eq!(stream[0].unit, Ok(Token(Kind::Comment, 1, 1)));
    assert_eq!((stream[0].start, stream[0].end), (0, 9));
    assert_eq!(stream[1].unit, Ok(Token(Kind::Identifier(b"c".to_vec()), 2, 6)));
    assert_eq!((stream[1].start, stream[1].end), (9, 11));
}

#[test]
fn unknown_bytes_are_errors() {
    assert_eq!(read(b"#"), vec![Err(ErrorKind::UnknownCharacter), Ok(Kind::Eof)]);
    assert_eq!(read(b"#["), vec![Ok(Kind::Attribute), Ok(Kind::Eof)]);
    assert_eq!(read(b"\\"), vec![Err(ErrorKind::UnknownCharacter), Ok(Kind::Eof)]);
    assert_eq!(read(b"`a"), vec![Err(ErrorKind::UnknownCharacter), name(b"a"), Ok(Kind::Eof)]);
    let stream = tokenize("\u{e9}x".as_bytes());
    assert_eq!(stream[0].unit, Err(LexError { kind: ErrorKind::UnknownCharacter, line: 1, column: 1 }));
    assert_eq!((stream[0].start, stream[0].end), (0, 2));
    assert_eq!(stream[1].unit, Ok(Token(Kind::Identifier(b"x".to_vec()), 1, 3)));
    let stream = tokenize(b"\x80\x80a");
    assert_eq!((stream[0].start, stream[0].end), (0, 2));
}

#[test]
fn blanks_go_into_the_next_span() {
    let stream = tokenize(b"a  \t b\r\n");
    assert_eq!(stream[0].unit, Ok(Token(Kind::Identifier(b"a".to_vec()), 1, 1)));
    assert_eq!((stream[0].start, stream[0].end), (0, 1));
    assert_eq!(stream[1].unit, Ok(Token(Kind::Identifier(b"b".to_vec()), 1, 6)));
    assert_eq!((stream[1].start, stream[1].end), (1, 6));
    assert_eq!(stream[2].unit, Ok(Token(Kind::NewLine(0), 1, 8)));
    assert_eq!((stream[2].start, stream[2].end), (6, 8));
    assert_eq!(stream[3].unit, Ok(Token(Kind::Eof, 2, 1)));
}

#[test]
fn deeper_and_back_by_two() {
    assert_eq!(
        read(b"a\n  b\n    c\nd"),
        vec![
            name(b"a"),
            Ok(Kind::NewLine(0)),
            Ok(Kind::Indent(b"  ".to_vec())),
            name(b"b"),
            Ok(Kind::NewLine(1)),
            Ok(Kind::Indent(b"    ".to_vec())),
            name(b"c"),
            Ok(Kind::NewLine(0)),
            name(b"d"),
            Ok(Kind::Eof),
        ]
    );
}

#[test]
fn back_by_one_of_two() {
    assert_eq!(
        read(b"  a\n    b\n  c"),
        vec![
            Ok(Kind::Indent(b"  ".to_vec())),
            name(b"a"),
            Ok(Kind::NewLine(1)),
            Ok(Kind::Indent(b"    ".to_vec())),
            name(b"b"),
            Ok(Kind::NewLine(1)),
            name(b"c"),
            Ok(Kind::Eof),
        ]
    );
}

#[test]
fn siblings_give_no_indent() {
    assert_eq!(
        read(b"  a\n  b"),
        vec![Ok(Kind::Indent(b"  ".to_vec())), name(b"a"), Ok(Kind::NewLine(1)), name(b"b"), Ok(Kind::Eof)]
    );
}

#[test]
fn empty_lines_keep_the_depth() {
    assert_eq!(
        read(b"  a\n\n   \n  b\n"),
        vec![
            Ok(Kind::Indent(b"  ".to_vec())),
            name(b"a"),
            Ok(Kind::NewLine(1)),
            Ok(Kind::NewLine(1)),
            Ok(Kind::NewLine(1)),
            name(b"b"),
            Ok(Kind::NewLine(1)),
            Ok(Kind::Eof),
        ]
    );
}

#[test]
fn indentation_must_return_to_an_open_block() {
    let stream = tokenize(b"a\n    b\n  c");
    let units: Vec<_> = stream.iter().map(|item| item.unit.clone()).collect();
    assert_eq!(
        units,
        vec![
            Ok(Token(Kind::Identifier(b"a".to_vec()), 1, 1)),
            Ok(Token(Kind::NewLine(0), 1, 2)),
            Ok(Token(Kind::Indent(b"    ".to_vec()), 2, 1)),
            Ok(Token(Kind::Identifier(b"b".to_vec()), 2, 5)),
            Ok(Token(Kind::NewLine(0), 2, 6)),
            Err(LexError { kind: ErrorKind::InconsistentIndentation, line: 3, column: 1 }),
            Ok(Token(Kind::Identifier(b"c".to_vec()), 3, 3)),
            Ok(Token(Kind::Eof, 3, 4)),
        ]
    );
    assert_eq!((stream[5].start, stream[5].end), (8, 10));
}

#[test]
fn depth_follows_the_blocks() {
    let mut lexer = Lexer::new(b"a\n  b\n    c\n  d\ne");
    let mut depths = Vec::new();
    loop {
        let unit = lexer.next_token();
        depths.push(lexer.depth());
        if unit == Ok(Token(Kind::Eof, 5, 2)) {
            break;
        }
    }
    assert_eq!(depths, vec![0, 0, 1, 1, 1, 2, 2, 2, 1, 1, 0, 0]);
}

#[test]
fn tabs_count_as_one() {
    assert_eq!(
        read(b"\ta\n\t\tb"),
        vec![
            Ok(Kind::Indent(b"\t".to_vec())),
            name(b"a"),
            Ok(Kind::NewLine(1)),
            Ok(Kind::Indent(b"\t\t".to_vec())),
            name(b"b"),
            Ok(Kind::Eof),
        ]
    );
}
