use tinyfront::lex::{lex, CharStream, SourceOffset, SourceRange, Token, TokenKind};

#[test]
fn test_numeric_lex() {
    let result = lex("256").unwrap();

    let range = SourceRange {
        start: SourceOffset {
            offset: 0,
            line: 0,
            column: 0,
        },
        end: SourceOffset {
            offset: 3,
            line: 0,
            column: 3,
        },
    };
    let expected = vec![Token {
        value: "256".to_string(),
        kind: TokenKind::Int,
        range,
    }];
    assert_eq!(expected, result)
}

#[test]
fn lex_empty_input_yields_no_tokens() {
    let result = lex("").unwrap();
    assert_eq!(result.len(), 0);
}

#[test]
fn lex_round_trips_digit_strings() {
    let inputs = ["7", "42", "0007", "2147483647", "99999999999"];
    for d in inputs {
        let tokens = lex(d).unwrap();
        assert_eq!(tokens.len(), 1);
        assert_eq!(tokens[0].value, d);
        assert_eq!(tokens[0].kind, TokenKind::Int);
        assert_eq!(tokens[0].range.start.offset, 0);
        assert_eq!(tokens[0].range.start.line, 0);
        assert_eq!(tokens[0].range.start.column, 0);
        assert_eq!(tokens[0].range.end.offset, d.len());
        assert_eq!(tokens[0].range.end.line, 0);
        assert_eq!(tokens[0].range.end.column, d.len());
    }
}

#[test]
fn lex_fails_at_first_unsupported_character() {
    let err = lex("12a").unwrap_err();
    assert_eq!(err.msg, "Unexpected token");
    assert_eq!(err.line, 0);
    assert_eq!(err.column, 2);
}

#[test]
fn lex_fails_on_leading_nondigit() {
    let err = lex("x1").unwrap_err();
    assert_eq!(err.msg, "Unexpected token");
    assert_eq!(err.line, 0);
    assert_eq!(err.column, 0);
}

#[test]
fn lex_fails_on_sign_character() {
    let err = lex("-5").unwrap_err();
    assert_eq!(err.msg, "Unexpected token");
    assert_eq!(err.column, 0);
}

#[test]
fn lex_fails_on_newline_between_digits() {
    let err = lex("1\n2").unwrap_err();
    assert_eq!(err.msg, "Unexpected token");
    assert_eq!(err.line, 0);
    assert_eq!(err.column, 1);
}

#[test]
fn char_stream_tracks_positions() {
    let mut stream = CharStream::from_string("a\nb".to_string());
    let start = stream.get_offset();
    assert_eq!(start.offset, 0);
    assert_eq!(start.line, 0);
    assert_eq!(start.column, 0);

    assert_eq!(stream.peek(), Some('a'));
    assert_eq!(stream.peek(), Some('a'));
    assert_eq!(stream.next(), Some('a'));
    assert_eq!(stream.next(), Some('\n'));

    let mid = stream.get_offset();
    assert_eq!(mid.offset, 2);
    assert_eq!(mid.line, 1);
    // The column counts consumed characters and is never reset at a newline.
    assert_eq!(mid.column, 2);

    assert_eq!(stream.next(), Some('b'));
    assert_eq!(stream.peek(), None);
    assert_eq!(stream.next(), None);

    let end = stream.get_offset();
    assert_eq!(end.offset, 3);
    assert_eq!(end.line, 1);
    assert_eq!(end.column, 3);
}

#[test]
fn char_stream_stamps_errors_with_position() {
    let mut stream = CharStream::from_string("12!".to_string());
    stream.next();
    stream.next();
    let err = stream.make_error("boom");
    assert_eq!(err.msg, "boom");
    assert_eq!(err.line, 0);
    assert_eq!(err.column, 2);
}

#[test]
fn source_offset_renders_as_line_colon_column() {
    let off = SourceOffset {
        offset: 17,
        line: 12,
        column: 305,
    };
    assert_eq!(off.to_text(), "12:305");

    let origin = SourceOffset {
        offset: 0,
        line: 0,
        column: 0,
    };
    assert_eq!(origin.to_text(), "0:0");
}

#[test]
fn usize_renders_in_decimal() {
    assert_eq!(tinyfront::lex::usize_to_string(0), "0");
    assert_eq!(tinyfront::lex::usize_to_string(10), "10");
    assert_eq!(tinyfront::lex::usize_to_string(90521), "90521");
}

#[test]
fn empty_range_is_at_origin() {
    let range = SourceRange::empty();
    assert_eq!(range.start.offset, 0);
    assert_eq!(range.start.line, 0);
    assert_eq!(range.start.column, 0);
    assert_eq!(range.end, range.start);
}

#[test]
fn empty_token_is_nop_placeholder() {
    let range = SourceRange {
        start: SourceOffset {
            offset: 4,
            line: 0,
            column: 4,
        },
        end: SourceOffset {
            offset: 5,
            line: 0,
            column: 5,
        },
    };
    let token = Token::empty(range);
    assert_eq!(token.kind, TokenKind::Nop);
    assert_eq!(token.value, "");
    assert_eq!(token.range, range);
}
