use tinyfront::ast::{Expr, Stmt};
use tinyfront::lex::{lex, SourceOffset, SourceRange, Token, TokenKind};
use tinyfront::parser::{parse_module, parse_tokens};

fn int_token_at(value: &str, start: usize, end: usize) -> Token {
    Token {
        value: value.to_string(),
        kind: TokenKind::Int,
        range: SourceRange {
            start: SourceOffset {
                offset: start,
                line: 0,
                column: start,
            },
            end: SourceOffset {
                offset: end,
                line: 0,
                column: end,
            },
        },
    }
}

#[test]
fn parse_int_test() {
    let result = parse_tokens(lex("256").unwrap()).unwrap();

    let expected = vec![Expr::Int(256)];

    assert_eq!(expected, result)
}

#[test]
fn parse_of_empty_sequence_is_empty_module() {
    let module = parse_module("main".to_string(), vec![]).unwrap();
    assert_eq!(module.name, "main");
    assert_eq!(module.declarations.len(), 0);
}

#[test]
fn parse_of_lexed_256_yields_one_declaration() {
    let tokens = lex("256").unwrap();
    let module = parse_module("main".to_string(), tokens).unwrap();
    assert_eq!(module.name, "main");
    assert_eq!(module.declarations, vec![Stmt::Expr(Expr::Int(256))]);
}

#[test]
fn parse_rejects_value_exceeding_i32() {
    let err = parse_tokens(lex("99999999999").unwrap()).unwrap_err();
    assert_eq!(err.msg, "number too large to fit in target type");
    assert_eq!(err.range.start.offset, 0);
    assert_eq!(err.range.end.offset, 11);
}

#[test]
fn parse_accepts_i32_max_and_rejects_one_past_it() {
    let ok = parse_tokens(lex("2147483647").unwrap()).unwrap();
    assert_eq!(ok, vec![Expr::Int(2147483647)]);

    let err = parse_tokens(lex("2147483648").unwrap()).unwrap_err();
    assert_eq!(err.msg, "number too large to fit in target type");
}

#[test]
fn parse_rejects_nop_token_without_consuming_it() {
    let range = SourceRange {
        start: SourceOffset {
            offset: 3,
            line: 0,
            column: 3,
        },
        end: SourceOffset {
            offset: 3,
            line: 0,
            column: 3,
        },
    };
    let err = parse_tokens(vec![Token::empty(range)]).unwrap_err();
    assert_eq!(err.msg, "Unexpected token");
    assert_eq!(err.range, range);
}

#[test]
fn parse_rejects_nondigit_token_value() {
    let err = parse_tokens(vec![int_token_at("12x", 0, 3)]).unwrap_err();
    assert_eq!(err.msg, "invalid digit found in string");
    assert_eq!(err.range.end.offset, 3);
}

#[test]
fn parse_rejects_empty_token_value() {
    let err = parse_tokens(vec![int_token_at("", 0, 0)]).unwrap_err();
    assert_eq!(err.msg, "cannot parse integer from empty string");
}

#[test]
fn parse_preserves_declaration_order() {
    let tokens = vec![
        int_token_at("1", 0, 1),
        int_token_at("22", 1, 3),
        int_token_at("333", 3, 6),
    ];
    let module = parse_module("ordered".to_string(), tokens).unwrap();
    assert_eq!(
        module.declarations,
        vec![
            Stmt::Expr(Expr::Int(1)),
            Stmt::Expr(Expr::Int(22)),
            Stmt::Expr(Expr::Int(333)),
        ]
    );
}

#[test]
fn parse_stops_at_first_rejected_token() {
    let bad_range = SourceRange {
        start: SourceOffset {
            offset: 1,
            line: 0,
            column: 1,
        },
        end: SourceOffset {
            offset: 1,
            line: 0,
            column: 1,
        },
    };
    let tokens = vec![
        int_token_at("1", 0, 1),
        Token::empty(bad_range),
        int_token_at("2", 2, 3),
    ];
    let err = parse_tokens(tokens).unwrap_err();
    assert_eq!(err.msg, "Unexpected token");
    assert_eq!(err.range, bad_range);
}

#[test]
fn parse_accepts_leading_zeros() {
    let ok = parse_tokens(lex("0007").unwrap()).unwrap();
    assert_eq!(ok, vec![Expr::Int(7)]);
}
