use lox::lexer::Lexer;
use lox::parser::Parser;
use lox::token::{LexicalError, Numeric, Token, TokenType};

fn new_from_tokentype_vec(v: Vec<TokenType>) -> Parser {
    Parser::new(v.into_iter().map(|tt| Token::new(tt, 0, String::new())).collect())
}

fn lex(s: &str) -> Vec<Token> {
    let mut lx = Lexer::new(s);
    lx.tokens()
}

#[test]
fn lexer_tests_parses_true() {
    let mut p = new_from_tokentype_vec(vec![TokenType::True, TokenType::Eof]);
    assert_eq!(p.parse().render(), "true");
}

#[test]
fn parses_unary_not_true() {
    let mut p = new_from_tokentype_vec(vec![TokenType::Bang, TokenType::True]);
    assert_eq!(p.parse().render(), "(! true)");
}

#[test]
fn parsing_number_should_display_dotzero() {
    if let Some(v) = lex("65").first() {
        assert_eq!(v.render(), "NUMBER 65 65.0");
    }
}

#[test]
fn parsing_number_should_display_all_decimal_digits() {
    if let Some(v) = lex("65.1234").first() {
        assert_eq!(v.render(), "NUMBER 65.1234 65.1234");
    }
}

#[test]
fn parses_unary_minus() {
    let mut p = new_from_tokentype_vec(vec![
        TokenType::Minus,
        TokenType::Number(Numeric(format!("{:?}", 10.0f64))),
    ]);
    assert_eq!(p.parse().render(), "(- 10.0)");
}

fn assert_token_vec_lexing_result(s: &str, expected: Vec<TokenType>) {
    assert_eq!(lex(s).iter().map(|t| t.typ.clone()).collect::<Vec<_>>(), expected);
}

#[test]
fn it_works() {
    assert_token_vec_lexing_result("(", vec![TokenType::LeftParen, TokenType::Eof]);
}

#[test]
fn number12() {
    assert_token_vec_lexing_result(
        "12",
        vec![TokenType::Number(Numeric(format!("{:?}", 12.0f64))), TokenType::Eof],
    );
}

#[test]
fn number1() {
    assert_token_vec_lexing_result(
        "1",
        vec![TokenType::Number(Numeric(format!("{:?}", 1.0f64))), TokenType::Eof],
    );
    let ts = lex("1");
    assert_eq!(ts.first().unwrap().typ.render(), "1.0");
}

#[test]
fn number_12_5() {
    assert_token_vec_lexing_result(
        "12.5",
        vec![TokenType::Number(Numeric(format!("{:?}", 12.5f64))), TokenType::Eof],
    );
}

#[test]
fn number_12_5_3() {
    assert_token_vec_lexing_result(
        "12.5 3",
        vec![
            TokenType::Number(Numeric(format!("{:?}", 12.5f64))),
            TokenType::Number(Numeric(format!("{:?}", 3f64))),
            TokenType::Eof,
        ],
    )
}

#[test]
fn number_12_str() {
    assert_token_vec_lexing_result(
        "12.5 \"abc\"",
        vec![
            TokenType::Number(Numeric(format!("{:?}", 12.5f64))),
            TokenType::StringLiteral,
            TokenType::Eof,
        ],
    )
}

#[test]
fn number_12_eol_str() {
    assert_token_vec_lexing_result(
        "12.5\n\"abc\"",
        vec![
            TokenType::Number(Numeric(format!("{:?}", 12.5f64))),
            TokenType::StringLiteral,
            TokenType::Eof,
        ],
    )
}

#[test]
fn number_12_tab_str() {
    assert_token_vec_lexing_result(
        "12.5\t\"abc\"",
        vec![
            TokenType::Number(Numeric(format!("{:?}", 12.5f64))),
            TokenType::StringLiteral,
            TokenType::Eof,
        ],
    )
}

#[test]
fn invalid_token() {
    assert_token_vec_lexing_result(
        "%",
        vec![TokenType::Unknown(LexicalError::UnknownToken('%')), TokenType::Eof],
    )
}

#[test]
fn invalid_second_line() {
    assert_token_vec_lexing_result(
        "12.5\n%",
        vec![
            TokenType::Number(Numeric(format!("{:?}", 12.5f64))),
            TokenType::Unknown(LexicalError::UnknownToken('%')),
            TokenType::Eof,
        ],
    )
}

#[test]
fn invalid_2_and_4_line() {
    assert_token_vec_lexing_result(
        "12.5\n%\n23\n6.34f #",
        vec![
            TokenType::Number(Numeric(format!("{:?}", 12.5f64))),
            TokenType::Unknown(LexicalError::UnknownToken('%')),
            TokenType::Number(Numeric(format!("{:?}", 23f64))),
            TokenType::Number(Numeric(format!("{:?}", 6.34f64))),
            TokenType::Identifier,
            TokenType::Unknown(LexicalError::UnknownToken('#')),
            TokenType::Eof,
        ],
    )
}

#[test]
fn invalid() {
    assert_token_vec_lexing_result(
        "12.5a",
        vec![
            TokenType::Number(Numeric(format!("{:?}", 12.5f64))),
            TokenType::Identifier,
            TokenType::Eof,
        ],
    )
}

fn compare(text: &str, result: &str) {
    let actual: String = lex(text).iter().map(|t| t.render()).collect::<Vec<String>>().join("\n");
    assert_eq!(result, actual);
}

#[test]
fn shoould_parse_correctly() {
    let text = r#""quz" = "bar" != (71 == 98)"#;
    let result = r#"STRING "quz" quz
EQUAL = null
STRING "bar" bar
BANG_EQUAL != null
LEFT_PAREN ( null
NUMBER 71 71.0
EQUAL_EQUAL == null
NUMBER 98 98.0
RIGHT_PAREN ) null
EOF  null"#;
    compare(text, result);
}

#[test]
fn minimal_problem() {
    compare(
        r#" == 98)"#,
        "EQUAL_EQUAL == null\nNUMBER 98 98.0\nRIGHT_PAREN ) null\nEOF  null",
    )
}

#[test]
fn parse_unterminated() {
    compare(
        "\"bar\" \"unterminated",
        "STRING \"bar\" bar\n[line 1] Error: Unterminated string.\nEOF  null",
    );
}

#[test]
fn parse_ident() {
    compare("bar", "IDENTIFIER bar null\nEOF  null");
}

#[test]
fn parse_ident_invalid_ident() {
    compare(
        "bar fooą",
        "IDENTIFIER bar null\nIDENTIFIER foo null\n[line 1] Error: Unexpected character: ą\nEOF  null",
    );
}

#[test]
fn parse_ident_unterm() {
    compare(
        "bar \"unterminated",
        "IDENTIFIER bar null\n[line 1] Error: Unterminated string.\nEOF  null",
    );
}

#[test]
fn reserved() {
    compare("for fun", "FOR for null\nFUN fun null\nEOF  null");
}

#[test]
fn eof_is_single_and_last() {
    for text in ["", "print 1;", "\"abc", "12.5\n%\n23", "// only a comment"] {
        let ts = lex(text);
        assert!(matches!(ts.last().unwrap().typ, TokenType::Eof));
        let eofs = ts.iter().filter(|t| matches!(t.typ, TokenType::Eof)).count();
        assert_eq!(eofs, 1);
    }
}

#[test]
fn lines_never_decrease() {
    let ts = lex("1\n\"a\nb\"\n// c\n fin");
    let mut last = 0u64;
    for t in &ts {
        assert!(t.ln >= last);
        last = t.ln;
    }
}
