use lox::lexer::Lexer;
use lox::parser::Parser;
use lox::token::{Numeric, Token, TokenType};

fn assert_parsed_text_result(text: &str, expected: &str) {
    let mut lx = Lexer::new(text);
    let ts = lx.tokens();
    let mut p = Parser::new(ts);
    let prog = p.parse();
    assert_eq!(prog.render(), expected);
}

fn new_from_tokentype_vec(v: Vec<TokenType>) -> Parser {
    Parser::new(v.into_iter().map(|tt| Token::new(tt, 0, String::new())).collect())
}

#[test]
fn parser_tests_parses_true2() {
    assert_parsed_text_result("true", "true");
}

#[test]
fn parser_tests_parses_false2() {
    assert_parsed_text_result("false", "false");
}

#[test]
fn parser_tests_parses_nil2() {
    assert_parsed_text_result("nil", "nil");
}

#[test]
fn parser_tests_parses_numeric2() {
    assert_parsed_text_result("43.47", "43.47");
}

#[test]
fn parser_tests_parses_numeric3() {
    assert_parsed_text_result("43", "43.0");
}

#[test]
fn parser_tests_parses_literal_2() {
    assert_parsed_text_result("\"foo\"", "foo");
}

#[test]
fn parser_tests_parse_paren_string_2() {
    assert_parsed_text_result("(\"foo\")", "(group foo)");
}

#[test]
fn parser_tests_parses_unary_not_true_2() {
    assert_parsed_text_result("!true", "(! true)")
}

#[test]
fn parser_tests_parses_unary_not_false() {
    assert_parsed_text_result("! false", "(! false)")
}

#[test]
fn parser_tests_parses_unary_minus_2() {
    assert_parsed_text_result("- 3", "(- 3.0)")
}

#[test]
fn parser_tests_parses_unary_minus_in_parens() {
    assert_parsed_text_result("( - 10)", "(group (- 10.0))")
}

#[test]
fn parser_tests_parses_unary_multiple() {
    assert_parsed_text_result("(!!(true))", "(group (! (! (group true))))")
}

#[test]
fn parser_tests_parses_binary() {
    assert_parsed_text_result("16 * 38 / 58", "(/ (* 16.0 38.0) 58.0)")
}

#[test]
fn parser_tests_parses_binary_plus() {
    assert_parsed_text_result("16 + 38 * 58", "(+ 16.0 (* 38.0 58.0))")
}

#[test]
fn parser_tests_parses_comparison_operator() {
    assert_parsed_text_result("83 < 99 < 115", "(< (< 83.0 99.0) 115.0)")
}

#[test]
fn parser_tests_parses_equality_operator() {
    assert_parsed_text_result("\"baz\" == \"baz\"", "(== baz baz)")
}

#[test]
fn parser_tests_parses_inequality_operator() {
    assert_parsed_text_result("\"baz\" != \"baz\"", "(!= baz baz)")
}

#[test]
fn parser_tests_parses_equality_operator2() {
    assert_parsed_text_result("! (\"baz\" == \"baz\") > 5", "(> (! (group (== baz baz))) 5.0)")
}

#[test]
fn tests_parses_true() {
    let mut p = new_from_tokentype_vec(vec![TokenType::True, TokenType::Eof]);
    assert_eq!(p.parse().render(), "true");
}

#[test]
fn tests_parses_true2() {
    assert_parsed_text_result("true", "true");
}

#[test]
fn tests_parses_false2() {
    assert_parsed_text_result("false", "false");
}

#[test]
fn tests_parses_nil2() {
    assert_parsed_text_result("nil", "nil");
}

#[test]
fn tests_parses_numeric() {
    let mut p = new_from_tokentype_vec(vec![
        TokenType::Number(Numeric(format!("{:?}", 43.47f64))),
        TokenType::Eof,
    ]);
    assert_eq!(p.parse().render(), "43.47");
}

#[test]
fn tests_parses_numeric2() {
    assert_parsed_text_result("43.47", "43.47");
}

#[test]
fn tests_parses_numeric3() {
    assert_parsed_text_result("43", "43.0");
}

#[test]
fn tests_parses_literal_2() {
    assert_parsed_text_result("\"foo\"", "foo");
}

#[test]
fn tests_parse_paren_string_2() {
    assert_parsed_text_result("(\"foo\")", "(group foo)");
}

#[test]
fn tests_parses_unary_not_true() {
    let mut p = new_from_tokentype_vec(vec![TokenType::Bang, TokenType::True]);
    assert_eq!(p.parse().render(), "(! true)");
}

#[test]
fn tests_parses_unary_not_true_2() {
    assert_parsed_text_result("!true", "(! true)")
}

#[test]
fn tests_parses_unary_not_false() {
    assert_parsed_text_result("! false", "(! false)")
}

#[test]
fn tests_parses_unary_minus() {
    let mut p = new_from_tokentype_vec(vec![
        TokenType::Minus,
        TokenType::Number(Numeric(format!("{:?}", 10.0f64))),
    ]);
    assert_eq!(p.parse().render(), "(- 10.0)");
}

#[test]
fn tests_parses_unary_minus_2() {
    assert_parsed_text_result("- 3", "(- 3.0)")
}

#[test]
fn tests_parses_unary_minus_in_parens() {
    assert_parsed_text_result("( - 10)", "(group (- 10.0))")
}

#[test]
fn tests_parses_unary_multiple() {
    assert_parsed_text_result("(!!(true))", "(group (! (! (group true))))")
}

#[test]
fn tests_parses_binary() {
    assert_parsed_text_result("16 * 38 / 58", "(/ (* 16.0 38.0) 58.0)")
}

#[test]
fn tests_parses_binary_plus() {
    assert_parsed_text_result("16 + 38 * 58", "(+ 16.0 (* 38.0 58.0))")
}

#[test]
fn tests_parses_comparison_operator() {
    assert_parsed_text_result("83 < 99 < 115", "(< (< 83.0 99.0) 115.0)")
}

#[test]
fn tests_parses_equality_operator() {
    assert_parsed_text_result("\"baz\" == \"baz\"", "(== baz baz)")
}

#[test]
fn tests_parses_inequality_operator() {
    assert_parsed_text_result("\"baz\" != \"baz\"", "(!= baz baz)")
}

#[test]
fn tests_parses_equality_operator2() {
    assert_parsed_text_result("! (\"baz\" == \"baz\") > 5", "(> (! (group (== baz baz))) 5.0)")
}

#[test]
fn empty_source_is_well_formed() {
    let (prog, code) = lox::driver::parse_with_code("");
    assert_eq!(code, 0);
    assert!(prog.syntax_errors().is_none());
    assert_eq!(prog.declarations.len(), 0);
}

#[test]
fn unclosed_group_reports_line_one() {
    let (prog, code) = lox::driver::parse_with_code("(true");
    assert_eq!(code, 65);
    let d = prog.syntax_errors().expect("should hold a syntax error");
    let text = d.render();
    assert!(text.contains("Error at"));
    assert!(text.contains("[line 1]"));
}

#[test]
fn syntax_errors_returns_first_invalid_declaration() {
    let (prog, code) = lox::driver::parse_with_code("1 + ;\n(true");
    assert_eq!(code, 65);
    assert!(prog.declarations.len() >= 2);
    let d = prog.syntax_errors().expect("should hold a syntax error");
    let text = d.render();
    assert!(text.contains("[line 1]"));
    assert!(text.contains("Expected primary"));
    assert!(!text.contains("[line 2]"));
}
