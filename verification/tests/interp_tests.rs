use lox::driver::{evaluate_with_code, parse_with_code, print_values, all_values, tokenize_with_code};
use lox::environment::Environment;
use lox::evaluator::{ArithOp, CmpOp, EvalResult, Evaluator, NumberOps, StatementEvalResult};
use lox::parser::Expression;
use lox::token::{Token, TokenType};

struct F64Ops;

impl NumberOps for F64Ops {
    fn parse_num(&self, lexeme: &str) -> u64 {
        lexeme.parse::<f64>().unwrap_or(0.0).to_bits()
    }

    fn neg(&self, a: u64) -> u64 {
        (-f64::from_bits(a)).to_bits()
    }

    fn arith(&self, op: ArithOp, a: u64, b: u64) -> u64 {
        let x = f64::from_bits(a);
        let y = f64::from_bits(b);
        let r = match op {
            ArithOp::Add => x + y,
            ArithOp::Sub => x - y,
            ArithOp::Mul => x * y,
            ArithOp::Div => x / y,
        };
        r.to_bits()
    }

    fn compare(&self, op: CmpOp, a: u64, b: u64) -> bool {
        let x = f64::from_bits(a);
        let y = f64::from_bits(b);
        match op {
            CmpOp::Lt => x < y,
            CmpOp::Le => x <= y,
            CmpOp::Gt => x > y,
            CmpOp::Ge => x >= y,
            CmpOp::Eq => x == y,
            CmpOp::Ne => x != y,
        }
    }

    fn is_zero(&self, a: u64) -> bool {
        f64::from_bits(a) == 0.0
    }

    fn repeat_count(&self, a: u64) -> usize {
        f64::from_bits(a).round() as usize
    }

    fn format(&self, a: u64) -> String {
        format!("{}", f64::from_bits(a))
    }
}

#[test]
fn parse_with_exit_0() {
    let (_, code) = parse_with_code("(true)");
    assert_eq!(code, 0)
}

#[test]
fn parse_with_exit_65() {
    let (_, code) = parse_with_code("(true");
    assert_eq!(code, 65)
}

struct Case<'a> {
    inp: &'a str,
    outp: &'a str,
    code: u8,
}

#[test]
fn evaluate_cases() {
    let cases: Vec<Case> = vec![
        Case { inp: "-73", outp: "-73", code: 0 },
        Case { inp: "!true", outp: "false", code: 0 },
        Case { inp: "!10.40", outp: "false", code: 0 },
        Case { inp: "!((false))", outp: "true", code: 0 },
        Case { inp: "!nil", outp: "true", code: 0 },
        Case { inp: "1+3", outp: "4", code: 0 },
        Case { inp: "\"hello\" + \"word\"", outp: "helloword", code: 0 },
        Case { inp: "\"foo\"* 3", outp: "foofoofoo", code: 0 },
        Case { inp: "42 / 5 ", outp: "8.4", code: 0 },
        Case { inp: "18 * 3 / (3 * 6) ", outp: "3", code: 0 },
        Case { inp: "-\"foo\" ", outp: "Operand must be a number.\n[Line 1]", code: 70 },
        Case { inp: "-true", outp: "Operand must be a number.\n[Line 1]", code: 70 },
        Case {
            inp: "-(\"foo\" + \"bar\") ",
            outp: "Operand must be a number.\n[Line 1]",
            code: 70,
        },
        Case { inp: " \"foo\n  \n bar\" ", outp: "foo\n  \n bar", code: 0 },
        Case { inp: " 234h ", outp: "Undefined variable 'h'.\n[Line 1]", code: 70 },
        Case {
            inp: " if 3",
            outp: "Invalid expression: [line 1] Error at if: Expected primary (number,  string, bool, nil)  or left paren",
            code: 65,
        },
    ];
    let ops = F64Ops;
    for c in cases {
        let (eres, num, actual_code) = evaluate_with_code(&ops, c.inp);
        assert_eq!(actual_code, c.code, "Expected code: {}, got: {} in {}", c.code, actual_code, c.inp);
        if let Some(err) = num {
            let s = err.s.clone();
            assert_eq!(s, c.outp, "Error: should be {}, was {}", c.outp, s);
        } else if let Some(v) = eres.first() {
            let actual_expression_string: String = match v {
                StatementEvalResult::PrintStatementResult(fin) => fin.render(&ops),
                StatementEvalResult::ExpressionStatementResult(fin) => fin.render(&ops),
                StatementEvalResult::BlockResult(_) => String::new(),
            };
            assert_eq!(
                c.outp, actual_expression_string,
                "Expected: {}, actual {}",
                c.outp, actual_expression_string
            );
        }
    }
}

#[test]
fn create_empty() {
    let env = Environment::new();
    assert!(env.get_var("foo").is_none(), "Foo should be none")
}

#[test]
fn create_and_add() {
    let mut env = Environment::new();
    let tok = Token::new(TokenType::StringLiteral, 34, String::new());
    let _er = env.define(
        "fii".to_string(),
        EvalResult::String { value: "abc".to_string(), token: tok },
    );
    match env.get_var("fii") {
        Some(er) => assert!(
            matches!(er, EvalResult::String { value, token } if value == "abc" && token.typ == TokenType::StringLiteral)
        ),
        None => panic!("Environment should get value for fii"),
    }
}

#[test]
fn eval_true() {
    simple_eval_value(true);
}

#[test]
fn eval_false() {
    simple_eval_value(false);
}

fn simple_eval_value(b: bool) {
    let tt = if b { TokenType::True } else { TokenType::False };
    let word = if b { "true" } else { "false" };
    let expr = Expression::Primary(Token::new(tt, 1, word.to_string()));
    let mut e = Evaluator::new();
    let ops = F64Ops;
    match e.eval_expr(&ops, &expr) {
        Ok(EvalResult::Boolean { value, token }) => {
            assert_eq!(value, b);
            assert_eq!(token.typ, if b { TokenType::True } else { TokenType::False })
        },
        _ => (),
    }
}

#[test]
fn eval_nil() {
    let expr = Expression::Primary(Token::new(TokenType::Nil, 1, "nil".to_string()));
    let mut e = Evaluator::new();
    let ops = F64Ops;
    if let Ok(EvalResult::Reserved { value, token }) = e.eval_expr(&ops, &expr) {
        assert_eq!(value, "nil");
        assert_eq!(token.typ, TokenType::Nil)
    }
}

#[test]
fn eval_string() {
    let expr = Expression::Primary(Token::new(TokenType::StringLiteral, 1, "hello".to_string()));
    let mut e = Evaluator::new();
    let ops = F64Ops;
    match e.eval_expr(&ops, &expr) {
        Ok(EvalResult::String { value, token }) => {
            assert_eq!(value, "hello");
            assert_eq!(token.typ, TokenType::StringLiteral);
        },
        Ok(other_than_str) => panic!("{:?} should evauate ot string result", other_than_str),
        Err(error) => {
            panic!("EvalError: {:?}", error)
        },
    }
}

#[test]
fn eval_number() {
    let num = lox::token::Numeric(format!("{:?}", 12f64));
    let expr = Expression::Primary(Token::new(TokenType::Number(num), 1, "12".to_string()));
    let mut e = Evaluator::new();
    let ops = F64Ops;
    match e.eval_expr(&ops, &expr) {
        Ok(EvalResult::Numeric { value, token }) => {
            assert_eq!(value, 12f64.to_bits());
            assert!(matches!(token.typ, TokenType::Number(_)));
        },
        other => {
            panic!("Expression should evaluate to numeric, evaluated to {:?}", other)
        },
    }
}

fn run_lines(s: &str) -> (Vec<String>, Option<String>, u8) {
    let ops = F64Ops;
    let (results, err, code) = evaluate_with_code(&ops, s);
    let vals = print_values(&results);
    (vals.iter().map(|v| v.render(&ops)).collect(), err.map(|e| e.s), code)
}

fn evaluate_lines(s: &str) -> (Vec<String>, Option<String>, u8) {
    let ops = F64Ops;
    let (results, err, code) = evaluate_with_code(&ops, s);
    let vals = all_values(&results);
    (vals.iter().map(|v| v.render(&ops)).collect(), err.map(|e| e.s), code)
}

#[test]
fn evaluate_negative_number() {
    let (lines, err, code) = evaluate_lines("-73");
    assert_eq!(lines, vec!["-73".to_string()]);
    assert!(err.is_none());
    assert_eq!(code, 0);
}

#[test]
fn evaluate_string_concat() {
    let (lines, err, code) = evaluate_lines("\"foo\" + \"bar\"");
    assert_eq!(lines, vec!["foobar".to_string()]);
    assert!(err.is_none());
    assert_eq!(code, 0);
}

#[test]
fn evaluate_negate_string_fails() {
    let (lines, err, code) = evaluate_lines("-\"foo\"");
    assert!(lines.is_empty());
    assert_eq!(err.unwrap(), "Operand must be a number.\n[Line 1]");
    assert_eq!(code, 70);
}

#[test]
fn run_print_sum() {
    let (lines, err, code) = run_lines("print 1 + 2;");
    assert_eq!(lines, vec!["3".to_string()]);
    assert!(err.is_none());
    assert_eq!(code, 0);
}

#[test]
fn run_print_two_vars() {
    let (lines, err, code) = run_lines("var a = 1; var b = 2; print a + b;");
    assert_eq!(lines, vec!["3".to_string()]);
    assert!(err.is_none());
    assert_eq!(code, 0);
}

#[test]
fn run_block_shadowing() {
    let (lines, err, code) = run_lines("{ var a = 1; { var a = 2; print a; } print a; }");
    assert_eq!(lines, vec!["2".to_string(), "1".to_string()]);
    assert!(err.is_none());
    assert_eq!(code, 0);
}

#[test]
fn run_undefined_variable() {
    let (lines, err, code) = run_lines("print x;");
    assert!(lines.is_empty());
    assert_eq!(err.unwrap(), "Undefined variable 'x'.\n[Line 1]");
    assert_eq!(code, 70);
}

#[test]
fn run_assignment_through_block() {
    let (lines, err, code) = run_lines("var a = 1; { a = 5; } print a;");
    assert_eq!(lines, vec!["5".to_string()]);
    assert!(err.is_none());
    assert_eq!(code, 0);
}

#[test]
fn run_prints_in_source_order() {
    let (lines, err, code) = run_lines("print 1; print \"two\"; print true;");
    assert_eq!(lines, vec!["1".to_string(), "two".to_string(), "true".to_string()]);
    assert!(err.is_none());
    assert_eq!(code, 0);
}

#[test]
fn tokenize_unterminated_string() {
    let (tokens, code) = tokenize_with_code("\"abc");
    assert_eq!(code, 65);
    let errs: Vec<String> =
        tokens.iter().filter(|t| t.is_lexical_error()).map(|t| t.render()).collect();
    assert_eq!(errs, vec!["[line 1] Error: Unterminated string.".to_string()]);
}

#[test]
fn cross_kind_equality_is_not_an_error() {
    let (lines, err, code) = evaluate_lines("1 == \"one\"");
    assert_eq!(lines, vec!["false".to_string()]);
    assert!(err.is_none());
    assert_eq!(code, 0);
}

#[test]
fn mixed_plus_reports_operands() {
    let (lines, err, code) = evaluate_lines("1 + \"one\"");
    assert!(lines.is_empty());
    assert_eq!(err.unwrap(), "Operands must be two numbers or two strings.\n[Line 1]");
    assert_eq!(code, 70);
}

#[test]
fn division_by_zero_is_infinite() {
    let (lines, err, code) = evaluate_lines("1 / 0");
    assert_eq!(lines, vec!["inf".to_string()]);
    assert!(err.is_none());
    assert_eq!(code, 0);
}

#[test]
fn var_declaration_requires_semicolon() {
    let (_, code) = parse_with_code("var a = 1");
    assert_eq!(code, 65);
}

#[test]
fn runtime_error_on_second_line() {
    let (lines, err, code) = run_lines("print 1;\nprint -\"x\";");
    assert_eq!(lines, vec!["1".to_string()]);
    assert_eq!(err.unwrap(), "Operand must be a number.\n[Line 2]");
    assert_eq!(code, 70);
}

#[test]
fn define_then_get_in_scope() {
    let mut env = Environment::new();
    let tok = Token::new(TokenType::True, 1, "true".to_string());
    env.define("x".to_string(), EvalResult::Boolean { value: true, token: tok });
    assert!(matches!(env.get_var("x"), Some(EvalResult::Boolean { value: true, .. })));
}

#[test]
fn evaluation_halts_at_first_error() {
    let (lines, err, code) = run_lines("print 1; print x; print 2;");
    assert_eq!(lines, vec!["1".to_string()]);
    assert_eq!(err.unwrap(), "Undefined variable 'x'.\n[Line 1]");
    assert_eq!(code, 70);
}

#[test]
fn grouping_is_transparent_in_evaluation() {
    let (plain, err_a, code_a) = evaluate_lines("-73");
    let (grouped, err_b, code_b) = evaluate_lines("(-73)");
    assert_eq!(grouped, vec!["-73".to_string()]);
    assert_eq!(plain, grouped);
    assert!(err_a.is_none() && err_b.is_none());
    assert_eq!(code_a, 0);
    assert_eq!(code_b, 0);
}
