//! The tree-walking evaluator: it walks the program top to bottom,
//! enforcing the operand-type rules, maintaining bindings across nested
//! scopes, and halting at the first runtime error.
//!
//! Numbers of the interpreted language are IEEE-754 doubles. Their
//! arithmetic, parsing and rendering cannot stand in this library, so the
//! evaluator carries each number as its opaque 64-bit pattern and asks a
//! caller-supplied implementation of `NumberOps` for every numeric
//! operation. The type rules, the environment and the control of
//! evaluation are verified here for every implementation of that trait;
//! nothing is assumed about the numeric results themselves.

use vstd::prelude::*;

use crate::environment::{env_assign, env_define, env_get, Environment, ScopeV};
use crate::lexer::LineNum;
use crate::parser::{Binary, Decl, DeclV, Expression, ExpressionV, Stmt, StmtV, Unary};
use crate::text::{dec_chars, dec_str, string_from_chars};
use crate::token::{Token, TokenType, TokenTypeV, TokenV};

verus! {

/// The bit pattern of an IEEE-754 double, opaque to the library.
pub type NumBits = u64;

/// An arithmetic operation on two doubles.
#[derive(Debug, Clone, Copy, PartialEq, Eq, Structural)]
pub enum ArithOp {
    Add,
    Sub,
    Mul,
    Div,
}

/// A comparison of two doubles.
#[derive(Debug, Clone, Copy, PartialEq, Eq, Structural)]
pub enum CmpOp {
    Lt,
    Le,
    Gt,
    Ge,
    Eq,
    Ne,
}

/// The numeric operations of the interpreted language, supplied by the
/// program embedding this library. Each method works on or produces the
/// bit pattern of an IEEE-754 double. No contract constrains the results:
/// everything proved about the evaluator holds for every implementation.
pub trait NumberOps {
    /// The double a number literal denotes.
    fn parse_num(&self, lexeme: &str) -> NumBits;

    /// The negated double.
    fn neg(&self, a: NumBits) -> NumBits;

    /// A sum, difference, product or quotient; division by zero follows
    /// IEEE-754 and is not an error.
    fn arith(&self, op: ArithOp, a: NumBits, b: NumBits) -> NumBits;

    /// A numeric comparison or equality test.
    fn compare(&self, op: CmpOp, a: NumBits, b: NumBits) -> bool;

    /// Whether the double equals zero.
    fn is_zero(&self, a: NumBits) -> bool;

    /// The double rounded to a repetition count, negative values giving
    /// zero.
    fn repeat_count(&self, a: NumBits) -> usize;

    /// The double rendered as the interpreter prints it: integral values
    /// without a fraction, others with their minimal decimal form.
    fn format(&self, a: NumBits) -> String;
}

/// The mathematical model of a runtime value.
pub ghost enum EvalResultV {
    Numeric { bits: NumBits, token: TokenV },
    Boolean { value: bool, token: TokenV },
    Str { value: Seq<char>, token: TokenV },
    Reserved { value: Seq<char>, token: TokenV },
    Nil,
}

/// A runtime value: a double (as its bit pattern), a boolean, a string,
/// the reserved word `nil`, or the nil value of an unset variable. Each
/// carries the token it was produced from, for error lines.
#[derive(Debug)]
pub enum EvalResult {
    Numeric { value: NumBits, token: Token },
    Boolean { value: bool, token: Token },
    String { value: String, token: Token },
    Reserved { value: String, token: Token },
    Nil,
}

impl View for EvalResult {
    type V = EvalResultV;

    open spec fn view(&self) -> EvalResultV {
        match self {
            EvalResult::Numeric { value, token } => EvalResultV::Numeric {
                bits: *value,
                token: token@,
            },
            EvalResult::Boolean { value, token } => EvalResultV::Boolean {
                value: *value,
                token: token@,
            },
            EvalResult::String { value, token } => EvalResultV::Str {
                value: value@,
                token: token@,
            },
            EvalResult::Reserved { value, token } => EvalResultV::Reserved {
                value: value@,
                token: token@,
            },
            EvalResult::Nil => EvalResultV::Nil,
        }
    }
}

impl EvalResult {
    /// A boolean value carrying the token it came from.
    pub fn of_boolean(value: bool, token: &Token) -> (r: EvalResult)
        ensures
            r@ == (EvalResultV::Boolean { value, token: token@ }),
    {
        EvalResult::Boolean { value, token: token.clone() }
    }

    /// A reserved-word value carrying the token it came from.
    pub fn of_reserved(arg: &str, token: &Token) -> (r: EvalResult)
        ensures
            r@ == (EvalResultV::Reserved { value: arg@, token: token@ }),
    {
        EvalResult::Reserved { value: String::from_str(arg), token: token.clone() }
    }

    /// A string value carrying the token it came from.
    pub fn of_string(arg: String, token: &Token) -> (r: EvalResult)
        ensures
            r@ == (EvalResultV::Str { value: arg@, token: token@ }),
    {
        EvalResult::String { value: arg, token: token.clone() }
    }

    /// A numeric value carrying the token it came from.
    pub fn of_numeric(f: NumBits, token: &Token) -> (r: EvalResult)
        ensures
            r@ == (EvalResultV::Numeric { bits: f, token: token@ }),
    {
        EvalResult::Numeric { value: f, token: token.clone() }
    }

    /// A copy whose model equals the original's.
    pub fn clone(&self) -> (r: EvalResult)
        ensures
            r@ == self@,
    {
        match self {
            EvalResult::Numeric { value, token } => EvalResult::Numeric {
                value: *value,
                token: token.clone(),
            },
            EvalResult::Boolean { value, token } => EvalResult::Boolean {
                value: *value,
                token: token.clone(),
            },
            EvalResult::String { value, token } => EvalResult::String {
                value: value.clone(),
                token: token.clone(),
            },
            EvalResult::Reserved { value, token } => EvalResult::Reserved {
                value: value.clone(),
                token: token.clone(),
            },
            EvalResult::Nil => EvalResult::Nil,
        }
    }

    /// The value rendered as the interpreter prints it; numbers are
    /// rendered by the caller-supplied numeric operations.
    pub fn render<N: NumberOps>(&self, ops: &N) -> (r: String)
        ensures
            !(self@ is Numeric) ==> r@ == plain_render(self@),
    {
        match self {
            EvalResult::Numeric { value, token: _ } => ops.format(*value),
            EvalResult::Boolean { value, token: _ } => {
                if *value {
                    String::from_str("true")
                } else {
                    String::from_str("false")
                }
            },
            EvalResult::String { value, token: _ } => value.clone(),
            EvalResult::Reserved { value, token: _ } => value.clone(),
            EvalResult::Nil => String::from_str("nil"),
        }
    }
}

/// How every value but a number renders: booleans as `true`/`false`,
/// strings and reserved words as their contents, nil as `nil`.
pub open spec fn plain_render(v: EvalResultV) -> Seq<char> {
    match v {
        EvalResultV::Numeric { .. } => Seq::empty(),
        EvalResultV::Boolean { value, .. } => if value {
            "true"@
        } else {
            "false"@
        },
        EvalResultV::Str { value, .. } => value,
        EvalResultV::Reserved { value, .. } => value,
        EvalResultV::Nil => "nil"@,
    }
}

/// A runtime error: its message, with the offending line appended.
#[derive(Debug)]
pub struct EvalError {
    /// The full message, `<reason>\n[Line N]`.
    pub s: String,
}

impl EvalError {
    /// An error from its full message.
    pub fn new(s: String) -> (r: EvalError)
        ensures
            r.s@ == s@,
    {
        EvalError { s }
    }
}

/// A runtime error message: the reason and the offending line.
pub open spec fn rt_msg(arg: Seq<char>, ln: LineNum) -> Seq<char> {
    arg + "\n[Line "@ + dec_str(ln as nat) + "]"@
}

/// A failed evaluation with the message `<arg>\n[Line <ln>]`.
pub fn runtime_error(arg: &str, ln: LineNum) -> (r: Result<EvalResult, EvalError>)
    ensures
        r matches Err(e) && e.s@ == rt_msg(arg@, ln),
{
    let mut s = String::from_str(arg);
    s.append("\n[Line ");
    let digits = string_from_chars(&dec_chars(ln));
    s.append(digits.as_str());
    s.append("]");
    Err(EvalError { s })
}

/// The token a value carries, if any.
pub open spec fn tok_of(v: EvalResultV) -> Option<TokenV> {
    match v {
        EvalResultV::Numeric { token, .. } => Some(token),
        EvalResultV::Boolean { token, .. } => Some(token),
        EvalResultV::Str { token, .. } => Some(token),
        EvalResultV::Reserved { token, .. } => Some(token),
        EvalResultV::Nil => None,
    }
}

/// The line a value's error reports: its token's line, or line one for the
/// token-less nil value.
pub open spec fn line_of(v: EvalResultV) -> LineNum {
    match tok_of(v) {
        Some(t) => t.ln,
        None => 1,
    }
}

/// Whether a value is the language's nil: the literal or an unset
/// variable's value.
pub open spec fn is_nil_like(v: EvalResultV) -> bool {
    v is Reserved || v is Nil
}

/// Whether an error result carries exactly the message `msg` at the line
/// of the left value.
pub open spec fn err_at(out: Result<EvalResultV, Seq<char>>, msg: Seq<char>, ln: LineNum) -> bool {
    out == Result::<EvalResultV, Seq<char>>::Err(rt_msg(msg, ln))
}

/// What the unary operators return, for each operand kind: negation only
/// of numbers; `!` of a number tests it against zero, of a boolean negates
/// it, of nil gives true, and cannot be used on a string.
pub open spec fn unary_rel(op: Unary, v: EvalResultV, out: Result<EvalResultV, Seq<char>>) -> bool {
    match v {
        EvalResultV::Numeric { bits: _, token } => match op {
            Unary::Minus => out matches Ok(EvalResultV::Numeric { bits: _, token: t2 }) && t2
                == token,
            Unary::Not => out matches Ok(EvalResultV::Boolean { value: _, token: t2 }) && t2
                == token,
        },
        EvalResultV::Boolean { value, token } => match op {
            Unary::Not => out == Result::<EvalResultV, Seq<char>>::Ok(
                EvalResultV::Boolean { value: !value, token },
            ),
            Unary::Minus => err_at(out, "Operand must be a number."@, token.ln),
        },
        EvalResultV::Str { value: _, token } => match op {
            Unary::Minus => err_at(out, "Operand must be a number."@, token.ln),
            Unary::Not => err_at(out, "Operator cannot be used on string"@, token.ln),
        },
        EvalResultV::Reserved { value, token } => match op {
            Unary::Not => if value == "nil"@ {
                out == Result::<EvalResultV, Seq<char>>::Ok(
                    EvalResultV::Boolean { value: true, token },
                )
            } else {
                err_at(out, "Reserved word has no unary operator"@, token.ln)
            },
            Unary::Minus => err_at(out, "Operand must be a number."@, token.ln),
        },
        EvalResultV::Nil => match op {
            Unary::Not => out matches Ok(EvalResultV::Boolean { value: true, token: _ }),
            Unary::Minus => err_at(out, "Operand must be a number."@, 1),
        },
    }
}

/// The unary operator applied to an already evaluated operand.
pub fn eval_unary_value<N: NumberOps>(ops: &N, unary: &Unary, val: EvalResult) -> (r: Result<
    EvalResult,
    EvalError,
>)
    ensures
        unary_rel(
            *unary,
            val@,
            match r {
                Ok(v) => Ok(v@),
                Err(e) => Err(e.s@),
            },
        ),
{
    match val {
        EvalResult::Numeric { value: n, token: tok } => match unary {
            Unary::Minus => {
                let b = ops.neg(n);
                Ok(EvalResult::of_numeric(b, &tok))
            },
            Unary::Not => {
                let z = ops.is_zero(n);
                Ok(EvalResult::of_boolean(z, &tok))
            },
        },
        EvalResult::Boolean { value: v, token: tok } => match unary {
            Unary::Not => Ok(EvalResult::of_boolean(!v, &tok)),
            Unary::Minus => runtime_error("Operand must be a number.", tok.ln),
        },
        EvalResult::String { value: _s, token: tok } => match unary {
            Unary::Minus => runtime_error("Operand must be a number.", tok.ln),
            Unary::Not => runtime_error("Operator cannot be used on string", tok.ln),
        },
        EvalResult::Reserved { value: word, token: tok } => match unary {
            Unary::Not => {
                if crate::text::str_eq(word.as_str(), "nil") {
                    Ok(EvalResult::of_boolean(true, &tok))
                } else {
                    runtime_error("Reserved word has no unary operator", tok.ln)
                }
            },
            Unary::Minus => runtime_error("Operand must be a number.", tok.ln),
        },
        EvalResult::Nil => match unary {
            Unary::Not => {
                let t = Token::new(TokenType::Nil, 1, String::from_str("nil"));
                Ok(EvalResult::of_boolean(true, &t))
            },
            Unary::Minus => runtime_error("Operand must be a number.", 1),
        },
    }
}

/// The string `s` repeated `n` times.
pub open spec fn repeat_str(s: Seq<char>, n: nat) -> Seq<char>
    decreases n,
{
    if n == 0 {
        Seq::empty()
    } else {
        repeat_str(s, (n - 1) as nat) + s
    }
}

/// The string `l` repeated `n` times (executable form).
pub fn repeat_string(l: &str, n: usize) -> (r: String)
    ensures
        r@ == repeat_str(l@, n as nat),
{
    let mut out = String::new();
    let mut k: usize = 0;
    while k < n
        invariant
            k <= n,
            out@ == repeat_str(l@, k as nat),
        decreases n - k,
    {
        out.append(l);
        k = k + 1;
    }
    out
}

/// What `==` and `!=` return: same-kind operands compare by value, with
/// numbers compared as doubles; operands of different kinds are never
/// equal and never an error; both nil forms are one kind.
pub open spec fn eq_rel(l: EvalResultV, op: Binary, r: EvalResultV, out: Result<
    EvalResultV,
    Seq<char>,
>) -> bool
    recommends
        op is EqualEqual || op is NotEqual,
{
    let neg = op is NotEqual;
    match (l, r) {
        (
            EvalResultV::Numeric { bits: _, token },
            EvalResultV::Numeric { .. },
        ) => out matches Ok(EvalResultV::Boolean { value: _, token: t2 }) && t2 == token,
        (
            EvalResultV::Str { value: a, token },
            EvalResultV::Str { value: b, .. },
        ) => out == Result::<EvalResultV, Seq<char>>::Ok(
            EvalResultV::Boolean { value: (a == b) != neg, token },
        ),
        (
            EvalResultV::Boolean { value: a, token },
            EvalResultV::Boolean { value: b, .. },
        ) => out == Result::<EvalResultV, Seq<char>>::Ok(
            EvalResultV::Boolean { value: (a == b) != neg, token },
        ),
        (a, b) => {
            if is_nil_like(a) && is_nil_like(b) {
                out matches Ok(EvalResultV::Boolean { value: v, token: _ }) && v == !neg
            } else {
                out matches Ok(EvalResultV::Boolean { value: v, token: _ }) && v == neg
            }
        },
    }
}

/// What the remaining binary operators return, for each pair of operand
/// kinds: arithmetic and ordering on two numbers; `+` concatenates two
/// strings; `*` repeats a string by a number; everything else is a runtime
/// error whose message names the rule broken.
pub open spec fn calc_rel(l: EvalResultV, op: Binary, r: EvalResultV, out: Result<
    EvalResultV,
    Seq<char>,
>) -> bool {
    if op is EqualEqual || op is NotEqual {
        eq_rel(l, op, r, out)
    } else {
        match (l, r) {
            (
                EvalResultV::Numeric { bits: _, token },
                EvalResultV::Numeric { .. },
            ) => match op {
                Binary::Plus | Binary::Minus | Binary::Divide | Binary::Multiply => out matches Ok(
                    EvalResultV::Numeric { bits: _, token: t2 },
                ) && t2 == token,
                _ => out matches Ok(EvalResultV::Boolean { value: _, token: t2 }) && t2 == token,
            },
            (
                EvalResultV::Numeric { bits: _, token },
                EvalResultV::Str { .. },
            ) => if op is Plus {
                err_at(out, "Operands must be two numbers or two strings."@, token.ln)
            } else {
                err_at(out, "Only num != str and num == str supported"@, token.ln)
            },
            (EvalResultV::Numeric { bits: _, token }, _) => err_at(
                out,
                "Operands must be numbers."@,
                token.ln,
            ),
            (
                EvalResultV::Str { value: a, token },
                EvalResultV::Str { value: b, .. },
            ) => if op is Plus {
                out == Result::<EvalResultV, Seq<char>>::Ok(
                    EvalResultV::Str { value: a + b, token },
                )
            } else {
                err_at(out, "Only plus allowed on strings"@, token.ln)
            },
            (
                EvalResultV::Str { value: a, token },
                EvalResultV::Numeric { .. },
            ) => if op is Multiply {
                out matches Ok(EvalResultV::Str { value: v, token: t2 }) && t2 == token && (exists|
                    n: nat,
                |
                    v == repeat_str(a, n))
            } else if op is Plus {
                err_at(out, "Operands must be two numbers or two strings."@, token.ln)
            } else {
                err_at(out, "Only str*num and str+str allowed"@, token.ln)
            },
            (EvalResultV::Str { value: _, token }, _) => err_at(
                out,
                "No other binary operations on strings"@,
                token.ln,
            ),
            (EvalResultV::Boolean { value: _, token }, _) => if op is Multiply {
                err_at(out, "Operands must be numbers."@, token.ln)
            } else {
                err_at(out, "Operator not supported"@, token.ln)
            },
            (a, _) => err_at(out, "Operands must be numbers."@, line_of(a)),
        }
    }
}

/// A binary operator applied to two already evaluated operands, as
/// `calc_rel` describes it.
pub fn calculate<N: NumberOps>(ops: &N, lv: EvalResult, op: &Binary, rv: EvalResult) -> (out:
    Result<EvalResult, EvalError>)
    ensures
        calc_rel(
            lv@,
            *op,
            rv@,
            match out {
                Ok(v) => Ok(v@),
                Err(e) => Err(e.s@),
            },
        ),
{
    let is_eq_op = match op {
        Binary::EqualEqual => true,
        Binary::NotEqual => true,
        _ => false,
    };
    if is_eq_op {
        let neg = match op {
            Binary::NotEqual => true,
            _ => false,
        };
        match (lv, rv) {
            (
                EvalResult::Numeric { value: a, token: ltok },
                EvalResult::Numeric { value: b, token: _ },
            ) => {
                let same = ops.compare(CmpOp::Eq, a, b);
                Ok(EvalResult::of_boolean(same != neg, &ltok))
            },
            (
                EvalResult::String { value: a, token: ltok },
                EvalResult::String { value: b, token: _ },
            ) => Ok(EvalResult::of_boolean((a == b) != neg, &ltok)),
            (
                EvalResult::Boolean { value: a, token: ltok },
                EvalResult::Boolean { value: b, token: _ },
            ) => Ok(EvalResult::of_boolean((a == b) != neg, &ltok)),
            (a, b) => {
                let a_nil = match &a {
                    EvalResult::Reserved { .. } => true,
                    EvalResult::Nil => true,
                    _ => false,
                };
                let b_nil = match &b {
                    EvalResult::Reserved { .. } => true,
                    EvalResult::Nil => true,
                    _ => false,
                };
                let same = a_nil && b_nil;
                let t = Token::new(TokenType::Nil, 1, String::from_str("nil"));
                Ok(EvalResult::of_boolean(same != neg, &t))
            },
        }
    } else {
        match (lv, rv) {
            (
                EvalResult::Numeric { value: a, token: ltok },
                EvalResult::Numeric { value: b, token: _ },
            ) => match op {
                Binary::Plus => Ok(EvalResult::of_numeric(ops.arith(ArithOp::Add, a, b), &ltok)),
                Binary::Minus => Ok(EvalResult::of_numeric(ops.arith(ArithOp::Sub, a, b), &ltok)),
                Binary::Divide => Ok(EvalResult::of_numeric(ops.arith(ArithOp::Div, a, b), &ltok)),
                Binary::Multiply => Ok(
                    EvalResult::of_numeric(ops.arith(ArithOp::Mul, a, b), &ltok),
                ),
                Binary::Less => Ok(EvalResult::of_boolean(ops.compare(CmpOp::Lt, a, b), &ltok)),
                Binary::LessEqual => Ok(
                    EvalResult::of_boolean(ops.compare(CmpOp::Le, a, b), &ltok),
                ),
                Binary::Greater => Ok(EvalResult::of_boolean(ops.compare(CmpOp::Gt, a, b), &ltok)),
                _ => Ok(EvalResult::of_boolean(ops.compare(CmpOp::Ge, a, b), &ltok)),
            },
            (
                EvalResult::Numeric { value: _, token: ltok },
                EvalResult::String { .. },
            ) => match op {
                Binary::Plus => runtime_error(
                    "Operands must be two numbers or two strings.",
                    ltok.ln,
                ),
                _ => runtime_error("Only num != str and num == str supported", ltok.ln),
            },
            (EvalResult::Numeric { value: _, token: ltok }, _) => runtime_error(
                "Operands must be numbers.",
                ltok.ln,
            ),
            (
                EvalResult::String { value: a, token: ltok },
                EvalResult::String { value: b, token: _ },
            ) => match op {
                Binary::Plus => {
                    let joined = a.concat(b.as_str());
                    Ok(EvalResult::of_string(joined, &ltok))
                },
                _ => runtime_error("Only plus allowed on strings", ltok.ln),
            },
            (
                EvalResult::String { value: a, token: ltok },
                EvalResult::Numeric { value: n, token: _ },
            ) => match op {
                Binary::Multiply => {
                    let count = ops.repeat_count(n);
                    let repeated = repeat_string(a.as_str(), count);
                    proof {
                        assert(repeated@ == repeat_str(a@, count as nat));
                    }
                    Ok(EvalResult::of_string(repeated, &ltok))
                },
                Binary::Plus => runtime_error(
                    "Operands must be two numbers or two strings.",
                    ltok.ln,
                ),
                _ => runtime_error("Only str*num and str+str allowed", ltok.ln),
            },
            (EvalResult::String { value: _, token: ltok }, _) => runtime_error(
                "No other binary operations on strings",
                ltok.ln,
            ),
            (EvalResult::Boolean { value: _, token: ltok }, _) => match op {
                Binary::Multiply => runtime_error("Operands must be numbers.", ltok.ln),
                _ => runtime_error("Operator not supported", ltok.ln),
            },
            (EvalResult::Reserved { value: _, token: ltok }, _) => runtime_error(
                "Operands must be numbers.",
                ltok.ln,
            ),
            (EvalResult::Nil, _) => runtime_error("Operands must be numbers.", 1),
        }
    }
}

/// The mathematical model of a statement result.
pub ghost enum StatementEvalResultV {
    Expr(EvalResultV),
    Print(EvalResultV),
    Block(Seq<StatementEvalResultV>),
}

/// What evaluating one declaration yields: the value of an expression
/// statement or variable declaration, the value a print statement prints,
/// or the results of a block's declarations.
#[derive(Debug)]
pub enum StatementEvalResult {
    ExpressionStatementResult(EvalResult),
    PrintStatementResult(EvalResult),
    BlockResult(Vec<StatementEvalResult>),
}

/// The model of a statement result.
pub open spec fn ser_v(r: &StatementEvalResult) -> StatementEvalResultV
    decreases r,
{
    match r {
        StatementEvalResult::ExpressionStatementResult(v) => StatementEvalResultV::Expr(v@),
        StatementEvalResult::PrintStatementResult(v) => StatementEvalResultV::Print(v@),
        StatementEvalResult::BlockResult(rs) => StatementEvalResultV::Block(sers_v(rs@)),
    }
}

/// The model of a sequence of statement results.
pub open spec fn sers_v(rs: Seq<StatementEvalResult>) -> Seq<StatementEvalResultV>
    decreases rs,
{
    if rs.len() == 0 {
        Seq::empty()
    } else {
        seq![ser_v(&rs[0])] + sers_v(rs.subrange(1, rs.len() as int))
    }
}

impl View for StatementEvalResult {
    type V = StatementEvalResultV;

    open spec fn view(&self) -> StatementEvalResultV {
        ser_v(self)
    }
}

/// Marks one step of a run: the statement result it produced and the
/// environment it left. Always true, it only guides the quantifiers of
/// the evaluation relations.
pub open spec fn step_to(r: StatementEvalResultV, env: Seq<ScopeV>) -> bool {
    true
}

/// Marks one evaluated sub-expression: its value and the environment it
/// left. Always true, it only guides the quantifiers of the evaluation
/// relations.
pub open spec fn val_to(v: EvalResultV, env: Seq<ScopeV>) -> bool {
    true
}

/// Marks one finished block body: its results and the environment it
/// left. Always true, it only guides the quantifiers of the evaluation
/// relations.
pub open spec fn outs_to(outs: Seq<StatementEvalResultV>, env: Seq<ScopeV>) -> bool {
    true
}

/// What a literal token evaluates to: `true`, `false`, `nil`, the
/// string's content, or a number whose double the numeric operations
/// supply from the lexeme; any other token is a runtime error.
pub open spec fn primary_rel(t: TokenV, out: Result<EvalResultV, Seq<char>>) -> bool {
    match t.typ {
        TokenTypeV::True => out == Result::<EvalResultV, Seq<char>>::Ok(
            EvalResultV::Boolean { value: true, token: t },
        ),
        TokenTypeV::False => out == Result::<EvalResultV, Seq<char>>::Ok(
            EvalResultV::Boolean { value: false, token: t },
        ),
        TokenTypeV::Nil => out == Result::<EvalResultV, Seq<char>>::Ok(
            EvalResultV::Reserved { value: "nil"@, token: t },
        ),
        TokenTypeV::StringLiteral => out == Result::<EvalResultV, Seq<char>>::Ok(
            EvalResultV::Str { value: t.s, token: t },
        ),
        TokenTypeV::Number(_) => out matches Ok(EvalResultV::Numeric { bits: _, token: t2 }) && t2
            == t,
        _ => out == Result::<EvalResultV, Seq<char>>::Err(
            rt_msg("Expected a literal value"@, t.ln),
        ),
    }
}

/// How an expression evaluates: `eval_rel(env0, e, out, env1)` holds when
/// evaluating `e` in the environment `env0` can yield `out` and leave the
/// environment `env1`. Sub-expressions evaluate left to right; the first
/// error is returned unchanged and stops the walk; grouping is
/// transparent; assignment writes the innermost binding of its target
/// after its right-hand side has evaluated. The relation leaves open only
/// what the caller-supplied numeric operations decide.
pub open spec fn eval_rel(
    env0: Seq<ScopeV>,
    e: ExpressionV,
    out: Result<EvalResultV, Seq<char>>,
    env1: Seq<ScopeV>,
) -> bool
    decreases e,
{
    match e {
        ExpressionV::Primary(t) => env1 == env0 && primary_rel(t, out),
        ExpressionV::Paren(e1) => eval_rel(env0, *e1, out, env1),
        ExpressionV::UnaryEx(op, e1) => (exists|v: EvalResultV|
            #[trigger] val_to(v, env1) && eval_rel(env0, *e1, Ok(v), env1) && unary_rel(
                op,
                v,
                out,
            )) || (out matches Err(m) && eval_rel(env0, *e1, Err(m), env1)),
        ExpressionV::BinaryEx(l, op, r) => (exists|lv: EvalResultV, mid: Seq<ScopeV>, rv: EvalResultV|
            #[trigger] val_to(lv, mid) && #[trigger] val_to(rv, env1) && eval_rel(
                env0,
                *l,
                Ok(lv),
                mid,
            ) && eval_rel(mid, *r, Ok(rv), env1) && calc_rel(lv, op, rv, out)) || (out matches
        Err(m) && eval_rel(env0, *l, Err(m), env1)) || (out matches Err(m) && exists|
            lv: EvalResultV,
            mid: Seq<ScopeV>,
        |
            #[trigger] val_to(lv, mid) && eval_rel(env0, *l, Ok(lv), mid) && eval_rel(
                mid,
                *r,
                Err(m),
                env1,
            )),
        ExpressionV::Variable(t) => env1 == env0 && match env_get(env0, t.s) {
            Some(v) => out == Result::<EvalResultV, Seq<char>>::Ok(v),
            None => out == Result::<EvalResultV, Seq<char>>::Err(
                rt_msg(undefined_var_msg(t.s), t.ln),
            ),
        },
        ExpressionV::Assign(t, e1) => (exists|v: EvalResultV, mid: Seq<ScopeV>|
            #[trigger] val_to(v, mid) && eval_rel(env0, *e1, Ok(v), mid) && match env_assign(
                mid,
                t.s,
                v,
            ) {
                Some(e2) => env1 == e2 && out == Result::<EvalResultV, Seq<char>>::Ok(v),
                None => env1 == mid && out == Result::<EvalResultV, Seq<char>>::Err(
                    rt_msg(undefined_var_msg(t.s), t.ln),
                ),
            }) || (out matches Err(m) && eval_rel(env0, *e1, Err(m), env1)),
        ExpressionV::Invalid(se) => env1 == env0 && out == Result::<EvalResultV, Seq<char>>::Err(
            invalid_expr_msg(se),
        ),
    }
}

/// How a statement evaluates: a print statement yields the printed value,
/// an expression statement its value, a block the results of its
/// declarations run in a fresh innermost scope that is dropped afterwards
/// whether or not one of them fails; an expression error is returned
/// unchanged, and a parse-time invalid statement is a runtime error.
pub open spec fn stmt_rel(
    env0: Seq<ScopeV>,
    s: StmtV,
    out: Result<StatementEvalResultV, Seq<char>>,
    env1: Seq<ScopeV>,
) -> bool
    decreases s,
{
    match s {
        StmtV::Print(e) => (exists|v: EvalResultV|
            #[trigger] val_to(v, env1) && eval_rel(env0, e, Ok(v), env1) && out == Result::<
                StatementEvalResultV,
                Seq<char>,
            >::Ok(StatementEvalResultV::Print(v))) || (out matches Err(m) && eval_rel(
            env0,
            e,
            Err(m),
            env1,
        )),
        StmtV::Expression(e) => (exists|v: EvalResultV|
            #[trigger] val_to(v, env1) && eval_rel(env0, e, Ok(v), env1) && out == Result::<
                StatementEvalResultV,
                Seq<char>,
            >::Ok(StatementEvalResultV::Expr(v))) || (out matches Err(m) && eval_rel(
            env0,
            e,
            Err(m),
            env1,
        )),
        StmtV::Block(ds) => (exists|outs: Seq<StatementEvalResultV>, mid: Seq<ScopeV>|
            #[trigger] outs_to(outs, mid) && decls_rel(
                env0.push(Seq::<(Seq<char>, EvalResultV)>::empty()),
                ds,
                outs,
                None,
                mid,
            ) && env1 == mid.drop_last() && out == Result::<StatementEvalResultV, Seq<char>>::Ok(
                StatementEvalResultV::Block(outs),
            )) || (out matches Err(m) && exists|outs: Seq<StatementEvalResultV>, mid: Seq<ScopeV>|
            #[trigger] outs_to(outs, mid) && decls_rel(
                env0.push(Seq::<(Seq<char>, EvalResultV)>::empty()),
                ds,
                outs,
                Some(m),
                mid,
            ) && env1 == mid.drop_last()),
        StmtV::Invalid(se) => env1 == env0 && out == Result::<
            StatementEvalResultV,
            Seq<char>,
        >::Err(invalid_expr_msg(se)),
    }
}

/// How a sequence of declarations evaluates, in order from `env0`: `outs`
/// are the results of the declarations evaluated so far; when `err` is
/// absent every declaration was evaluated, and when it holds a message,
/// declaration `outs.len()` failed with it and the ones after it were not
/// evaluated at all; `env1` is the environment where the run stopped.
pub open spec fn decls_rel(
    env0: Seq<ScopeV>,
    ds: Seq<DeclV>,
    outs: Seq<StatementEvalResultV>,
    err: Option<Seq<char>>,
    env1: Seq<ScopeV>,
) -> bool
    decreases ds,
{
    if ds.len() == 0 {
        outs.len() == 0 && err is None && env1 == env0
    } else {
        (exists|r: StatementEvalResultV, mid: Seq<ScopeV>|
            #[trigger] step_to(r, mid) && decl_rel(env0, ds[0], Ok(r), mid) && outs.len() >= 1
                && outs[0] == r && decls_rel(
                mid,
                ds.subrange(1, ds.len() as int),
                outs.subrange(1, outs.len() as int),
                err,
                env1,
            )) || (err matches Some(m) && outs.len() == 0 && decl_rel(env0, ds[0], Err(m), env1))
    }
}

/// How one declaration evaluates: a variable declaration evaluates its
/// initializer (nil when absent), binds the value in the innermost scope
/// and yields it as an expression-statement result; a failing initializer
/// returns its error and binds nothing; a statement follows the statement
/// relation.
pub open spec fn decl_rel(
    env0: Seq<ScopeV>,
    d: DeclV,
    out: Result<StatementEvalResultV, Seq<char>>,
    env1: Seq<ScopeV>,
) -> bool
    decreases d,
{
    match d {
        DeclV::Statement(s) => stmt_rel(env0, s, out, env1),
        DeclV::VarDecl(t, oe) => match oe {
            None => env1 == env_define(env0, t.s, EvalResultV::Nil) && out == Result::<
                StatementEvalResultV,
                Seq<char>,
            >::Ok(StatementEvalResultV::Expr(EvalResultV::Nil)),
            Some(e) => (exists|v: EvalResultV, mid: Seq<ScopeV>|
                #[trigger] val_to(v, mid) && eval_rel(env0, e, Ok(v), mid) && env1 == env_define(
                    mid,
                    t.s,
                    v,
                ) && out
                    == Result::<StatementEvalResultV, Seq<char>>::Ok(
                    StatementEvalResultV::Expr(v),
                )) || (out matches Err(m) && eval_rel(env0, e, Err(m), env1)),
        },
    }
}

/// Grouping is transparent to evaluation: a parenthesized expression
/// evaluates exactly as its inner expression does, in value, error and
/// effect on the environment alike.
pub proof fn lemma_eval_rel_paren(
    env0: Seq<ScopeV>,
    e: ExpressionV,
    out: Result<EvalResultV, Seq<char>>,
    env1: Seq<ScopeV>,
)
    ensures
        eval_rel(env0, ExpressionV::Paren(Box::new(e)), out, env1) <==> eval_rel(
            env0,
            e,
            out,
            env1,
        ),
{
}

/// The model of a result sequence with one more result appended.
pub proof fn lemma_sers_v_push(rs: Seq<StatementEvalResult>, r: StatementEvalResult)
    ensures
        sers_v(rs.push(r)) == sers_v(rs).push(ser_v(&r)),
    decreases rs.len(),
{
    let rs2 = rs.push(r);
    if rs.len() == 0 {
        reveal_with_fuel(sers_v, 3);
        assert(rs2.subrange(1, rs2.len() as int) =~= Seq::<StatementEvalResult>::empty());
        assert(sers_v(rs2) =~= sers_v(rs).push(ser_v(&r)));
    } else {
        assert(rs2[0] == rs[0]);
        assert(rs2.subrange(1, rs2.len() as int) =~= rs.subrange(1, rs.len() as int).push(r));
        lemma_sers_v_push(rs.subrange(1, rs.len() as int), r);
        assert(sers_v(rs2) =~= sers_v(rs).push(ser_v(&r)));
    }
}

/// A run that has not failed extends by one more successful declaration.
pub proof fn lemma_decls_rel_snoc(
    env0: Seq<ScopeV>,
    pre: Seq<DeclV>,
    outs: Seq<StatementEvalResultV>,
    mid: Seq<ScopeV>,
    d: DeclV,
    r: StatementEvalResultV,
    env1: Seq<ScopeV>,
)
    requires
        decls_rel(env0, pre, outs, None, mid),
        decl_rel(mid, d, Ok(r), env1),
    ensures
        decls_rel(env0, pre.push(d), outs.push(r), None, env1),
    decreases pre.len(),
{
    let ds2 = pre.push(d);
    let outs2 = outs.push(r);
    if pre.len() == 0 {
        reveal_with_fuel(decls_rel, 2);
        assert(outs.len() == 0 && mid == env0);
        assert(ds2[0] == d);
        assert(outs2[0] == r);
        assert(ds2.subrange(1, ds2.len() as int) =~= Seq::<DeclV>::empty());
        assert(outs2.subrange(1, outs2.len() as int) =~= Seq::<StatementEvalResultV>::empty());
        assert(decls_rel(
            env1,
            ds2.subrange(1, ds2.len() as int),
            outs2.subrange(1, outs2.len() as int),
            None,
            env1,
        ));
        assert(decl_rel(env0, ds2[0], Ok(r), env1));
        assert(step_to(r, env1));
        assert(decls_rel(env0, ds2, outs2, None, env1));
    } else {
        let (r0, mid0) = choose|r0: StatementEvalResultV, mid0: Seq<ScopeV>|
            #[trigger] step_to(r0, mid0) && decl_rel(env0, pre[0], Ok(r0), mid0) && outs.len() >= 1
                && outs[0] == r0 && decls_rel(
                mid0,
                pre.subrange(1, pre.len() as int),
                outs.subrange(1, outs.len() as int),
                None,
                mid,
            );
        lemma_decls_rel_snoc(
            mid0,
            pre.subrange(1, pre.len() as int),
            outs.subrange(1, outs.len() as int),
            mid,
            d,
            r,
            env1,
        );
        assert(ds2.subrange(1, ds2.len() as int) =~= pre.subrange(1, pre.len() as int).push(d));
        assert(outs2.subrange(1, outs2.len() as int) =~= outs.subrange(
            1,
            outs.len() as int,
        ).push(r));
        assert(ds2[0] == pre[0]);
        assert(outs2[0] == outs[0]);
        assert(decl_rel(env0, ds2[0], Ok(r0), mid0));
        assert(decls_rel(
            mid0,
            ds2.subrange(1, ds2.len() as int),
            outs2.subrange(1, outs2.len() as int),
            None,
            env1,
        ));
        assert(decls_rel(env0, ds2, outs2, None, env1));
    }
}

/// A failing declaration halts the run: the results stop just before it
/// and the declarations after it are not evaluated.
pub proof fn lemma_decls_rel_halt(
    env0: Seq<ScopeV>,
    ds: Seq<DeclV>,
    k: int,
    outs: Seq<StatementEvalResultV>,
    m: Seq<char>,
    mid: Seq<ScopeV>,
    env1: Seq<ScopeV>,
)
    requires
        0 <= k < ds.len(),
        decls_rel(env0, ds.subrange(0, k), outs, None, mid),
        decl_rel(mid, ds[k], Err(m), env1),
    ensures
        decls_rel(env0, ds, outs, Some(m), env1),
    decreases k,
{
    let pre = ds.subrange(0, k);
    if k == 0 {
        assert(pre =~= Seq::<DeclV>::empty());
        assert(outs.len() == 0 && mid == env0);
        assert(decls_rel(env0, ds, outs, Some(m), env1));
    } else {
        let (r0, mid0) = choose|r0: StatementEvalResultV, mid0: Seq<ScopeV>|
            #[trigger] step_to(r0, mid0) && decl_rel(env0, pre[0], Ok(r0), mid0) && outs.len() >= 1
                && outs[0] == r0 && decls_rel(
                mid0,
                pre.subrange(1, pre.len() as int),
                outs.subrange(1, outs.len() as int),
                None,
                mid,
            );
        let tail = ds.subrange(1, ds.len() as int);
        assert(pre.subrange(1, pre.len() as int) =~= tail.subrange(0, k - 1));
        assert(tail[k - 1] == ds[k]);
        lemma_decls_rel_halt(
            mid0,
            tail,
            k - 1,
            outs.subrange(1, outs.len() as int),
            m,
            mid,
            env1,
        );
        assert(pre[0] == ds[0]);
        assert(decl_rel(env0, ds[0], Ok(r0), mid0));
        assert(decls_rel(env0, ds, outs, Some(m), env1));
    }
}

/// The evaluator: it owns the environment the program runs in.
pub struct Evaluator {
    env: Environment,
}

impl Evaluator {
    /// The environment always holds at least one scope.
    pub closed spec fn wf(&self) -> bool {
        self.env.wf() && self.env.view_env().len() >= 1
    }

    /// The model of the current environment.
    pub closed spec fn env_v(&self) -> Seq<crate::environment::ScopeV> {
        self.env.view_env()
    }

    /// A fresh evaluator with an empty outermost scope.
    pub fn new() -> (r: Evaluator)
        ensures
            r.wf(),
            r.env_v() == seq![Seq::<(Seq<char>, EvalResultV)>::empty()],
    {
        Evaluator { env: Environment::new() }
    }

    /// A literal: `true`, `false`, `nil`, a string, or a number, whose
    /// double the numeric operations supply from the lexeme.
    fn eval_primary<N: NumberOps>(&mut self, ops: &N, token: &Token) -> (r: Result<
        EvalResult,
        EvalError,
    >)
        requires
            old(self).wf(),
        ensures
            final(self).wf(),
            final(self).env_v() == old(self).env_v(),
            primary_rel(
                token@,
                match r {
                    Ok(v) => Ok(v@),
                    Err(err) => Err(err.s@),
                },
            ),
    {
        match &token.typ {
            TokenType::True => Ok(EvalResult::of_boolean(true, token)),
            TokenType::False => Ok(EvalResult::of_boolean(false, token)),
            TokenType::Nil => Ok(EvalResult::of_reserved("nil", token)),
            TokenType::StringLiteral => Ok(EvalResult::of_string(token.s.clone(), token)),
            TokenType::Number(_) => {
                let bits = ops.parse_num(token.s.as_str());
                Ok(EvalResult::of_numeric(bits, token))
            },
            _ => runtime_error("Expected a literal value", token.ln),
        }
    }

    /// A variable reference: the bound value, or the undefined-variable
    /// error carrying the reference's line.
    fn eval_variable(&mut self, name: &str, ln: LineNum) -> (r: Result<EvalResult, EvalError>)
        requires
            old(self).wf(),
        ensures
            final(self).wf(),
            final(self).env_v() == old(self).env_v(),
            match r {
                Ok(v) => env_get(old(self).env_v(), name@) == Some(v@),
                Err(e) => env_get(old(self).env_v(), name@) is None && e.s@ == rt_msg(
                    undefined_var_msg(name@),
                    ln,
                ),
            },
    {
        match self.env.get_var(name) {
            Some(v) => Ok(v),
            None => {
                let msg = undefined_var_string(name);
                runtime_error(msg.as_str(), ln)
            },
        }
    }

    /// An assignment: the value is computed, the innermost binding of the
    /// name is rewritten, and the value is handed back; an unbound name is
    /// the undefined-variable error.
    fn eval_assign<N: NumberOps>(&mut self, ops: &N, t: &Token, e: &Expression) -> (r: Result<
        EvalResult,
        EvalError,
    >)
        requires
            old(self).wf(),
        ensures
            final(self).wf(),
            final(self).env_v().len() == old(self).env_v().len(),
            eval_rel(
                old(self).env_v(),
                ExpressionV::Assign(t@, Box::new(e@)),
                match r {
                    Ok(v) => Ok(v@),
                    Err(err) => Err(err.s@),
                },
                final(self).env_v(),
            ),
        decreases e, 1int,
    {
        let ghost env0 = self.env_v();
        match self.eval_expr(ops, e) {
            Ok(v) => {
                let vc = v.clone();
                let ghost vg = v@;
                let ghost mid = self.env_v();
                if self.env.assign(t.s.as_str(), v) {
                    proof {
                        crate::environment::lemma_env_assign_len(mid, t.s@, vg);
                        assert(val_to(vg, mid));
                        assert(eval_rel(env0, e@, Ok(vg), mid));
                        assert(eval_rel(
                            env0,
                            ExpressionV::Assign(t@, Box::new(e@)),
                            Ok(vg),
                            self.env_v(),
                        ));
                    }
                    Ok(vc)
                } else {
                    let msg = undefined_var_string(t.s.as_str());
                    let r = runtime_error(msg.as_str(), t.ln);
                    proof {
                        assert(val_to(vg, mid));
                        assert(eval_rel(env0, e@, Ok(vg), mid));
                        assert(eval_rel(
                            env0,
                            ExpressionV::Assign(t@, Box::new(e@)),
                            Err(rt_msg(undefined_var_msg(t.s@), t.ln)),
                            self.env_v(),
                        ));
                    }
                    r
                }
            },
            Err(e2) => {
                proof {
                    assert(eval_rel(env0, e@, Err(e2.s@), self.env_v()));
                }
                Err(e2)
            },
        }
    }

    /// One expression, evaluated in the current environment. Parse-time
    /// invalid nodes surface here as runtime errors.
    pub fn eval_expr<N: NumberOps>(&mut self, ops: &N, e: &Expression) -> (r: Result<
        EvalResult,
        EvalError,
    >)
        requires
            old(self).wf(),
        ensures
            final(self).wf(),
            final(self).env_v().len() == old(self).env_v().len(),
            eval_rel(
                old(self).env_v(),
                e@,
                match r {
                    Ok(v) => Ok(v@),
                    Err(err) => Err(err.s@),
                },
                final(self).env_v(),
            ),
        decreases e, 0int,
    {
        let ghost env0 = self.env_v();
        match e {
            Expression::Primary(t) => self.eval_primary(ops, t),
            Expression::Paren(e1) => self.eval_expr(ops, e1),
            Expression::UnaryEx(op, e1) => {
                match self.eval_expr(ops, e1) {
                    Ok(v) => {
                        let ghost vg = v@;
                        let ghost mid = self.env_v();
                        let r = eval_unary_value(ops, op, v);
                        proof {
                            assert(val_to(vg, mid));
                            assert(eval_rel(env0, e1@, Ok(vg), mid));
                            assert(eval_rel(
                                env0,
                                e@,
                                match r {
                                    Ok(v2) => Ok(v2@),
                                    Err(err) => Err(err.s@),
                                },
                                self.env_v(),
                            ));
                        }
                        r
                    },
                    Err(err) => {
                        proof {
                            assert(eval_rel(env0, e1@, Err(err.s@), self.env_v()));
                        }
                        Err(err)
                    },
                }
            },
            Expression::BinaryEx(l, op, r2) => {
                match self.eval_expr(ops, l) {
                    Ok(lv) => {
                        let ghost lvg = lv@;
                        let ghost midg = self.env_v();
                        match self.eval_expr(ops, r2) {
                            Ok(rv) => {
                                let ghost rvg = rv@;
                                let ghost mid2g = self.env_v();
                                let r = calculate(ops, lv, op, rv);
                                proof {
                                    assert(val_to(lvg, midg));
                                    assert(val_to(rvg, mid2g));
                                    assert(eval_rel(env0, l@, Ok(lvg), midg));
                                    assert(eval_rel(midg, r2@, Ok(rvg), mid2g));
                                    assert(eval_rel(
                                        env0,
                                        e@,
                                        match r {
                                            Ok(v2) => Ok(v2@),
                                            Err(err) => Err(err.s@),
                                        },
                                        self.env_v(),
                                    ));
                                }
                                r
                            },
                            Err(err) => {
                                proof {
                                    assert(val_to(lvg, midg));
                                    assert(eval_rel(env0, l@, Ok(lvg), midg));
                                    assert(eval_rel(midg, r2@, Err(err.s@), self.env_v()));
                                    assert(eval_rel(env0, e@, Err(err.s@), self.env_v()));
                                }
                                Err(err)
                            },
                        }
                    },
                    Err(err) => {
                        proof {
                            assert(eval_rel(env0, l@, Err(err.s@), self.env_v()));
                        }
                        Err(err)
                    },
                }
            },
            Expression::Variable(t) => self.eval_variable(t.s.as_str(), t.ln),
            Expression::Assign(t, e1) => self.eval_assign(ops, t, e1),
            Expression::Invalid(se) => {
                let mut msg = String::from_str("Invalid expression: ");
                let rendered = se.render();
                msg.append(rendered.as_str());
                Err(EvalError::new(msg))
            },
        }
    }

    /// One statement: a print statement yields the printed value, an
    /// expression statement its value, a block the results of its
    /// declarations, run in a fresh innermost scope that is torn down
    /// afterwards.
    #[verifier::loop_isolation(false)]
    fn eval_stmt<N: NumberOps>(&mut self, ops: &N, s: &Stmt) -> (r: Result<
        StatementEvalResult,
        EvalError,
    >)
        requires
            old(self).wf(),
        ensures
            final(self).wf(),
            final(self).env_v().len() == old(self).env_v().len(),
            stmt_rel(
                old(self).env_v(),
                s@,
                match r {
                    Ok(sr) => Ok(ser_v(&sr)),
                    Err(err) => Err(err.s@),
                },
                final(self).env_v(),
            ),
        decreases s,
    {
        let ghost env0 = self.env_v();
        match s {
            Stmt::Print(e) => match self.eval_expr(ops, e) {
                Ok(v) => {
                    proof {
                        assert(val_to(v@, self.env_v()));
                        assert(eval_rel(env0, e@, Ok(v@), self.env_v()));
                    }
                    Ok(StatementEvalResult::PrintStatementResult(v))
                },
                Err(err) => {
                    proof {
                        assert(eval_rel(env0, e@, Err(err.s@), self.env_v()));
                    }
                    Err(err)
                },
            },
            Stmt::Expression(e) => match self.eval_expr(ops, e) {
                Ok(v) => {
                    proof {
                        assert(val_to(v@, self.env_v()));
                        assert(eval_rel(env0, e@, Ok(v@), self.env_v()));
                    }
                    Ok(StatementEvalResult::ExpressionStatementResult(v))
                },
                Err(err) => {
                    proof {
                        assert(eval_rel(env0, e@, Err(err.s@), self.env_v()));
                    }
                    Err(err)
                },
            },
            Stmt::Block(ds) => {
                self.env.push_scope();
                let ghost env_start = self.env_v();
                let mut results: Vec<StatementEvalResult> = Vec::new();
                let mut k: usize = 0;
                let n = ds.len();
                proof {
                    crate::parser::lemma_decls_v_len(ds@);
                    assert(crate::parser::decls_v(ds@).subrange(0, 0) =~= Seq::<DeclV>::empty());
                }
                while k < n
                    invariant
                        self.wf(),
                        k <= n,
                        n == ds@.len(),
                        crate::parser::decls_v(ds@).len() == n,
                        self.env_v().len() == old(self).env_v().len() + 1,
                        env_start == env0.push(Seq::<(Seq<char>, EvalResultV)>::empty()),
                        decls_rel(
                            env_start,
                            crate::parser::decls_v(ds@).subrange(0, k as int),
                            sers_v(results@),
                            None,
                            self.env_v(),
                        ),
                    decreases n - k,
                {
                    proof {
                        vstd::std_specs::vec::axiom_vec_index_decreases(*ds, k as int);
                        crate::parser::lemma_decls_v_index(ds@, k as int);
                    }
                    let ghost cur = self.env_v();
                    let ghost outs_g = sers_v(results@);
                    match self.eval_decls(ops, &ds[k]) {
                        Ok(one) => {
                            proof {
                                lemma_decls_rel_snoc(
                                    env_start,
                                    crate::parser::decls_v(ds@).subrange(0, k as int),
                                    outs_g,
                                    cur,
                                    crate::parser::decls_v(ds@)[k as int],
                                    ser_v(&one),
                                    self.env_v(),
                                );
                                lemma_sers_v_push(results@, one);
                                assert(crate::parser::decls_v(ds@).subrange(0, k as int + 1)
                                    =~= crate::parser::decls_v(ds@).subrange(0, k as int).push(
                                    crate::parser::decls_v(ds@)[k as int],
                                ));
                            }
                            results.push(one);
                        },
                        Err(err) => {
                            proof {
                                lemma_decls_rel_halt(
                                    env_start,
                                    crate::parser::decls_v(ds@),
                                    k as int,
                                    outs_g,
                                    err.s@,
                                    cur,
                                    self.env_v(),
                                );
                            }
                            let ghost before_pop = self.env_v();
                            self.env.pop_scope();
                            proof {
                                assert(outs_to(outs_g, before_pop));
                                assert(decls_rel(
                                    env_start,
                                    crate::parser::decls_v(ds@),
                                    outs_g,
                                    Some(err.s@),
                                    before_pop,
                                ));
                                assert(self.env_v() == before_pop.drop_last());
                            }
                            return Err(err);
                        },
                    }
                    k = k + 1;
                }
                let ghost before_pop = self.env_v();
                self.env.pop_scope();
                proof {
                    assert(crate::parser::decls_v(ds@).subrange(0, n as int)
                        =~= crate::parser::decls_v(ds@));
                    assert(outs_to(sers_v(results@), before_pop));
                    assert(decls_rel(
                        env_start,
                        crate::parser::decls_v(ds@),
                        sers_v(results@),
                        None,
                        before_pop,
                    ));
                    assert(self.env_v() == before_pop.drop_last());
                }
                Ok(StatementEvalResult::BlockResult(results))
            },
            Stmt::Invalid(se) => {
                let mut msg = String::from_str("Invalid expression: ");
                let rendered = se.render();
                msg.append(rendered.as_str());
                Err(EvalError::new(msg))
            },
        }
    }

    /// One declaration: a variable declaration evaluates its initializer
    /// (nil when absent) and binds it in the innermost scope; a statement
    /// evaluates as a statement.
    pub fn eval_decls<N: NumberOps>(&mut self, ops: &N, d: &Decl) -> (r: Result<
        StatementEvalResult,
        EvalError,
    >)
        requires
            old(self).wf(),
        ensures
            final(self).wf(),
            final(self).env_v().len() == old(self).env_v().len(),
            decl_rel(
                old(self).env_v(),
                d@,
                match r {
                    Ok(sr) => Ok(ser_v(&sr)),
                    Err(err) => Err(err.s@),
                },
                final(self).env_v(),
            ),
        decreases d,
    {
        let ghost env0 = self.env_v();
        match d {
            Decl::Statement(s) => self.eval_stmt(ops, s),
            Decl::VarDecl(t, oe) => {
                match oe {
                    None => {
                        let bound = self.env.define(t.s.clone(), EvalResult::Nil);
                        proof {
                            assert(self.env_v() == env_define(env0, t.s@, EvalResultV::Nil));
                            assert(self.env_v().len() == env0.len());
                        }
                        Ok(StatementEvalResult::ExpressionStatementResult(bound))
                    },
                    Some(e) => match self.eval_expr(ops, e) {
                        Ok(v) => {
                            let ghost vg = v@;
                            let ghost mid = self.env_v();
                            let bound = self.env.define(t.s.clone(), v);
                            proof {
                                assert(val_to(vg, mid));
                                assert(eval_rel(env0, e@, Ok(vg), mid));
                                assert(self.env_v() == env_define(mid, t.s@, vg));
                                assert(self.env_v().len() == mid.len());
                            }
                            Ok(StatementEvalResult::ExpressionStatementResult(bound))
                        },
                        Err(err) => {
                            proof {
                                assert(eval_rel(env0, e@, Err(err.s@), self.env_v()));
                            }
                            Err(err)
                        },
                    },
                }
            },
        }
    }

    /// The whole program, top to bottom: the results of the declarations
    /// evaluated so far, and, when one of them fails, the single error
    /// that halted evaluation. There is never both a full result sequence
    /// and an error.
    #[verifier::loop_isolation(false)]
    pub fn eval<N: NumberOps>(&mut self, ops: &N, p: &crate::parser::Program) -> (r: (
        Vec<StatementEvalResult>,
        Option<EvalError>,
    ))
        requires
            old(self).wf(),
        ensures
            final(self).wf(),
            decls_rel(
                old(self).env_v(),
                p@,
                sers_v(r.0@),
                match r.1 {
                    Some(err) => Some(err.s@),
                    None => None::<Seq<char>>,
                },
                final(self).env_v(),
            ),
            r.1 is None ==> r.0@.len() == p.declarations@.len(),
            r.1 is Some ==> r.0@.len() < p.declarations@.len(),
    {
        let ghost env0 = self.env_v();
        let mut results: Vec<StatementEvalResult> = Vec::new();
        let mut k: usize = 0;
        let n = p.declarations.len();
        proof {
            crate::parser::lemma_decls_v_len(p.declarations@);
            assert(p@.subrange(0, 0) =~= Seq::<DeclV>::empty());
        }
        while k < n
            invariant
                self.wf(),
                n == p.declarations@.len(),
                p@.len() == n,
                k <= n,
                results@.len() == k,
                decls_rel(env0, p@.subrange(0, k as int), sers_v(results@), None, self.env_v()),
            decreases n - k,
        {
            proof {
                crate::parser::lemma_decls_v_index(p.declarations@, k as int);
            }
            let ghost cur = self.env_v();
            let ghost outs_g = sers_v(results@);
            match self.eval_decls(ops, &p.declarations[k]) {
                Ok(one) => {
                    proof {
                        lemma_decls_rel_snoc(
                            env0,
                            p@.subrange(0, k as int),
                            outs_g,
                            cur,
                            p@[k as int],
                            ser_v(&one),
                            self.env_v(),
                        );
                        lemma_sers_v_push(results@, one);
                        assert(p@.subrange(0, k as int + 1) =~= p@.subrange(0, k as int).push(
                            p@[k as int],
                        ));
                    }
                    results.push(one);
                },
                Err(err) => {
                    proof {
                        lemma_decls_rel_halt(
                            env0,
                            p@,
                            k as int,
                            outs_g,
                            err.s@,
                            cur,
                            self.env_v(),
                        );
                    }
                    return (results, Some(err));
                },
            }
            k = k + 1;
        }
        proof {
            assert(p@.subrange(0, n as int) =~= p@);
        }
        (results, None)
    }
}

/// The undefined-variable message, without the line suffix.
pub open spec fn undefined_var_msg(name: Seq<char>) -> Seq<char> {
    "Undefined variable '"@ + name + "'."@
}

/// The message a parse-time invalid node carries into evaluation.
pub open spec fn invalid_expr_msg(se: crate::parser::SyntaxErrV) -> Seq<char> {
    "Invalid expression: "@ + crate::parser::syntax_err_text(se)
}

/// The undefined-variable message (executable form).
pub fn undefined_var_string(name: &str) -> (r: String)
    ensures
        r@ == undefined_var_msg(name@),
{
    let mut s = String::from_str("Undefined variable '");
    s.append(name);
    s.append("'.");
    s
}

/// A statement-result sequence model has the sequence's length.
pub proof fn lemma_sers_v_len(rs: Seq<StatementEvalResult>)
    ensures
        sers_v(rs).len() == rs.len(),
    decreases rs.len(),
{
    if rs.len() > 0 {
        lemma_sers_v_len(rs.subrange(1, rs.len() as int));
    }
}

/// Element `k` of a statement-result sequence model is the model of
/// element `k`.
pub proof fn lemma_sers_v_index(rs: Seq<StatementEvalResult>, k: int)
    requires
        0 <= k < rs.len(),
    ensures
        sers_v(rs).len() == rs.len(),
        sers_v(rs)[k] == ser_v(&rs[k]),
    decreases rs.len(),
{
    lemma_sers_v_len(rs);
    if k > 0 {
        lemma_sers_v_index(rs.subrange(1, rs.len() as int), k - 1);
    }
}

} // verus!
