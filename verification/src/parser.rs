//! The abstract syntax tree and the recursive-descent parser with
//! precedence climbing.
//!
//! The mathematical model is a family of spec functions, one per grammar
//! level, each taking the token stream and a position and giving back the
//! parsed node and the next position. The executable parser is proved to
//! return exactly the model's result. Syntax errors become invalid nodes
//! carrying the offending token and a structured reason; the parser never
//! discards tokens to resynchronize.

use vstd::prelude::*;

use crate::token::{LexicalError, Token, TokenType, TokenTypeV, TokenV};

verus! {

/// A binary operator.
#[derive(Debug, Clone, PartialEq, Eq, Structural)]
pub enum Binary {
    Plus,
    Minus,
    Divide,
    Multiply,
    Less,
    LessEqual,
    Greater,
    GreaterEqual,
    EqualEqual,
    NotEqual,
}

/// A unary operator.
#[derive(Debug, Clone, PartialEq, Eq, Structural)]
pub enum Unary {
    Minus,
    Not,
}

/// The reason a stretch of tokens failed to parse.
#[derive(Debug, Clone, PartialEq, Eq, Structural)]
pub enum ErrMsg {
    /// A grouping was not closed by a right parenthesis.
    ExpectedRightParen,
    /// A primary expression was expected and something else stood there.
    ExpectedPrimary,
    /// The left-hand side of an assignment is not a bare variable.
    InvalidAssignmentTarget,
    /// `var` was not followed by an identifier.
    ExpectVarName,
    /// A variable declaration was not closed by a semicolon.
    ExpectVarSemicolon,
    /// A block was not closed by a right brace.
    ExpectRightBrace,
    /// A lexical error token surfaced while parsing.
    Lexical(LexicalError),
}

/// A syntax error: the token it was detected at, and the reason.
#[derive(Debug, Clone)]
pub struct SyntaxErr {
    /// The offending token; its line locates the error.
    pub at: Token,
    /// The reason.
    pub msg: ErrMsg,
}

/// An expression node.
#[derive(Debug)]
pub enum Expression {
    Primary(Token),
    BinaryEx(Box<Expression>, Binary, Box<Expression>),
    UnaryEx(Unary, Box<Expression>),
    Paren(Box<Expression>),
    Variable(Token),
    Assign(Token, Box<Expression>),
    Invalid(SyntaxErr),
}

/// A statement node.
#[derive(Debug)]
pub enum Stmt {
    Print(Expression),
    Expression(Expression),
    Block(Vec<Decl>),
    Invalid(SyntaxErr),
}

/// A declaration: a variable binding or a statement.
#[derive(Debug)]
pub enum Decl {
    VarDecl(Token, Option<Expression>),
    Statement(Stmt),
}

/// A program: the ordered declarations of the source text.
#[derive(Debug)]
pub struct Program {
    pub declarations: Vec<Decl>,
}

/// The mathematical model of a syntax error.
pub ghost struct SyntaxErrV {
    pub at: TokenV,
    pub msg: ErrMsg,
}

/// The mathematical model of an expression.
pub ghost enum ExpressionV {
    Primary(TokenV),
    BinaryEx(Box<ExpressionV>, Binary, Box<ExpressionV>),
    UnaryEx(Unary, Box<ExpressionV>),
    Paren(Box<ExpressionV>),
    Variable(TokenV),
    Assign(TokenV, Box<ExpressionV>),
    Invalid(SyntaxErrV),
}

/// The mathematical model of a statement.
pub ghost enum StmtV {
    Print(ExpressionV),
    Expression(ExpressionV),
    Block(Seq<DeclV>),
    Invalid(SyntaxErrV),
}

/// The mathematical model of a declaration.
pub ghost enum DeclV {
    VarDecl(TokenV, Option<ExpressionV>),
    Statement(StmtV),
}

impl View for SyntaxErr {
    type V = SyntaxErrV;

    open spec fn view(&self) -> SyntaxErrV {
        SyntaxErrV { at: self.at@, msg: self.msg }
    }
}

/// The model of an expression node.
pub open spec fn expr_v(e: &Expression) -> ExpressionV
    decreases e,
{
    match e {
        Expression::Primary(t) => ExpressionV::Primary(t@),
        Expression::BinaryEx(l, op, r) => ExpressionV::BinaryEx(
            Box::new(expr_v(l)),
            *op,
            Box::new(expr_v(r)),
        ),
        Expression::UnaryEx(op, e1) => ExpressionV::UnaryEx(*op, Box::new(expr_v(e1))),
        Expression::Paren(e1) => ExpressionV::Paren(Box::new(expr_v(e1))),
        Expression::Variable(t) => ExpressionV::Variable(t@),
        Expression::Assign(t, e1) => ExpressionV::Assign(t@, Box::new(expr_v(e1))),
        Expression::Invalid(s) => ExpressionV::Invalid(s@),
    }
}

/// The model of a statement node.
pub open spec fn stmt_v(s: &Stmt) -> StmtV
    decreases s,
{
    match s {
        Stmt::Print(e) => StmtV::Print(expr_v(e)),
        Stmt::Expression(e) => StmtV::Expression(expr_v(e)),
        Stmt::Block(ds) => StmtV::Block(decls_v(ds@)),
        Stmt::Invalid(se) => StmtV::Invalid(se@),
    }
}

/// The model of a sequence of declaration nodes.
pub open spec fn decls_v(ds: Seq<Decl>) -> Seq<DeclV>
    decreases ds,
{
    if ds.len() == 0 {
        Seq::empty()
    } else {
        seq![decl_v(&ds[0])] + decls_v(ds.subrange(1, ds.len() as int))
    }
}

/// The model of a declaration node.
pub open spec fn decl_v(d: &Decl) -> DeclV
    decreases d,
{
    match d {
        Decl::VarDecl(t, oe) => DeclV::VarDecl(
            t@,
            match oe {
                Some(e) => Some(expr_v(e)),
                None => None,
            },
        ),
        Decl::Statement(s) => DeclV::Statement(stmt_v(s)),
    }
}

impl View for Expression {
    type V = ExpressionV;

    open spec fn view(&self) -> ExpressionV {
        expr_v(self)
    }
}

impl View for Stmt {
    type V = StmtV;

    open spec fn view(&self) -> StmtV {
        stmt_v(self)
    }
}

impl View for Decl {
    type V = DeclV;

    open spec fn view(&self) -> DeclV {
        decl_v(self)
    }
}

impl View for Program {
    type V = Seq<DeclV>;

    open spec fn view(&self) -> Seq<DeclV> {
        decls_v(self.declarations@)
    }
}

/// Whether an expression holds no invalid node.
pub open spec fn expr_valid(e: ExpressionV) -> bool
    decreases e,
{
    match e {
        ExpressionV::Primary(_) => true,
        ExpressionV::BinaryEx(l, _, r) => expr_valid(*l) && expr_valid(*r),
        ExpressionV::UnaryEx(_, e1) => expr_valid(*e1),
        ExpressionV::Paren(e1) => expr_valid(*e1),
        ExpressionV::Variable(_) => true,
        ExpressionV::Assign(_, e1) => expr_valid(*e1),
        ExpressionV::Invalid(_) => false,
    }
}

/// Whether a statement holds no invalid node.
pub open spec fn stmt_valid(s: StmtV) -> bool
    decreases s,
{
    match s {
        StmtV::Print(e) => expr_valid(e),
        StmtV::Expression(e) => expr_valid(e),
        StmtV::Block(ds) => decls_valid(ds),
        StmtV::Invalid(_) => false,
    }
}

/// Whether every declaration of a sequence holds no invalid node.
pub open spec fn decls_valid(ds: Seq<DeclV>) -> bool
    decreases ds,
{
    if ds.len() == 0 {
        true
    } else {
        decl_valid(ds[0]) && decls_valid(ds.subrange(1, ds.len() as int))
    }
}

/// Whether a declaration holds no invalid node.
pub open spec fn decl_valid(d: DeclV) -> bool
    decreases d,
{
    match d {
        DeclV::VarDecl(_, oe) => match oe {
            Some(e) => expr_valid(e),
            None => true,
        },
        DeclV::Statement(s) => stmt_valid(s),
    }
}

/// A usable token stream: nonempty, ending in the end-of-input token.
pub open spec fn t_wf(ts: Seq<TokenV>) -> bool {
    ts.len() >= 1 && ts.last().typ is Eof
}

/// One position forward, stopping at the last token.
pub open spec fn s_adv(ts: Seq<TokenV>, i: int) -> int {
    if i + 1 < ts.len() {
        i + 1
    } else {
        i
    }
}

/// `j` clamped into the valid positions at or after `lo`.
pub open spec fn in_pos(ts: Seq<TokenV>, j: int, lo: int) -> int {
    if j < lo {
        lo
    } else if j > ts.len() - 1 {
        ts.len() - 1
    } else {
        j
    }
}

/// The primary level: literals, grouping, variable references; anything
/// else is an invalid expression, and the offending token is consumed.
#[verifier::opaque]
pub open spec fn spec_primary(ts: Seq<TokenV>, i: int) -> (ExpressionV, int)
    decreases ts.len() - i, 1int,
    when t_wf(ts) && 0 <= i < ts.len()
{
    let t = ts[i];
    match t.typ {
        TokenTypeV::Number(_) => (ExpressionV::Primary(t), s_adv(ts, i)),
        TokenTypeV::StringLiteral => (ExpressionV::Primary(t), s_adv(ts, i)),
        TokenTypeV::True => (ExpressionV::Primary(t), s_adv(ts, i)),
        TokenTypeV::False => (ExpressionV::Primary(t), s_adv(ts, i)),
        TokenTypeV::Nil => (ExpressionV::Primary(t), s_adv(ts, i)),
        TokenTypeV::LeftParen => {
            let r = spec_expression(ts, s_adv(ts, i));
            let j = in_pos(ts, r.1, s_adv(ts, i));
            if ts[j].typ is RightParen {
                (ExpressionV::Paren(Box::new(r.0)), s_adv(ts, j))
            } else {
                (
                    ExpressionV::Invalid(SyntaxErrV { at: t, msg: ErrMsg::ExpectedRightParen }),
                    s_adv(ts, j),
                )
            }
        },
        TokenTypeV::Identifier => (ExpressionV::Variable(t), s_adv(ts, i)),
        TokenTypeV::Unknown(le) => (
            ExpressionV::Invalid(SyntaxErrV { at: t, msg: ErrMsg::Lexical(le) }),
            s_adv(ts, i),
        ),
        _ => (
            ExpressionV::Invalid(SyntaxErrV { at: t, msg: ErrMsg::ExpectedPrimary }),
            s_adv(ts, i),
        ),
    }
}

/// The unary level: `!` and `-` bind right-associatively by recursion.
#[verifier::opaque]
pub open spec fn spec_unary(ts: Seq<TokenV>, i: int) -> (ExpressionV, int)
    decreases ts.len() - i, 2int,
    when t_wf(ts) && 0 <= i < ts.len()
{
    match ts[i].typ {
        TokenTypeV::Bang => {
            let r = spec_unary(ts, s_adv(ts, i));
            (ExpressionV::UnaryEx(Unary::Not, Box::new(r.0)), r.1)
        },
        TokenTypeV::Minus => {
            let r = spec_unary(ts, s_adv(ts, i));
            (ExpressionV::UnaryEx(Unary::Minus, Box::new(r.0)), r.1)
        },
        _ => spec_primary(ts, i),
    }
}

/// The left fold of `* /` operands onto `e`.
#[verifier::opaque]
pub open spec fn spec_factor_tail(ts: Seq<TokenV>, i: int, e: ExpressionV) -> (ExpressionV, int)
    decreases ts.len() - i, 3int,
    when t_wf(ts) && 0 <= i < ts.len()
{
    match ts[i].typ {
        TokenTypeV::Slash => {
            let r = spec_unary(ts, s_adv(ts, i));
            let j = in_pos(ts, r.1, s_adv(ts, i));
            spec_factor_tail(
                ts,
                j,
                ExpressionV::BinaryEx(Box::new(e), Binary::Divide, Box::new(r.0)),
            )
        },
        TokenTypeV::Star => {
            let r = spec_unary(ts, s_adv(ts, i));
            let j = in_pos(ts, r.1, s_adv(ts, i));
            spec_factor_tail(
                ts,
                j,
                ExpressionV::BinaryEx(Box::new(e), Binary::Multiply, Box::new(r.0)),
            )
        },
        _ => (e, i),
    }
}

/// The factor level: unary operands folded left over `* /`.
#[verifier::opaque]
pub open spec fn spec_factor(ts: Seq<TokenV>, i: int) -> (ExpressionV, int)
    decreases ts.len() - i, 4int,
    when t_wf(ts) && 0 <= i < ts.len()
{
    let r = spec_unary(ts, i);
    spec_factor_tail(ts, in_pos(ts, r.1, i), r.0)
}

/// The left fold of `+ -` operands onto `e`.
#[verifier::opaque]
pub open spec fn spec_term_tail(ts: Seq<TokenV>, i: int, e: ExpressionV) -> (ExpressionV, int)
    decreases ts.len() - i, 5int,
    when t_wf(ts) && 0 <= i < ts.len()
{
    match ts[i].typ {
        TokenTypeV::Minus => {
            let r = spec_factor(ts, s_adv(ts, i));
            let j = in_pos(ts, r.1, s_adv(ts, i));
            spec_term_tail(ts, j, ExpressionV::BinaryEx(Box::new(e), Binary::Minus, Box::new(r.0)))
        },
        TokenTypeV::Plus => {
            let r = spec_factor(ts, s_adv(ts, i));
            let j = in_pos(ts, r.1, s_adv(ts, i));
            spec_term_tail(ts, j, ExpressionV::BinaryEx(Box::new(e), Binary::Plus, Box::new(r.0)))
        },
        _ => (e, i),
    }
}

/// The term level: factors folded left over `+ -`.
#[verifier::opaque]
pub open spec fn spec_term(ts: Seq<TokenV>, i: int) -> (ExpressionV, int)
    decreases ts.len() - i, 6int,
    when t_wf(ts) && 0 <= i < ts.len()
{
    let r = spec_factor(ts, i);
    spec_term_tail(ts, in_pos(ts, r.1, i), r.0)
}

/// The left fold of `< <= > >=` operands onto `e`.
#[verifier::opaque]
pub open spec fn spec_cmp_tail(ts: Seq<TokenV>, i: int, e: ExpressionV) -> (ExpressionV, int)
    decreases ts.len() - i, 7int,
    when t_wf(ts) && 0 <= i < ts.len()
{
    match ts[i].typ {
        TokenTypeV::Greater => {
            let r = spec_term(ts, s_adv(ts, i));
            let j = in_pos(ts, r.1, s_adv(ts, i));
            spec_cmp_tail(ts, j, ExpressionV::BinaryEx(Box::new(e), Binary::Greater, Box::new(r.0)))
        },
        TokenTypeV::GreaterEqual => {
            let r = spec_term(ts, s_adv(ts, i));
            let j = in_pos(ts, r.1, s_adv(ts, i));
            spec_cmp_tail(
                ts,
                j,
                ExpressionV::BinaryEx(Box::new(e), Binary::GreaterEqual, Box::new(r.0)),
            )
        },
        TokenTypeV::Less => {
            let r = spec_term(ts, s_adv(ts, i));
            let j = in_pos(ts, r.1, s_adv(ts, i));
            spec_cmp_tail(ts, j, ExpressionV::BinaryEx(Box::new(e), Binary::Less, Box::new(r.0)))
        },
        TokenTypeV::LessEqual => {
            let r = spec_term(ts, s_adv(ts, i));
            let j = in_pos(ts, r.1, s_adv(ts, i));
            spec_cmp_tail(
                ts,
                j,
                ExpressionV::BinaryEx(Box::new(e), Binary::LessEqual, Box::new(r.0)),
            )
        },
        _ => (e, i),
    }
}

/// The comparison level: terms folded left over `< <= > >=`.
#[verifier::opaque]
pub open spec fn spec_comparison(ts: Seq<TokenV>, i: int) -> (ExpressionV, int)
    decreases ts.len() - i, 8int,
    when t_wf(ts) && 0 <= i < ts.len()
{
    let r = spec_term(ts, i);
    spec_cmp_tail(ts, in_pos(ts, r.1, i), r.0)
}

/// The left fold of `== !=` operands onto `e`.
#[verifier::opaque]
pub open spec fn spec_eq_tail(ts: Seq<TokenV>, i: int, e: ExpressionV) -> (ExpressionV, int)
    decreases ts.len() - i, 9int,
    when t_wf(ts) && 0 <= i < ts.len()
{
    match ts[i].typ {
        TokenTypeV::BangEqual => {
            let r = spec_comparison(ts, s_adv(ts, i));
            let j = in_pos(ts, r.1, s_adv(ts, i));
            spec_eq_tail(ts, j, ExpressionV::BinaryEx(Box::new(e), Binary::NotEqual, Box::new(r.0)))
        },
        TokenTypeV::EqualEqual => {
            let r = spec_comparison(ts, s_adv(ts, i));
            let j = in_pos(ts, r.1, s_adv(ts, i));
            spec_eq_tail(
                ts,
                j,
                ExpressionV::BinaryEx(Box::new(e), Binary::EqualEqual, Box::new(r.0)),
            )
        },
        _ => (e, i),
    }
}

/// The equality level: comparisons folded left over `== !=`.
#[verifier::opaque]
pub open spec fn spec_equality(ts: Seq<TokenV>, i: int) -> (ExpressionV, int)
    decreases ts.len() - i, 10int,
    when t_wf(ts) && 0 <= i < ts.len()
{
    let r = spec_comparison(ts, i);
    spec_eq_tail(ts, in_pos(ts, r.1, i), r.0)
}

/// The assignment level: an equality, then, on `=`, a recursive assignment
/// whose target must have been a bare variable reference.
#[verifier::opaque]
pub open spec fn spec_assignment(ts: Seq<TokenV>, i: int) -> (ExpressionV, int)
    decreases ts.len() - i, 11int,
    when t_wf(ts) && 0 <= i < ts.len()
{
    let r = spec_equality(ts, i);
    let j = in_pos(ts, r.1, i);
    if ts[j].typ is Equal {
        let r2 = spec_assignment(ts, s_adv(ts, j));
        let e2 = match r.0 {
            ExpressionV::Variable(tok) => ExpressionV::Assign(tok, Box::new(r2.0)),
            _ => ExpressionV::Invalid(
                SyntaxErrV { at: ts[j], msg: ErrMsg::InvalidAssignmentTarget },
            ),
        };
        (e2, r2.1)
    } else {
        r
    }
}

/// The expression level.
#[verifier::opaque]
pub open spec fn spec_expression(ts: Seq<TokenV>, i: int) -> (ExpressionV, int)
    decreases ts.len() - i, 12int,
    when t_wf(ts) && 0 <= i < ts.len()
{
    spec_assignment(ts, i)
}

/// A print statement: `print`, an expression, and an optional semicolon.
#[verifier::opaque]
pub open spec fn spec_print_statement(ts: Seq<TokenV>, i: int) -> (StmtV, int)
    decreases ts.len() - i, 13int,
    when t_wf(ts) && 0 <= i < ts.len()
{
    let r = spec_expression(ts, s_adv(ts, i));
    let j = in_pos(ts, r.1, s_adv(ts, i));
    if ts[j].typ is Semicolon {
        (StmtV::Print(r.0), s_adv(ts, j))
    } else {
        (StmtV::Print(r.0), j)
    }
}

/// An expression statement: an expression and an optional semicolon.
#[verifier::opaque]
pub open spec fn spec_expression_statement(ts: Seq<TokenV>, i: int) -> (StmtV, int)
    decreases ts.len() - i, 13int,
    when t_wf(ts) && 0 <= i < ts.len()
{
    let r = spec_expression(ts, i);
    let j = in_pos(ts, r.1, i);
    if ts[j].typ is Semicolon {
        (StmtV::Expression(r.0), s_adv(ts, j))
    } else {
        (StmtV::Expression(r.0), j)
    }
}

/// The declarations of a block after its opening brace, folded into `acc`;
/// reaching the end of input before the closing brace is a syntax error.
#[verifier::opaque]
pub open spec fn spec_block_tail(ts: Seq<TokenV>, i: int, acc: Seq<DeclV>) -> (StmtV, int)
    decreases ts.len() - i, 16int,
    when t_wf(ts) && 0 <= i < ts.len()
{
    if ts[i].typ is RightBrace {
        (StmtV::Block(acc), s_adv(ts, i))
    } else if i == ts.len() - 1 {
        (StmtV::Invalid(SyntaxErrV { at: ts[i], msg: ErrMsg::ExpectRightBrace }), i)
    } else {
        let r = spec_declaration(ts, i);
        spec_block_tail(ts, in_pos(ts, r.1, s_adv(ts, i)), acc.push(r.0))
    }
}

/// A block: `{`, declarations, `}`.
#[verifier::opaque]
pub open spec fn spec_block(ts: Seq<TokenV>, i: int) -> (StmtV, int)
    decreases ts.len() - i, 13int,
    when t_wf(ts) && 0 <= i < ts.len() && ts[i].typ is LeftBrace
{
    spec_block_tail(ts, s_adv(ts, i), Seq::empty())
}

/// A statement: print, block, or expression statement.
#[verifier::opaque]
pub open spec fn spec_statement(ts: Seq<TokenV>, i: int) -> (StmtV, int)
    decreases ts.len() - i, 14int,
    when t_wf(ts) && 0 <= i < ts.len()
{
    match ts[i].typ {
        TokenTypeV::Print => spec_print_statement(ts, i),
        TokenTypeV::LeftBrace => spec_block(ts, i),
        _ => spec_expression_statement(ts, i),
    }
}

/// A variable declaration: `var`, a name, an optional initializer, and the
/// closing semicolon. A missing name or semicolon yields an invalid
/// initializer carried on the declaration, and the offending token is not
/// consumed.
#[verifier::opaque]
pub open spec fn spec_var_declaration(ts: Seq<TokenV>, i: int) -> (DeclV, int)
    decreases ts.len() - i, 14int,
    when t_wf(ts) && 0 <= i < ts.len()
{
    let j1 = s_adv(ts, i);
    if !(ts[j1].typ is Identifier) {
        (
            DeclV::VarDecl(
                ts[j1],
                Some(
                    ExpressionV::Invalid(SyntaxErrV { at: ts[j1], msg: ErrMsg::ExpectVarName }),
                ),
            ),
            j1,
        )
    } else {
        let ident = ts[j1];
        let j2 = s_adv(ts, j1);
        if ts[j2].typ is Equal {
            let r = spec_expression(ts, s_adv(ts, j2));
            let j3 = in_pos(ts, r.1, s_adv(ts, j2));
            if ts[j3].typ is Semicolon {
                (DeclV::VarDecl(ident, Some(r.0)), s_adv(ts, j3))
            } else {
                (
                    DeclV::VarDecl(
                        ts[j3],
                        Some(
                            ExpressionV::Invalid(
                                SyntaxErrV { at: ts[j3], msg: ErrMsg::ExpectVarSemicolon },
                            ),
                        ),
                    ),
                    j3,
                )
            }
        } else {
            if ts[j2].typ is Semicolon {
                (DeclV::VarDecl(ident, None), s_adv(ts, j2))
            } else {
                (
                    DeclV::VarDecl(
                        ts[j2],
                        Some(
                            ExpressionV::Invalid(
                                SyntaxErrV { at: ts[j2], msg: ErrMsg::ExpectVarSemicolon },
                            ),
                        ),
                    ),
                    j2,
                )
            }
        }
    }
}

/// A declaration: a variable declaration on `var`, else a statement.
#[verifier::opaque]
pub open spec fn spec_declaration(ts: Seq<TokenV>, i: int) -> (DeclV, int)
    decreases ts.len() - i, 15int,
    when t_wf(ts) && 0 <= i < ts.len()
{
    match ts[i].typ {
        TokenTypeV::Var => spec_var_declaration(ts, i),
        _ => {
            let r = spec_statement(ts, i);
            (DeclV::Statement(r.0), r.1)
        },
    }
}

/// The declarations from position `i` to the end-of-input token.
#[verifier::opaque]
pub open spec fn spec_program(ts: Seq<TokenV>, i: int) -> Seq<DeclV>
    decreases ts.len() - i, 17int,
    when t_wf(ts) && 0 <= i < ts.len()
{
    if i == ts.len() - 1 {
        Seq::empty()
    } else {
        let r = spec_declaration(ts, i);
        seq![r.0] + spec_program(ts, in_pos(ts, r.1, s_adv(ts, i)))
    }
}

/// The whole parse of a token stream.
pub open spec fn spec_parse(ts: Seq<TokenV>) -> Seq<DeclV> {
    spec_program(ts, 0)
}

/// The model of a declaration sequence distributes over `push`.
pub proof fn lemma_decls_v_push(ds: Seq<Decl>, d: Decl)
    ensures
        decls_v(ds.push(d)) == decls_v(ds).push(decl_v(&d)),
    decreases ds.len(),
{
    let p = ds.push(d);
    if ds.len() == 0 {
        assert(p.subrange(1, p.len() as int) =~= Seq::<Decl>::empty());
        assert(decls_v(p.subrange(1, p.len() as int)) == Seq::<DeclV>::empty());
        assert(p[0] == d);
        assert(decls_v(p) == seq![decl_v(&d)] + Seq::<DeclV>::empty());
        assert(decls_v(ds) == Seq::<DeclV>::empty());
        assert(decls_v(p) =~= decls_v(ds).push(decl_v(&d)));
    } else {
        let tail = ds.subrange(1, ds.len() as int);
        assert(p.subrange(1, p.len() as int) =~= tail.push(d));
        lemma_decls_v_push(tail, d);
        assert(p[0] == ds[0]);
        assert(decls_v(p) == seq![decl_v(&ds[0])] + decls_v(tail).push(decl_v(&d)));
        assert(decls_v(ds) == seq![decl_v(&ds[0])] + decls_v(tail));
        assert(decls_v(p) =~= decls_v(ds).push(decl_v(&d)));
    }
}

/// The recursive-descent parser: the token stream and the position of the
/// next unconsumed token.
pub struct Parser {
    tokens: Vec<Token>,
    curr: usize,
}

impl Parser {
    /// The model of the token stream.
    pub closed spec fn toks(&self) -> Seq<TokenV> {
        self.tokens@.map_values(|t: Token| t@)
    }

    /// The position of the next unconsumed token.
    pub closed spec fn cur(&self) -> int {
        self.curr as int
    }

    /// A parser over `tokens`, at the first token.
    pub fn new(tokens: Vec<Token>) -> (r: Parser)
        ensures
            r.toks() == tokens@.map_values(|t: Token| t@),
            r.cur() == 0,
    {
        Parser { tokens, curr: 0 }
    }

    /// One position forward, stopping at the last token.
    fn advance_from(&self, i: usize) -> (j: usize)
        requires
            i < self.toks().len(),
        ensures
            j as int == s_adv(self.toks(), i as int),
            i <= j < self.toks().len(),
    {
        proof {
            assert(i < self.tokens.len());
        }
        if i + 1 < self.tokens.len() {
            i + 1
        } else {
            i
        }
    }

    /// The primary level, as `spec_primary` describes it.
    #[verifier::rlimit(50)]
    fn primary(&self, i: usize) -> (r: (Expression, usize))
        requires
            t_wf(self.toks()),
            i < self.toks().len(),
        ensures
            spec_primary(self.toks(), i as int) == (expr_v(&r.0), r.1 as int),
            s_adv(self.toks(), i as int) <= r.1 as int,
            (r.1 as int) < self.toks().len(),
        decreases self.toks().len() - i, 1int,
    {
        reveal(spec_primary);
        reveal(spec_expression);
        reveal(spec_assignment);
        match &self.tokens[i].typ {
            TokenType::Number(_) | TokenType::StringLiteral | TokenType::True
                | TokenType::False | TokenType::Nil => (
                Expression::Primary(self.tokens[i].clone()),
                self.advance_from(i),
            ),
            TokenType::LeftParen => {
                let r = self.expression(self.advance_from(i));
                let j = r.1;
                match &self.tokens[j].typ {
                    TokenType::RightParen => (
                        Expression::Paren(Box::new(r.0)),
                        self.advance_from(j),
                    ),
                    _ => (
                        Expression::Invalid(
                            SyntaxErr {
                                at: self.tokens[i].clone(),
                                msg: ErrMsg::ExpectedRightParen,
                            },
                        ),
                        self.advance_from(j),
                    ),
                }
            },
            TokenType::Identifier => (
                Expression::Variable(self.tokens[i].clone()),
                self.advance_from(i),
            ),
            TokenType::Unknown(le) => {
                let lec = *le;
                (
                    Expression::Invalid(
                        SyntaxErr { at: self.tokens[i].clone(), msg: ErrMsg::Lexical(lec) },
                    ),
                    self.advance_from(i),
                )
            },
            _ => (
                Expression::Invalid(
                    SyntaxErr { at: self.tokens[i].clone(), msg: ErrMsg::ExpectedPrimary },
                ),
                self.advance_from(i),
            ),
        }
    }

    /// The unary level, as `spec_unary` describes it.
    fn unary(&self, i: usize) -> (r: (Expression, usize))
        requires
            t_wf(self.toks()),
            i < self.toks().len(),
        ensures
            spec_unary(self.toks(), i as int) == (expr_v(&r.0), r.1 as int),
            s_adv(self.toks(), i as int) <= r.1 as int,
            (r.1 as int) < self.toks().len(),
        decreases self.toks().len() - i, 2int,
    {
        reveal(spec_unary);
        reveal(spec_primary);
        match &self.tokens[i].typ {
            TokenType::Bang => {
                let r = self.unary(self.advance_from(i));
                (Expression::UnaryEx(Unary::Not, Box::new(r.0)), r.1)
            },
            TokenType::Minus => {
                let r = self.unary(self.advance_from(i));
                (Expression::UnaryEx(Unary::Minus, Box::new(r.0)), r.1)
            },
            _ => self.primary(i),
        }
    }

    /// The fold of `* /` operands, as `spec_factor_tail` describes it.
    #[verifier::rlimit(50)]
    fn factor_tail(&self, i: usize, e: Expression) -> (r: (Expression, usize))
        requires
            t_wf(self.toks()),
            i < self.toks().len(),
        ensures
            spec_factor_tail(self.toks(), i as int, expr_v(&e)) == (expr_v(&r.0), r.1 as int),
            i as int <= r.1 as int,
            (r.1 as int) < self.toks().len(),
        decreases self.toks().len() - i, 3int,
    {
        reveal(spec_factor_tail);
        reveal(spec_unary);
        match &self.tokens[i].typ {
            TokenType::Slash => {
                let r = self.unary(self.advance_from(i));
                self.factor_tail(
                    r.1,
                    Expression::BinaryEx(Box::new(e), Binary::Divide, Box::new(r.0)),
                )
            },
            TokenType::Star => {
                let r = self.unary(self.advance_from(i));
                self.factor_tail(
                    r.1,
                    Expression::BinaryEx(Box::new(e), Binary::Multiply, Box::new(r.0)),
                )
            },
            _ => (e, i),
        }
    }

    /// The factor level, as `spec_factor` describes it.
    fn factor(&self, i: usize) -> (r: (Expression, usize))
        requires
            t_wf(self.toks()),
            i < self.toks().len(),
        ensures
            spec_factor(self.toks(), i as int) == (expr_v(&r.0), r.1 as int),
            s_adv(self.toks(), i as int) <= r.1 as int,
            (r.1 as int) < self.toks().len(),
        decreases self.toks().len() - i, 4int,
    {
        reveal(spec_factor);
        reveal(spec_unary);
        reveal(spec_factor_tail);
        let r = self.unary(i);
        self.factor_tail(r.1, r.0)
    }

    /// The fold of `+ -` operands, as `spec_term_tail` describes it.
    #[verifier::rlimit(50)]
    fn term_tail(&self, i: usize, e: Expression) -> (r: (Expression, usize))
        requires
            t_wf(self.toks()),
            i < self.toks().len(),
        ensures
            spec_term_tail(self.toks(), i as int, expr_v(&e)) == (expr_v(&r.0), r.1 as int),
            i as int <= r.1 as int,
            (r.1 as int) < self.toks().len(),
        decreases self.toks().len() - i, 5int,
    {
        reveal(spec_term_tail);
        reveal(spec_factor);
        match &self.tokens[i].typ {
            TokenType::Minus => {
                let r = self.factor(self.advance_from(i));
                self.term_tail(
                    r.1,
                    Expression::BinaryEx(Box::new(e), Binary::Minus, Box::new(r.0)),
                )
            },
            TokenType::Plus => {
                let r = self.factor(self.advance_from(i));
                self.term_tail(
                    r.1,
                    Expression::BinaryEx(Box::new(e), Binary::Plus, Box::new(r.0)),
                )
            },
            _ => (e, i),
        }
    }

    /// The term level, as `spec_term` describes it.
    fn term(&self, i: usize) -> (r: (Expression, usize))
        requires
            t_wf(self.toks()),
            i < self.toks().len(),
        ensures
            spec_term(self.toks(), i as int) == (expr_v(&r.0), r.1 as int),
            s_adv(self.toks(), i as int) <= r.1 as int,
            (r.1 as int) < self.toks().len(),
        decreases self.toks().len() - i, 6int,
    {
        reveal(spec_term);
        reveal(spec_factor);
        reveal(spec_term_tail);
        let r = self.factor(i);
        self.term_tail(r.1, r.0)
    }

    /// The fold of `< <= > >=` operands, as `spec_cmp_tail` describes it.
    #[verifier::rlimit(100)]
    #[verifier::spinoff_prover]
    fn cmp_tail(&self, i: usize, e: Expression) -> (r: (Expression, usize))
        requires
            t_wf(self.toks()),
            i < self.toks().len(),
        ensures
            spec_cmp_tail(self.toks(), i as int, expr_v(&e)) == (expr_v(&r.0), r.1 as int),
            i as int <= r.1 as int,
            (r.1 as int) < self.toks().len(),
        decreases self.toks().len() - i, 7int,
    {
        reveal(spec_cmp_tail);
        reveal(spec_term);
        match &self.tokens[i].typ {
            TokenType::Greater => {
                let r = self.term(self.advance_from(i));
                self.cmp_tail(
                    r.1,
                    Expression::BinaryEx(Box::new(e), Binary::Greater, Box::new(r.0)),
                )
            },
            TokenType::GreaterEqual => {
                let r = self.term(self.advance_from(i));
                self.cmp_tail(
                    r.1,
                    Expression::BinaryEx(Box::new(e), Binary::GreaterEqual, Box::new(r.0)),
                )
            },
            TokenType::Less => {
                let r = self.term(self.advance_from(i));
                self.cmp_tail(
                    r.1,
                    Expression::BinaryEx(Box::new(e), Binary::Less, Box::new(r.0)),
                )
            },
            TokenType::LessEqual => {
                let r = self.term(self.advance_from(i));
                self.cmp_tail(
                    r.1,
                    Expression::BinaryEx(Box::new(e), Binary::LessEqual, Box::new(r.0)),
                )
            },
            _ => (e, i),
        }
    }

    /// The comparison level, as `spec_comparison` describes it.
    #[verifier::rlimit(50)]
    fn comparison(&self, i: usize) -> (r: (Expression, usize))
        requires
            t_wf(self.toks()),
            i < self.toks().len(),
        ensures
            spec_comparison(self.toks(), i as int) == (expr_v(&r.0), r.1 as int),
            s_adv(self.toks(), i as int) <= r.1 as int,
            (r.1 as int) < self.toks().len(),
        decreases self.toks().len() - i, 8int,
    {
        reveal(spec_comparison);
        reveal(spec_term);
        reveal(spec_cmp_tail);
        let r = self.term(i);
        self.cmp_tail(r.1, r.0)
    }

    /// The fold of `== !=` operands, as `spec_eq_tail` describes it.
    #[verifier::rlimit(100)]
    #[verifier::spinoff_prover]
    fn eq_tail(&self, i: usize, e: Expression) -> (r: (Expression, usize))
        requires
            t_wf(self.toks()),
            i < self.toks().len(),
        ensures
            spec_eq_tail(self.toks(), i as int, expr_v(&e)) == (expr_v(&r.0), r.1 as int),
            i as int <= r.1 as int,
            (r.1 as int) < self.toks().len(),
        decreases self.toks().len() - i, 9int,
    {
        reveal(spec_eq_tail);
        reveal(spec_comparison);
        match &self.tokens[i].typ {
            TokenType::BangEqual => {
                let r = self.comparison(self.advance_from(i));
                self.eq_tail(
                    r.1,
                    Expression::BinaryEx(Box::new(e), Binary::NotEqual, Box::new(r.0)),
                )
            },
            TokenType::EqualEqual => {
                let r = self.comparison(self.advance_from(i));
                self.eq_tail(
                    r.1,
                    Expression::BinaryEx(Box::new(e), Binary::EqualEqual, Box::new(r.0)),
                )
            },
            _ => (e, i),
        }
    }

    /// The equality level, as `spec_equality` describes it.
    #[verifier::rlimit(50)]
    fn equality(&self, i: usize) -> (r: (Expression, usize))
        requires
            t_wf(self.toks()),
            i < self.toks().len(),
        ensures
            spec_equality(self.toks(), i as int) == (expr_v(&r.0), r.1 as int),
            s_adv(self.toks(), i as int) <= r.1 as int,
            (r.1 as int) < self.toks().len(),
        decreases self.toks().len() - i, 10int,
    {
        reveal(spec_equality);
        reveal(spec_comparison);
        reveal(spec_eq_tail);
        let r = self.comparison(i);
        self.eq_tail(r.1, r.0)
    }

    /// The assignment level, as `spec_assignment` describes it.
    #[verifier::rlimit(50)]
    fn assignment(&self, i: usize) -> (r: (Expression, usize))
        requires
            t_wf(self.toks()),
            i < self.toks().len(),
        ensures
            spec_assignment(self.toks(), i as int) == (expr_v(&r.0), r.1 as int),
            s_adv(self.toks(), i as int) <= r.1 as int,
            (r.1 as int) < self.toks().len(),
        decreases self.toks().len() - i, 11int,
    {
        reveal(spec_assignment);
        reveal(spec_equality);
        let r = self.equality(i);
        let j = r.1;
        match &self.tokens[j].typ {
            TokenType::Equal => {
                let r2 = self.assignment(self.advance_from(j));
                let e2 = match r.0 {
                    Expression::Variable(tok) => Expression::Assign(tok, Box::new(r2.0)),
                    _ => Expression::Invalid(
                        SyntaxErr {
                            at: self.tokens[j].clone(),
                            msg: ErrMsg::InvalidAssignmentTarget,
                        },
                    ),
                };
                (e2, r2.1)
            },
            _ => r,
        }
    }

    /// The expression level, as `spec_expression` describes it.
    fn expression(&self, i: usize) -> (r: (Expression, usize))
        requires
            t_wf(self.toks()),
            i < self.toks().len(),
        ensures
            spec_expression(self.toks(), i as int) == (expr_v(&r.0), r.1 as int),
            s_adv(self.toks(), i as int) <= r.1 as int,
            (r.1 as int) < self.toks().len(),
        decreases self.toks().len() - i, 12int,
    {
        reveal(spec_expression);
        reveal(spec_assignment);
        self.assignment(i)
    }

    /// A print statement, as `spec_print_statement` describes it.
    fn print_statement(&self, i: usize) -> (r: (Stmt, usize))
        requires
            t_wf(self.toks()),
            i < self.toks().len(),
        ensures
            spec_print_statement(self.toks(), i as int) == (stmt_v(&r.0), r.1 as int),
            s_adv(self.toks(), i as int) <= r.1 as int,
            (r.1 as int) < self.toks().len(),
        decreases self.toks().len() - i, 13int,
    {
        reveal(spec_print_statement);
        reveal(spec_expression);
        let r = self.expression(self.advance_from(i));
        let j = r.1;
        match &self.tokens[j].typ {
            TokenType::Semicolon => (Stmt::Print(r.0), self.advance_from(j)),
            _ => (Stmt::Print(r.0), j),
        }
    }

    /// An expression statement, as `spec_expression_statement` describes it.
    #[verifier::rlimit(100)]
    #[verifier::spinoff_prover]
    fn expression_statement(&self, i: usize) -> (r: (Stmt, usize))
        requires
            t_wf(self.toks()),
            i < self.toks().len(),
        ensures
            spec_expression_statement(self.toks(), i as int) == (stmt_v(&r.0), r.1 as int),
            s_adv(self.toks(), i as int) <= r.1 as int,
            (r.1 as int) < self.toks().len(),
        decreases self.toks().len() - i, 13int,
    {
        reveal(spec_expression_statement);
        reveal(spec_expression);
        let r = self.expression(i);
        let j = r.1;
        match &self.tokens[j].typ {
            TokenType::Semicolon => (Stmt::Expression(r.0), self.advance_from(j)),
            _ => (Stmt::Expression(r.0), j),
        }
    }

    /// The declarations of a block, as `spec_block_tail` describes them.
    #[verifier::rlimit(50)]
    fn block_tail(&self, i: usize, acc: Vec<Decl>) -> (r: (Stmt, usize))
        requires
            t_wf(self.toks()),
            i < self.toks().len(),
        ensures
            stmt_v(&r.0) == spec_block_tail(self.toks(), i as int, decls_v(acc@)).0,
            r.1 as int == spec_block_tail(self.toks(), i as int, decls_v(acc@)).1,
            i as int <= r.1 as int,
            (r.1 as int) < self.toks().len(),
        decreases self.toks().len() - i, 16int,
    {
        reveal(spec_block_tail);
        reveal(spec_declaration);
        reveal(spec_var_declaration);
        reveal(spec_statement);
        let is_rbrace = match &self.tokens[i].typ {
            TokenType::RightBrace => true,
            _ => false,
        };
        if is_rbrace {
            (Stmt::Block(acc), self.advance_from(i))
        } else if i == self.tokens.len() - 1 {
            (
                Stmt::Invalid(
                    SyntaxErr { at: self.tokens[i].clone(), msg: ErrMsg::ExpectRightBrace },
                ),
                i,
            )
        } else {
            let r = self.declaration(i);
            let ghost acc0 = acc@;
            let mut acc2 = acc;
            proof {
                lemma_decls_v_push(acc0, r.0);
            }
            acc2.push(r.0);
            self.block_tail(r.1, acc2)
        }
    }

    /// A block, as `spec_block` describes it.
    fn block(&self, i: usize) -> (r: (Stmt, usize))
        requires
            t_wf(self.toks()),
            i < self.toks().len(),
            self.toks()[i as int].typ is LeftBrace,
        ensures
            spec_block(self.toks(), i as int) == (stmt_v(&r.0), r.1 as int),
            s_adv(self.toks(), i as int) <= r.1 as int,
            (r.1 as int) < self.toks().len(),
        decreases self.toks().len() - i, 13int,
    {
        reveal(spec_block);
        reveal(spec_block_tail);
        let acc: Vec<Decl> = Vec::new();
        proof {
            assert(decls_v(acc@) =~= Seq::<DeclV>::empty());
        }
        self.block_tail(self.advance_from(i), acc)
    }

    /// A statement, as `spec_statement` describes it.
    #[verifier::rlimit(50)]
    fn statement(&self, i: usize) -> (r: (Stmt, usize))
        requires
            t_wf(self.toks()),
            i < self.toks().len(),
        ensures
            spec_statement(self.toks(), i as int) == (stmt_v(&r.0), r.1 as int),
            s_adv(self.toks(), i as int) <= r.1 as int,
            (r.1 as int) < self.toks().len(),
        decreases self.toks().len() - i, 14int,
    {
        reveal(spec_statement);
        reveal(spec_print_statement);
        reveal(spec_block);
        reveal(spec_expression_statement);
        match &self.tokens[i].typ {
            TokenType::Print => self.print_statement(i),
            TokenType::LeftBrace => self.block(i),
            _ => self.expression_statement(i),
        }
    }

    /// A variable declaration, as `spec_var_declaration` describes it.
    #[verifier::rlimit(50)]
    fn var_declaration(&self, i: usize) -> (r: (Decl, usize))
        requires
            t_wf(self.toks()),
            i < self.toks().len(),
        ensures
            spec_var_declaration(self.toks(), i as int) == (decl_v(&r.0), r.1 as int),
            s_adv(self.toks(), i as int) <= r.1 as int,
            (r.1 as int) < self.toks().len(),
        decreases self.toks().len() - i, 14int,
    {
        reveal(spec_var_declaration);
        reveal(spec_expression);
        let j1 = self.advance_from(i);
        let is_ident = match &self.tokens[j1].typ {
            TokenType::Identifier => true,
            _ => false,
        };
        if !is_ident {
            (
                Decl::VarDecl(
                    self.tokens[j1].clone(),
                    Some(
                        Expression::Invalid(
                            SyntaxErr { at: self.tokens[j1].clone(), msg: ErrMsg::ExpectVarName },
                        ),
                    ),
                ),
                j1,
            )
        } else {
            let ident = self.tokens[j1].clone();
            let j2 = self.advance_from(j1);
            let has_init = match &self.tokens[j2].typ {
                TokenType::Equal => true,
                _ => false,
            };
            if has_init {
                let r = self.expression(self.advance_from(j2));
                let j3 = r.1;
                match &self.tokens[j3].typ {
                    TokenType::Semicolon => (
                        Decl::VarDecl(ident, Some(r.0)),
                        self.advance_from(j3),
                    ),
                    _ => (
                        Decl::VarDecl(
                            self.tokens[j3].clone(),
                            Some(
                                Expression::Invalid(
                                    SyntaxErr {
                                        at: self.tokens[j3].clone(),
                                        msg: ErrMsg::ExpectVarSemicolon,
                                    },
                                ),
                            ),
                        ),
                        j3,
                    ),
                }
            } else {
                match &self.tokens[j2].typ {
                    TokenType::Semicolon => (
                        Decl::VarDecl(ident, None),
                        self.advance_from(j2),
                    ),
                    _ => (
                        Decl::VarDecl(
                            self.tokens[j2].clone(),
                            Some(
                                Expression::Invalid(
                                    SyntaxErr {
                                        at: self.tokens[j2].clone(),
                                        msg: ErrMsg::ExpectVarSemicolon,
                                    },
                                ),
                            ),
                        ),
                        j2,
                    ),
                }
            }
        }
    }

    /// A declaration, as `spec_declaration` describes it.
    #[verifier::rlimit(50)]
    fn declaration(&self, i: usize) -> (r: (Decl, usize))
        requires
            t_wf(self.toks()),
            i < self.toks().len(),
        ensures
            spec_declaration(self.toks(), i as int) == (decl_v(&r.0), r.1 as int),
            s_adv(self.toks(), i as int) <= r.1 as int,
            (r.1 as int) < self.toks().len(),
        decreases self.toks().len() - i, 15int,
    {
        reveal(spec_declaration);
        reveal(spec_var_declaration);
        reveal(spec_statement);
        match &self.tokens[i].typ {
            TokenType::Var => self.var_declaration(i),
            _ => {
                let r = self.statement(i);
                (Decl::Statement(r.0), r.1)
            },
        }
    }

    /// The declarations from `i` to the end-of-input token, as
    /// `spec_program` describes them.
    #[verifier::rlimit(100)]
    fn program_rec(&self, i: usize) -> (ds: Vec<Decl>)
        requires
            t_wf(self.toks()),
            i < self.toks().len(),
        ensures
            decls_v(ds@) == spec_program(self.toks(), i as int),
        decreases self.toks().len() - i, 17int,
    {
        reveal(spec_program);
        reveal(spec_declaration);
        if i == self.tokens.len() - 1 {
            let ds: Vec<Decl> = Vec::new();
            proof {
                assert(decls_v(ds@) =~= Seq::<DeclV>::empty());
            }
            ds
        } else {
            let r = self.declaration(i);
            let mut rest = self.program_rec(r.1);
            let ghost rest0 = rest@;
            rest.insert(0, r.0);
            proof {
                assert(rest@.subrange(1, rest@.len() as int) =~= rest0);
            }
            rest
        }
    }

    /// The whole program. Parsing consumes the stream: afterwards the
    /// parser stands at the end-of-input token.
    pub fn parse(&mut self) -> (p: Program)
        requires
            t_wf(old(self).toks()),
            old(self).cur() < old(self).toks().len(),
        ensures
            p@ == spec_program(old(self).toks(), old(self).cur()),
    {
        reveal(spec_program);
        reveal(spec_declaration);
        let ds = self.program_rec(self.curr);
        self.curr = self.tokens.len() - 1;
        Program { declarations: ds }
    }
}

impl Program {
    /// The first declaration holding an invalid node, if any: `Some` exactly
    /// when at least one declaration transitively contains an invalid node,
    /// and then the returned declaration is the first invalid one in
    /// program order.
    pub fn syntax_errors(&self) -> (r: Option<&Decl>)
        ensures
            r is Some <==> !decls_valid(self@),
            match r {
                Some(d) => exists|k: int|
                    0 <= k < self@.len() && d@ == #[trigger] self@[k] && !decl_valid(self@[k]) && (
                    forall|m: int| 0 <= m < k ==> decl_valid(#[trigger] self@[m])),
                None => true,
            },
    {
        proof {
            lemma_decls_v_len(self.declarations@);
            lemma_decls_valid_all(decls_v(self.declarations@));
        }
        let mut k: usize = 0;
        while k < self.declarations.len()
            invariant
                k <= self.declarations.len(),
                decls_v(self.declarations@).len() == self.declarations@.len(),
                forall|m: int| 0 <= m < k ==> decl_valid(#[trigger] decls_v(
                    self.declarations@,
                )[m]),
            decreases self.declarations.len() - k,
        {
            proof {
                lemma_decls_v_index(self.declarations@, k as int);
            }
            if !self.declarations[k].is_valid() {
                proof {
                    lemma_decls_valid_all(decls_v(self.declarations@));
                    assert(!decl_valid(decls_v(self.declarations@)[k as int]));
                    assert(0 <= k < self@.len() && decl_v(&self.declarations[k as int])
                        == self@[k as int] && !decl_valid(self@[k as int]) && (forall|m: int|
                        0 <= m < k ==> decl_valid(#[trigger] self@[m])));
                }
                return Some(&self.declarations[k]);
            }
            k = k + 1;
        }
        proof {
            lemma_decls_valid_all(decls_v(self.declarations@));
        }
        None
    }
}

/// A declaration-sequence model has the same length as the sequence.
pub proof fn lemma_decls_v_len(ds: Seq<Decl>)
    ensures
        decls_v(ds).len() == ds.len(),
    decreases ds.len(),
{
    if ds.len() > 0 {
        lemma_decls_v_len(ds.subrange(1, ds.len() as int));
    }
}

/// Element `k` of a declaration-sequence model is the model of element `k`.
pub proof fn lemma_decls_v_index(ds: Seq<Decl>, k: int)
    requires
        0 <= k < ds.len(),
    ensures
        decls_v(ds).len() == ds.len(),
        decls_v(ds)[k] == decl_v(&ds[k]),
    decreases ds.len(),
{
    lemma_decls_v_len(ds);
    if k > 0 {
        lemma_decls_v_index(ds.subrange(1, ds.len() as int), k - 1);
    }
}

/// A declaration sequence is valid exactly when each element is.
pub proof fn lemma_decls_valid_all(ds: Seq<DeclV>)
    ensures
        decls_valid(ds) <==> (forall|k: int| 0 <= k < ds.len() ==> decl_valid(#[trigger] ds[k])),
    decreases ds.len(),
{
    if ds.len() > 0 {
        let tail = ds.subrange(1, ds.len() as int);
        lemma_decls_valid_all(tail);
        assert(forall|k: int| 1 <= k < ds.len() ==> ds[k] == #[trigger] tail[k - 1]);
        if decls_valid(ds) {
            assert forall|k: int| 0 <= k < ds.len() implies decl_valid(#[trigger] ds[k]) by {
                if k > 0 {
                    assert(decl_valid(tail[k - 1]));
                }
            }
        }
        if forall|k: int| 0 <= k < ds.len() ==> decl_valid(#[trigger] ds[k]) {
            assert forall|k: int| 0 <= k < tail.len() implies decl_valid(#[trigger] tail[k]) by {
                assert(tail[k] == ds[k + 1]);
            }
        }
    }
}

impl Expression {
    /// Whether this expression holds no invalid node.
    pub fn is_valid(&self) -> (r: bool)
        ensures
            r == expr_valid(expr_v(self)),
        decreases self,
    {
        match self {
            Expression::Primary(_) => true,
            Expression::BinaryEx(l, _, r2) => l.is_valid() && r2.is_valid(),
            Expression::UnaryEx(_, e1) => e1.is_valid(),
            Expression::Paren(e1) => e1.is_valid(),
            Expression::Variable(_) => true,
            Expression::Assign(_, e1) => e1.is_valid(),
            Expression::Invalid(_) => false,
        }
    }
}

impl Stmt {
    /// Whether this statement holds no invalid node.
    #[verifier::loop_isolation(false)]
    pub fn is_valid(&self) -> (r: bool)
        ensures
            r == stmt_valid(stmt_v(self)),
        decreases self,
    {
        match self {
            Stmt::Print(e) => e.is_valid(),
            Stmt::Expression(e) => e.is_valid(),
            Stmt::Block(ds) => {
                proof {
                    lemma_decls_v_len(ds@);
                }
                let mut k: usize = 0;
                let mut ok = true;
                while k < ds.len()
                    invariant
                        k <= ds.len(),
                        ok == decls_valid_upto(decls_v(ds@), k as int),
                        decls_v(ds@).len() == ds@.len(),
                    decreases ds.len() - k,
                {
                    proof {
                        lemma_decls_v_index(ds@, k as int);
                        assert(decreases_to!(*self => *ds));
                        vstd::std_specs::vec::axiom_vec_index_decreases(*ds, k as int);
                        assert(decreases_to!(*self => ds@[k as int]));
                    }
                    let dk_ok = ds[k].is_valid();
                    ok = ok && dk_ok;
                    k = k + 1;
                }
                proof {
                    lemma_decls_valid_upto_full(decls_v(ds@));
                }
                ok
            },
            Stmt::Invalid(_) => false,
        }
    }
}

impl Decl {
    /// Whether this declaration holds no invalid node.
    pub fn is_valid(&self) -> (r: bool)
        ensures
            r == decl_valid(decl_v(self)),
        decreases self,
    {
        match self {
            Decl::VarDecl(_, oe) => match oe {
                Some(e) => e.is_valid(),
                None => true,
            },
            Decl::Statement(s) => s.is_valid(),
        }
    }
}

/// Validity of the first `k` elements of a declaration sequence.
pub open spec fn decls_valid_upto(ds: Seq<DeclV>, k: int) -> bool {
    forall|m: int| 0 <= m < k ==> decl_valid(#[trigger] ds[m])
}

/// A sequence whose every element is valid is valid.
pub proof fn lemma_decls_valid_upto_full(ds: Seq<DeclV>)
    ensures
        decls_valid_upto(ds, ds.len() as int) <==> decls_valid(ds),
{
    lemma_decls_valid_all(ds);
}

/// The wording of each syntax-error reason.
pub open spec fn err_reason(m: ErrMsg) -> Seq<char> {
    match m {
        ErrMsg::ExpectedRightParen => "Expected right paren"@,
        ErrMsg::ExpectedPrimary => "Expected primary (number,  string, bool, nil)  or left paren"@,
        ErrMsg::InvalidAssignmentTarget => "Invalid assignment target."@,
        ErrMsg::ExpectVarName => "Expect variable name."@,
        ErrMsg::ExpectVarSemicolon => "Expect ';' after variable declaration."@,
        ErrMsg::ExpectRightBrace => "Expect '}'"@,
        ErrMsg::Lexical(_) => Seq::empty(),
    }
}

/// The word a diagnostic points at: the token's lexeme, or `end` for the
/// end of input.
pub open spec fn at_word(t: TokenV) -> Seq<char> {
    if t.typ is Eof {
        "end"@
    } else {
        t.s
    }
}

/// The full diagnostic of a syntax error: `[line N] Error at <w>: <reason>`,
/// or the lexical error's own message for a surfaced lexical error.
pub open spec fn syntax_err_text(se: SyntaxErrV) -> Seq<char> {
    match se.msg {
        ErrMsg::Lexical(le) => "[line "@ + crate::text::dec_str(se.at.ln as nat) + "] Error: "@
            + crate::token::lex_err_msg(le),
        _ => "[line "@ + crate::text::dec_str(se.at.ln as nat) + "] Error at "@ + at_word(se.at)
            + ": "@ + err_reason(se.msg),
    }
}

impl SyntaxErr {
    /// The full diagnostic, as `syntax_err_text` describes it.
    pub fn render(&self) -> (r: String)
        ensures
            r@ == syntax_err_text(self@),
    {
        let mut out = String::from_str("[line ");
        let digits = crate::text::string_from_chars(&crate::text::dec_chars(self.at.ln));
        out.append(digits.as_str());
        match &self.msg {
            ErrMsg::Lexical(le) => {
                out.append("] Error: ");
                let m = le.render();
                out.append(m.as_str());
            },
            other => {
                out.append("] Error at ");
                let is_eof = match &self.at.typ {
                    TokenType::Eof => true,
                    _ => false,
                };
                if is_eof {
                    out.append("end");
                } else {
                    out.append(self.at.s.as_str());
                }
                out.append(": ");
                let word = match other {
                    ErrMsg::ExpectedRightParen => "Expected right paren",
                    ErrMsg::ExpectedPrimary => "Expected primary (number,  string, bool, nil)  or left paren",
                    ErrMsg::InvalidAssignmentTarget => "Invalid assignment target.",
                    ErrMsg::ExpectVarName => "Expect variable name.",
                    ErrMsg::ExpectVarSemicolon => "Expect ';' after variable declaration.",
                    _ => "Expect '}'",
                };
                out.append(word);
            },
        }
        out
    }
}

/// The text of a binary operator.
pub open spec fn bin_text(op: Binary) -> Seq<char> {
    match op {
        Binary::Plus => "+"@,
        Binary::Minus => "-"@,
        Binary::Divide => "/"@,
        Binary::Multiply => "*"@,
        Binary::Greater => ">"@,
        Binary::Less => "<"@,
        Binary::GreaterEqual => ">="@,
        Binary::LessEqual => "<="@,
        Binary::EqualEqual => "=="@,
        Binary::NotEqual => "!="@,
    }
}

/// The text of a unary operator.
pub open spec fn un_text(op: Unary) -> Seq<char> {
    match op {
        Unary::Not => "!"@,
        Unary::Minus => "-"@,
    }
}

/// The fully parenthesized, operator-first rendering of an expression, as
/// the `parse` command prints it.
pub open spec fn expr_text(e: ExpressionV) -> Seq<char>
    decreases e,
{
    match e {
        ExpressionV::Primary(t) => match t.typ {
            TokenTypeV::True => "true"@,
            TokenTypeV::False => "false"@,
            TokenTypeV::Nil => "nil"@,
            TokenTypeV::Number(v) => v,
            TokenTypeV::StringLiteral => t.s,
            _ => t.s,
        },
        ExpressionV::BinaryEx(l, op, r) => "("@ + bin_text(op) + " "@ + expr_text(*l) + " "@
            + expr_text(*r) + ")"@,
        ExpressionV::UnaryEx(op, e1) => "("@ + un_text(op) + " "@ + expr_text(*e1) + ")"@,
        ExpressionV::Paren(e1) => "(group "@ + expr_text(*e1) + ")"@,
        ExpressionV::Variable(t) => "(var "@ + t.s + ")"@,
        ExpressionV::Assign(t, e1) => "("@ + t.s + " = "@ + expr_text(*e1) + ")"@,
        ExpressionV::Invalid(se) => syntax_err_text(se),
    }
}

/// The rendering of a statement: its expression, or a brace-wrapped block,
/// or the diagnostic of an invalid statement.
pub open spec fn stmt_text(st: StmtV) -> Seq<char>
    decreases st,
{
    match st {
        StmtV::Print(e) => expr_text(e),
        StmtV::Expression(e) => expr_text(e),
        StmtV::Block(ds) => "{"@ + decls_text(ds) + "}"@,
        StmtV::Invalid(se) => syntax_err_text(se),
    }
}

/// The renderings of a declaration sequence, concatenated.
pub open spec fn decls_text(ds: Seq<DeclV>) -> Seq<char>
    decreases ds,
{
    if ds.len() == 0 {
        Seq::empty()
    } else {
        decl_text(ds[0]) + decls_text(ds.subrange(1, ds.len() as int))
    }
}

/// The rendering of a declaration.
pub open spec fn decl_text(d: DeclV) -> Seq<char>
    decreases d,
{
    match d {
        DeclV::VarDecl(t, oe) => match oe {
            Some(e) => "var "@ + t.s + " = "@ + expr_text(e) + ";"@,
            None => "var "@ + t.s + ";"@,
        },
        DeclV::Statement(st) => stmt_text(st),
    }
}

impl Expression {
    /// The rendering of this expression, as `expr_text` describes it.
    pub fn render(&self) -> (r: String)
        ensures
            r@ == expr_text(expr_v(self)),
        decreases self,
    {
        match self {
            Expression::Primary(t) => match &t.typ {
                TokenType::True => String::from_str("true"),
                TokenType::False => String::from_str("false"),
                TokenType::Nil => String::from_str("nil"),
                TokenType::Number(v) => v.0.clone(),
                _ => t.s.clone(),
            },
            Expression::BinaryEx(l, op, r2) => {
                let mut out = String::from_str("(");
                let opw = match op {
                    Binary::Plus => "+",
                    Binary::Minus => "-",
                    Binary::Divide => "/",
                    Binary::Multiply => "*",
                    Binary::Greater => ">",
                    Binary::Less => "<",
                    Binary::GreaterEqual => ">=",
                    Binary::LessEqual => "<=",
                    Binary::EqualEqual => "==",
                    Binary::NotEqual => "!=",
                };
                out.append(opw);
                out.append(" ");
                let lt = l.render();
                out.append(lt.as_str());
                out.append(" ");
                let rt = r2.render();
                out.append(rt.as_str());
                out.append(")");
                out
            },
            Expression::UnaryEx(op, e1) => {
                let mut out = String::from_str("(");
                let opw = match op {
                    Unary::Not => "!",
                    Unary::Minus => "-",
                };
                out.append(opw);
                out.append(" ");
                let et = e1.render();
                out.append(et.as_str());
                out.append(")");
                out
            },
            Expression::Paren(e1) => {
                let mut out = String::from_str("(group ");
                let et = e1.render();
                out.append(et.as_str());
                out.append(")");
                out
            },
            Expression::Variable(t) => {
                let mut out = String::from_str("(var ");
                out.append(t.s.as_str());
                out.append(")");
                out
            },
            Expression::Assign(t, e1) => {
                let mut out = String::from_str("(");
                out.append(t.s.as_str());
                out.append(" = ");
                let et = e1.render();
                out.append(et.as_str());
                out.append(")");
                out
            },
            Expression::Invalid(se) => se.render(),
        }
    }
}

impl Stmt {
    /// The rendering of this statement, as `stmt_text` describes it.
    #[verifier::loop_isolation(false)]
    pub fn render(&self) -> (r: String)
        ensures
            r@ == stmt_text(stmt_v(self)),
        decreases self,
    {
        match self {
            Stmt::Print(e) => e.render(),
            Stmt::Expression(e) => e.render(),
            Stmt::Block(ds) => {
                proof {
                    lemma_decls_v_len(ds@);
                }
                let mut out = String::from_str("{");
                let ghost dv = decls_v(ds@);
                let mut k: usize = 0;
                while k < ds.len()
                    invariant
                        k <= ds.len(),
                        out@ == "{"@ + decls_text_upto(dv, k as int),
                    decreases ds.len() - k,
                {
                    proof {
                        lemma_decls_v_index(ds@, k as int);
                        vstd::std_specs::vec::axiom_vec_index_decreases(*ds, k as int);
                    }
                    let dt = ds[k].render();
                    out.append(dt.as_str());
                    k = k + 1;
                }
                out.append("}");
                proof {
                    lemma_decls_text_upto_full(dv);
                }
                out
            },
            Stmt::Invalid(se) => se.render(),
        }
    }
}

impl Decl {
    /// The rendering of this declaration, as `decl_text` describes it.
    pub fn render(&self) -> (r: String)
        ensures
            r@ == decl_text(decl_v(self)),
        decreases self,
    {
        match self {
            Decl::VarDecl(t, oe) => {
                let mut out = String::from_str("var ");
                out.append(t.s.as_str());
                match oe {
                    Some(e) => {
                        out.append(" = ");
                        let et = e.render();
                        out.append(et.as_str());
                        out.append(";");
                    },
                    None => {
                        out.append(";");
                    },
                }
                out
            },
            Decl::Statement(st) => st.render(),
        }
    }
}

/// The concatenated renderings of the first `k` declarations.
pub open spec fn decls_text_upto(ds: Seq<DeclV>, k: int) -> Seq<char>
    decreases k,
{
    if k <= 0 {
        Seq::empty()
    } else {
        decls_text_upto(ds, k - 1) + decl_text(ds[k - 1])
    }
}

/// The prefix renderings reach the whole rendering.
pub proof fn lemma_decls_text_upto_full(ds: Seq<DeclV>)
    ensures
        decls_text_upto(ds, ds.len() as int) == decls_text(ds),
{
    lemma_decls_text_parts(ds, ds.len() as int);
    assert(decls_text_upto(ds, ds.len() as int) =~= decls_text_upto(ds, ds.len() as int)
        + decls_text(ds.subrange(ds.len() as int, ds.len() as int)));
}

/// Splitting the rendering of a declaration sequence at `k`.
pub proof fn lemma_decls_text_parts(ds: Seq<DeclV>, k: int)
    requires
        0 <= k <= ds.len(),
    ensures
        decls_text(ds) == decls_text_upto(ds, k) + decls_text(ds.subrange(k, ds.len() as int)),
    decreases k,
{
    if k == 0 {
        assert(ds.subrange(0, ds.len() as int) =~= ds);
        assert(decls_text(ds) =~= decls_text_upto(ds, 0) + decls_text(
            ds.subrange(0, ds.len() as int),
        ));
    } else {
        lemma_decls_text_parts(ds, k - 1);
        let tail = ds.subrange(k - 1, ds.len() as int);
        assert(tail.len() > 0);
        assert(tail[0] == ds[k - 1]);
        assert(tail.subrange(1, tail.len() as int) =~= ds.subrange(k, ds.len() as int));
        assert(decls_text(tail) == decl_text(ds[k - 1]) + decls_text(
            ds.subrange(k, ds.len() as int),
        ));
        assert(decls_text(ds) =~= decls_text_upto(ds, k) + decls_text(
            ds.subrange(k, ds.len() as int),
        ));
    }
}

impl Program {
    /// The rendering of the whole program: its declarations' renderings,
    /// concatenated in order.
    #[verifier::loop_isolation(false)]
    pub fn render(&self) -> (r: String)
        ensures
            r@ == decls_text(self@),
    {
        proof {
            lemma_decls_v_len(self.declarations@);
        }
        let mut out = String::new();
        let ghost dv = decls_v(self.declarations@);
        let mut k: usize = 0;
        while k < self.declarations.len()
            invariant
                k <= self.declarations.len(),
                out@ == decls_text_upto(dv, k as int),
            decreases self.declarations.len() - k,
        {
            proof {
                lemma_decls_v_index(self.declarations@, k as int);
            }
            let dt = self.declarations[k].render();
            out.append(dt.as_str());
            k = k + 1;
        }
        proof {
            lemma_decls_text_upto_full(dv);
        }
        out
    }
}

/// A program's model has as many declarations as the program.
pub proof fn lemma_decls_v_len_pub(p: &Program)
    ensures
        p@.len() == p.declarations@.len(),
{
    lemma_decls_v_len(p.declarations@);
}

} // verus!
