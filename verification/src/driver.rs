//! The glue from sub-command to the pipeline stages: tokenize, parse and
//! evaluate, each paired with its exit code, and the selection of what the
//! `run` and `evaluate` commands print. Reading the source file and writing
//! to the output streams stay outside the library.

use vstd::prelude::*;

use crate::environment::ScopeV;
use crate::evaluator::{
    decls_rel, ser_v, sers_v, EvalError, EvalResult, EvalResultV, Evaluator, NumberOps,
    StatementEvalResult, StatementEvalResultV,
};
use crate::lexer::{spec_tokenize, tokenize};
use crate::parser::{decls_valid, spec_parse, Parser, Program};
use crate::token::{Token, TokenType, TokenV};

verus! {

/// The exit code of a lexical or syntax failure.
pub const PARSE_ERROR_CODE: u8 = 65;

/// The exit code of a runtime failure.
pub const RUNTIME_ERROR_CODE: u8 = 70;

impl Token {
    /// Whether this token records a lexical error; the `tokenize` command
    /// sends such tokens to standard error and fails.
    pub fn is_lexical_error(&self) -> (r: bool)
        ensures
            r == (self@.typ is Unknown),
    {
        match &self.typ {
            TokenType::Unknown(_) => true,
            _ => false,
        }
    }
}

/// Whether a token stream holds a lexical error.
pub open spec fn has_lex_error(ts: Seq<TokenV>) -> bool {
    exists|k: int| 0 <= k < ts.len() && (#[trigger] ts[k].typ) is Unknown
}

/// The token stream of a source text, with the exit code of the `tokenize`
/// command: a failure exactly when a lexical error token is in the stream.
pub fn tokenize_with_code(s: &str) -> (r: (Vec<Token>, u8))
    ensures
        r.0@.map_values(|t: Token| t@) == spec_tokenize(s@),
        r.1 == 65 <==> has_lex_error(spec_tokenize(s@)),
        r.1 == 65 || r.1 == 0,
{
    let tokens = tokenize(s);
    let ghost ts = spec_tokenize(s@);
    let mut code: u8 = 0;
    let mut k: usize = 0;
    while k < tokens.len()
        invariant
            k <= tokens.len(),
            tokens@.map_values(|t: Token| t@) == ts,
            code == 0 || code == 65,
            code == 65 <==> exists|m: int| 0 <= m < k && (#[trigger] ts[m].typ) is Unknown,
        decreases tokens.len() - k,
    {
        if tokens[k].is_lexical_error() {
            proof {
                assert(ts[k as int].typ is Unknown);
            }
            code = 65;
        }
        k = k + 1;
    }
    (tokens, code)
}

/// The parsed program of a source text, with the exit code of the `parse`
/// command: a failure exactly when the program holds an invalid node.
pub fn parse_with_code(s: &str) -> (r: (Program, u8))
    ensures
        r.0@ == spec_parse(spec_tokenize(s@)),
        r.1 == 0 <==> decls_valid(spec_parse(spec_tokenize(s@))),
        r.1 == 0 || r.1 == 65,
{
    let tokens = tokenize(s);
    proof {
        crate::lexer::lemma_tokenize_single_eof(s@);
    }
    let mut parser = Parser::new(tokens);
    let prog = parser.parse();
    let code: u8 = match prog.syntax_errors() {
        None => 0,
        Some(_) => PARSE_ERROR_CODE,
    };
    (prog, code)
}

/// The message of a halted run, if one halted it.
pub open spec fn err_msg_of(o: Option<EvalError>) -> Option<Seq<char>> {
    match o {
        Some(err) => Some(err.s@),
        None => None,
    }
}

/// Whether evaluating the parsed declarations of the source text `src`
/// from a fresh single-scope environment can yield the statement results
/// `outs`, halted by the error `err` if one is present, and leave the
/// environment `envf`.
pub open spec fn run_of(
    src: Seq<char>,
    outs: Seq<StatementEvalResultV>,
    err: Option<Seq<char>>,
    envf: Seq<ScopeV>,
) -> bool {
    decls_rel(
        seq![Seq::<(Seq<char>, EvalResultV)>::empty()],
        spec_parse(spec_tokenize(src)),
        outs,
        err,
        envf,
    )
}

/// The evaluated program of a source text: the statement results up to the
/// first runtime error, the error if one halted evaluation, and the exit
/// code: a syntax failure wins over a runtime failure, which wins over
/// success. There is never both a full result sequence and an error. The
/// results and the error are those of evaluating the parsed declarations
/// in source order from a fresh single-scope environment, as `decls_rel`
/// describes the run.
pub fn evaluate_with_code<N: NumberOps>(ops: &N, s: &str) -> (r: (
    Vec<StatementEvalResult>,
    Option<EvalError>,
    u8,
))
    ensures
        exists|envf: Seq<ScopeV>| #[trigger] run_of(s@, sers_v(r.0@), err_msg_of(r.1), envf),
        r.1 is None ==> r.0@.len() == spec_parse(spec_tokenize(s@)).len(),
        r.1 is Some ==> r.0@.len() < spec_parse(spec_tokenize(s@)).len(),
        r.2 == if !decls_valid(spec_parse(spec_tokenize(s@))) {
            65u8
        } else if r.1 is Some {
            70u8
        } else {
            0u8
        },
{
    let (prog, code) = parse_with_code(s);
    let mut ev = Evaluator::new();
    let (results, opt_err) = ev.eval(ops, &prog);
    proof {
        crate::parser::lemma_decls_v_len_pub(&prog);
    }
    let has_err = match &opt_err {
        Some(_) => true,
        None => false,
    };
    let code2: u8 = if code == 0 && has_err {
        RUNTIME_ERROR_CODE
    } else {
        code
    };
    let out = (results, opt_err, code2);
    proof {
        assert(run_of(s@, sers_v(out.0@), err_msg_of(out.1), ev.env_v()));
        assert(exists|envf: Seq<ScopeV>|
            #[trigger] run_of(s@, sers_v(out.0@), err_msg_of(out.1), envf));
    }
    out
}

/// The values the `run` command prints: those of print statements, in
/// source order, blocks flattened.
pub open spec fn prints_of(v: StatementEvalResultV) -> Seq<EvalResultV>
    decreases v,
{
    match v {
        StatementEvalResultV::Print(x) => seq![x],
        StatementEvalResultV::Expr(_) => Seq::empty(),
        StatementEvalResultV::Block(rs) => prints_of_list(rs),
    }
}

/// The printed values of a result sequence, in order.
pub open spec fn prints_of_list(rs: Seq<StatementEvalResultV>) -> Seq<EvalResultV>
    decreases rs,
{
    if rs.len() == 0 {
        Seq::empty()
    } else {
        prints_of(rs[0]) + prints_of_list(rs.subrange(1, rs.len() as int))
    }
}

/// The values the `evaluate` command prints: one for every statement
/// result, in source order, blocks flattened.
pub open spec fn alls_of(v: StatementEvalResultV) -> Seq<EvalResultV>
    decreases v,
{
    match v {
        StatementEvalResultV::Print(x) => seq![x],
        StatementEvalResultV::Expr(x) => seq![x],
        StatementEvalResultV::Block(rs) => alls_of_list(rs),
    }
}

/// The evaluated values of a result sequence, in order.
pub open spec fn alls_of_list(rs: Seq<StatementEvalResultV>) -> Seq<EvalResultV>
    decreases rs,
{
    if rs.len() == 0 {
        Seq::empty()
    } else {
        alls_of(rs[0]) + alls_of_list(rs.subrange(1, rs.len() as int))
    }
}

/// The concatenated printed values of the first `k` results.
pub open spec fn prints_upto(rs: Seq<StatementEvalResultV>, k: int) -> Seq<EvalResultV>
    decreases k,
{
    if k <= 0 {
        Seq::empty()
    } else {
        prints_upto(rs, k - 1) + prints_of(rs[k - 1])
    }
}

/// Splitting the printed values at `k`.
pub proof fn lemma_prints_parts(rs: Seq<StatementEvalResultV>, k: int)
    requires
        0 <= k <= rs.len(),
    ensures
        prints_of_list(rs) == prints_upto(rs, k) + prints_of_list(rs.subrange(k, rs.len() as int)),
    decreases k,
{
    if k == 0 {
        assert(rs.subrange(0, rs.len() as int) =~= rs);
        assert(prints_of_list(rs) =~= prints_upto(rs, 0) + prints_of_list(
            rs.subrange(0, rs.len() as int),
        ));
    } else {
        lemma_prints_parts(rs, k - 1);
        let tail = rs.subrange(k - 1, rs.len() as int);
        assert(tail[0] == rs[k - 1]);
        assert(tail.subrange(1, tail.len() as int) =~= rs.subrange(k, rs.len() as int));
        assert(prints_of_list(rs) =~= prints_upto(rs, k) + prints_of_list(
            rs.subrange(k, rs.len() as int),
        ));
    }
}

/// The concatenated evaluated values of the first `k` results.
pub open spec fn alls_upto(rs: Seq<StatementEvalResultV>, k: int) -> Seq<EvalResultV>
    decreases k,
{
    if k <= 0 {
        Seq::empty()
    } else {
        alls_upto(rs, k - 1) + alls_of(rs[k - 1])
    }
}

/// Splitting the evaluated values at `k`.
pub proof fn lemma_alls_parts(rs: Seq<StatementEvalResultV>, k: int)
    requires
        0 <= k <= rs.len(),
    ensures
        alls_of_list(rs) == alls_upto(rs, k) + alls_of_list(rs.subrange(k, rs.len() as int)),
    decreases k,
{
    if k == 0 {
        assert(rs.subrange(0, rs.len() as int) =~= rs);
        assert(alls_of_list(rs) =~= alls_upto(rs, 0) + alls_of_list(
            rs.subrange(0, rs.len() as int),
        ));
    } else {
        lemma_alls_parts(rs, k - 1);
        let tail = rs.subrange(k - 1, rs.len() as int);
        assert(tail[0] == rs[k - 1]);
        assert(tail.subrange(1, tail.len() as int) =~= rs.subrange(k, rs.len() as int));
        assert(alls_of_list(rs) =~= alls_upto(rs, k) + alls_of_list(
            rs.subrange(k, rs.len() as int),
        ));
    }
}

/// The values the `run` command prints for one result, as `prints_of`
/// describes them.
#[verifier::loop_isolation(false)]
pub fn print_values_of(r: &StatementEvalResult) -> (out: Vec<EvalResult>)
    ensures
        out@.map_values(|v: EvalResult| v@) == prints_of(ser_v(r)),
    decreases r,
{
    let mut out: Vec<EvalResult> = Vec::new();
    match r {
        StatementEvalResult::PrintStatementResult(v) => {
            out.push(v.clone());
            proof {
                assert(out@.map_values(|v2: EvalResult| v2@) =~= prints_of(ser_v(r)));
            }
        },
        StatementEvalResult::ExpressionStatementResult(_) => {
            proof {
                assert(out@.map_values(|v2: EvalResult| v2@) =~= prints_of(ser_v(r)));
            }
        },
        StatementEvalResult::BlockResult(rs) => {
            proof {
                crate::evaluator::lemma_sers_v_len(rs@);
            }
            let mut k: usize = 0;
            while k < rs.len()
                invariant
                    k <= rs.len(),
                    out@.map_values(|v2: EvalResult| v2@) == prints_upto(sers_v(rs@), k as int),
                decreases rs.len() - k,
            {
                proof {
                    crate::evaluator::lemma_sers_v_index(rs@, k as int);
                    vstd::std_specs::vec::axiom_vec_index_decreases(*rs, k as int);
                }
                let ghost before = out@.map_values(|v2: EvalResult| v2@);
                let mut sub = print_values_of(&rs[k]);
                let ghost subv = sub@.map_values(|v2: EvalResult| v2@);
                out.append(&mut sub);
                proof {
                    assert(out@.map_values(|v2: EvalResult| v2@) =~= before + subv);
                }
                k = k + 1;
            }
            proof {
                lemma_prints_parts(sers_v(rs@), sers_v(rs@).len() as int);
                assert(sers_v(rs@).subrange(
                    sers_v(rs@).len() as int,
                    sers_v(rs@).len() as int,
                ) =~= Seq::<StatementEvalResultV>::empty());
                assert(out@.map_values(|v2: EvalResult| v2@) =~= prints_of(ser_v(r)));
            }
        },
    }
    out
}

/// The values the `evaluate` command prints for one result, as `alls_of`
/// describes them.
#[verifier::loop_isolation(false)]
pub fn all_values_of(r: &StatementEvalResult) -> (out: Vec<EvalResult>)
    ensures
        out@.map_values(|v: EvalResult| v@) == alls_of(ser_v(r)),
    decreases r,
{
    let mut out: Vec<EvalResult> = Vec::new();
    match r {
        StatementEvalResult::PrintStatementResult(v) => {
            out.push(v.clone());
            proof {
                assert(out@.map_values(|v2: EvalResult| v2@) =~= alls_of(ser_v(r)));
            }
        },
        StatementEvalResult::ExpressionStatementResult(v) => {
            out.push(v.clone());
            proof {
                assert(out@.map_values(|v2: EvalResult| v2@) =~= alls_of(ser_v(r)));
            }
        },
        StatementEvalResult::BlockResult(rs) => {
            proof {
                crate::evaluator::lemma_sers_v_len(rs@);
            }
            let mut k: usize = 0;
            while k < rs.len()
                invariant
                    k <= rs.len(),
                    out@.map_values(|v2: EvalResult| v2@) == alls_upto(sers_v(rs@), k as int),
                decreases rs.len() - k,
            {
                proof {
                    crate::evaluator::lemma_sers_v_index(rs@, k as int);
                    vstd::std_specs::vec::axiom_vec_index_decreases(*rs, k as int);
                }
                let ghost before = out@.map_values(|v2: EvalResult| v2@);
                let mut sub = all_values_of(&rs[k]);
                let ghost subv = sub@.map_values(|v2: EvalResult| v2@);
                out.append(&mut sub);
                proof {
                    assert(out@.map_values(|v2: EvalResult| v2@) =~= before + subv);
                }
                k = k + 1;
            }
            proof {
                lemma_alls_parts(sers_v(rs@), sers_v(rs@).len() as int);
                assert(sers_v(rs@).subrange(
                    sers_v(rs@).len() as int,
                    sers_v(rs@).len() as int,
                ) =~= Seq::<StatementEvalResultV>::empty());
                assert(out@.map_values(|v2: EvalResult| v2@) =~= alls_of(ser_v(r)));
            }
        },
    }
    out
}

/// The values the `run` command prints for a whole result sequence.
#[verifier::loop_isolation(false)]
pub fn print_values(rs: &Vec<StatementEvalResult>) -> (out: Vec<EvalResult>)
    ensures
        out@.map_values(|v: EvalResult| v@) == prints_of_list(sers_v(rs@)),
{
    proof {
        crate::evaluator::lemma_sers_v_len(rs@);
    }
    let mut out: Vec<EvalResult> = Vec::new();
    let mut k: usize = 0;
    while k < rs.len()
        invariant
            k <= rs.len(),
            out@.map_values(|v2: EvalResult| v2@) == prints_upto(sers_v(rs@), k as int),
        decreases rs.len() - k,
    {
        proof {
            crate::evaluator::lemma_sers_v_index(rs@, k as int);
        }
        let ghost before = out@.map_values(|v2: EvalResult| v2@);
        let mut sub = print_values_of(&rs[k]);
        let ghost subv = sub@.map_values(|v2: EvalResult| v2@);
        out.append(&mut sub);
        proof {
            assert(out@.map_values(|v2: EvalResult| v2@) =~= before + subv);
        }
        k = k + 1;
    }
    proof {
        lemma_prints_parts(sers_v(rs@), sers_v(rs@).len() as int);
        assert(sers_v(rs@).subrange(sers_v(rs@).len() as int, sers_v(rs@).len() as int)
            =~= Seq::<StatementEvalResultV>::empty());
        assert(out@.map_values(|v2: EvalResult| v2@) =~= prints_of_list(sers_v(rs@)));
    }
    out
}

/// The values the `evaluate` command prints for a whole result sequence.
#[verifier::loop_isolation(false)]
pub fn all_values(rs: &Vec<StatementEvalResult>) -> (out: Vec<EvalResult>)
    ensures
        out@.map_values(|v: EvalResult| v@) == alls_of_list(sers_v(rs@)),
{
    proof {
        crate::evaluator::lemma_sers_v_len(rs@);
    }
    let mut out: Vec<EvalResult> = Vec::new();
    let mut k: usize = 0;
    while k < rs.len()
        invariant
            k <= rs.len(),
            out@.map_values(|v2: EvalResult| v2@) == alls_upto(sers_v(rs@), k as int),
        decreases rs.len() - k,
    {
        proof {
            crate::evaluator::lemma_sers_v_index(rs@, k as int);
        }
        let ghost before = out@.map_values(|v2: EvalResult| v2@);
        let mut sub = all_values_of(&rs[k]);
        let ghost subv = sub@.map_values(|v2: EvalResult| v2@);
        out.append(&mut sub);
        proof {
            assert(out@.map_values(|v2: EvalResult| v2@) =~= before + subv);
        }
        k = k + 1;
    }
    proof {
        lemma_alls_parts(sers_v(rs@), sers_v(rs@).len() as int);
        assert(sers_v(rs@).subrange(sers_v(rs@).len() as int, sers_v(rs@).len() as int)
            =~= Seq::<StatementEvalResultV>::empty());
        assert(out@.map_values(|v2: EvalResult| v2@) =~= alls_of_list(sers_v(rs@)));
    }
    out
}

/// The `run` and `evaluate` commands agree on a single-expression program:
/// evaluating one print statement, both print exactly its value; and for a
/// lone expression statement, `evaluate` prints its value while `run`
/// prints nothing.
pub proof fn lemma_run_evaluate_single(v: EvalResultV)
    ensures
        prints_of_list(seq![StatementEvalResultV::Print(v)]) == seq![v],
        alls_of_list(seq![StatementEvalResultV::Print(v)]) == seq![v],
        alls_of_list(seq![StatementEvalResultV::Expr(v)]) == seq![v],
        prints_of_list(seq![StatementEvalResultV::Expr(v)]) == Seq::<EvalResultV>::empty(),
{
    reveal_with_fuel(prints_of_list, 2);
    reveal_with_fuel(alls_of_list, 2);
    let p = seq![StatementEvalResultV::Print(v)];
    let e = seq![StatementEvalResultV::Expr(v)];
    assert(p.subrange(1, 1) =~= Seq::<StatementEvalResultV>::empty());
    assert(e.subrange(1, 1) =~= Seq::<StatementEvalResultV>::empty());
    assert(prints_of_list(p) =~= seq![v]);
    assert(alls_of_list(p) =~= seq![v]);
    assert(alls_of_list(e) =~= seq![v]);
    assert(prints_of_list(e) =~= Seq::<EvalResultV>::empty());
}

/// `run` on a sequence of print-statement results emits exactly those
/// values, in source order.
pub proof fn lemma_run_prints_in_order(rs: Seq<StatementEvalResultV>)
    requires
        forall|k: int| 0 <= k < rs.len() ==> (#[trigger] rs[k]) is Print,
    ensures
        prints_of_list(rs).len() == rs.len(),
        forall|k: int| 0 <= k < rs.len() ==> #[trigger] prints_of_list(rs)[k] == rs[k]->Print_0,
    decreases rs.len(),
{
    if rs.len() > 0 {
        let tail = rs.subrange(1, rs.len() as int);
        lemma_run_prints_in_order(tail);
        assert(rs[0] is Print);
        assert(prints_of(rs[0]) == seq![rs[0]->Print_0]);
        assert forall|k: int| 0 <= k < rs.len() implies #[trigger] prints_of_list(rs)[k]
            == rs[k]->Print_0 by {
            if k > 0 {
                assert(prints_of_list(rs)[k] == prints_of_list(tail)[k - 1]);
                assert(tail[k - 1] == rs[k]);
            }
        }
    }
}

} // verus!
