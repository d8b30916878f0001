//! The RPN evaluator: consumes the RPN queue with a LIFO operand stack,
//! dispatching on token kinds, and yields the RPN trace together with the
//! final scalar result.
//!
//! The arithmetic itself is single-precision floating point, which the
//! verified pipeline cannot carry; it is supplied by the caller through the
//! [`Calculator`] trait.  Everything else — which operands each operator
//! consumes, every failure, the trace, and which lexeme survives untouched —
//! is pinned down here, for every calculator.

use vstd::prelude::*;
use vstd::string::StringExecFns;
use crate::containers::{Queue, Stack};
use crate::shunting::token_views;
use crate::token::{lexeme_of, OpSym, Token, TokenView};

verus! {

/// The RPN sequence is operationally invalid: an operator found too few
/// operands, or the final stack did not reduce to exactly one numeric
/// value.  After a successful conversion this indicates a defect of an
/// upstream stage; it exists as a defensive check.
#[derive(Clone, Copy, PartialEq, Eq, Structural, Debug)]
pub enum EvalError {
    MalformedRpn,
}

/// The arithmetic of the evaluator, supplied by the caller.  Operands and
/// results travel as literal lexemes; the callee parses them as
/// single-precision floats, applies the operator, and renders the result
/// with exactly two fractional digits.
pub trait Calculator {
    /// Applies a binary operator: `arg1` is the earlier-pushed, left-hand
    /// operand.
    fn calc_binary_operator(&self, op: OpSym, arg1: &str, arg2: &str) -> String;

    /// Applies a unary operator: `POS` is identity, `NEG` negates; both
    /// re-render the operand.
    fn calc_unary_operator(&self, op: OpSym, arg: &str) -> String;
}

/// One step of the evaluator on the operand stack, tracking a pushed
/// literal as `Some` of its view and a calculator result as `None`.
pub open spec fn eval_step(st: Seq<Option<TokenView>>, t: TokenView) -> Result<
    Seq<Option<TokenView>>,
    EvalError,
> {
    match t {
        TokenView::IntegerLiteral { .. } => Ok(st.push(Some(t))),
        TokenView::FloatLiteral { .. } => Ok(st.push(Some(t))),
        TokenView::BinaryOperator { .. } => if st.len() >= 2 {
            Ok(st.drop_last().drop_last().push(None))
        } else {
            Err(EvalError::MalformedRpn)
        },
        TokenView::UnaryOperator { .. } => if st.len() >= 1 {
            Ok(st.drop_last().push(None))
        } else {
            Err(EvalError::MalformedRpn)
        },
        TokenView::Function { .. } => Ok(st),
        _ => Err(EvalError::MalformedRpn),
    }
}

/// Runs the evaluator's stack discipline from token `i` on.
pub open spec fn eval_run(ts: Seq<TokenView>, i: int, st: Seq<Option<TokenView>>) -> Result<
    Seq<Option<TokenView>>,
    EvalError,
>
    decreases ts.len() - i when 0 <= i <= ts.len()
{
    if i >= ts.len() {
        Ok(st)
    } else {
        match eval_step(st, ts[i]) {
            Err(e) => Err(e),
            Ok(st2) => eval_run(ts, i + 1, st2),
        }
    }
}

/// What evaluating an RPN sequence yields: `Ok(Some(lexeme view))` when the
/// sole surviving operand is a literal the calculator never touched,
/// `Ok(None)` when it is a calculator result, and the error otherwise.
pub open spec fn eval_outcome(ts: Seq<TokenView>) -> Result<Option<TokenView>, EvalError> {
    match eval_run(ts, 0, Seq::empty()) {
        Err(e) => Err(e),
        Ok(st) => if st.len() == 1 {
            Ok(st[0])
        } else {
            Err(EvalError::MalformedRpn)
        },
    }
}

/// The RPN trace from token `i` on: each lexeme followed by one space.
pub open spec fn trace_from(ts: Seq<TokenView>, i: int) -> Seq<char>
    decreases ts.len() - i when 0 <= i <= ts.len()
{
    if i >= ts.len() {
        Seq::empty()
    } else {
        lexeme_of(ts[i]) + seq![' '] + trace_from(ts, i + 1)
    }
}

/// The full RPN trace of a token sequence.
pub open spec fn trace_spec(ts: Seq<TokenView>) -> Seq<char> {
    trace_from(ts, 0)
}

/// Evaluates an RPN queue, returning the trace of the consumed tokens and
/// the final result lexeme.  The trace, every failure, and — whenever the
/// sole surviving operand is an untouched literal — the result itself are
/// pinned by [`trace_spec`] and [`eval_outcome`]; a result computed by the
/// calculator is whatever the calculator returned.
pub fn evaluate<C: Calculator>(rpn: Queue<Token>, calc: &C) -> (r: Result<
    (String, String),
    EvalError,
>)
    ensures
        match r {
            Ok(p) => eval_outcome(token_views(rpn@)) matches Ok(fin) && p.0@ == trace_spec(
                token_views(rpn@),
            ) && (fin matches Some(tv) ==> p.1@ == lexeme_of(tv)),
            Err(e) => eval_outcome(token_views(rpn@)) == Err::<Option<TokenView>, EvalError>(e),
        },
{
    let ghost ts = token_views(rpn@);
    let mut queue = rpn;
    let mut stack: Stack<Token> = Stack::new();
    let ghost mut gst: Seq<Option<TokenView>> = Seq::empty();
    let mut trace = String::new();
    let ghost mut i: int = 0;
    proof {
        assert(trace@ + trace_from(ts, 0) =~= trace_from(ts, 0));
    }
    loop
        invariant
            ts == token_views(rpn@),
            0 <= i <= ts.len(),
            queue@.len() == ts.len() - i,
            forall|k: int| 0 <= k < queue@.len() ==> (#[trigger] queue@[k])@ == ts[i + k],
            eval_run(ts, 0, Seq::empty()) == eval_run(ts, i, gst),
            trace_from(ts, 0) == trace@ + trace_from(ts, i),
            gst.len() == stack@.len(),
            forall|k: int|
                0 <= k < gst.len() ==> (#[trigger] gst[k] matches Some(tv) ==> stack@[k]@ == tv),
        ensures
            i == ts.len(),
            eval_run(ts, 0, Seq::empty()) == Ok::<_, EvalError>(gst),
            trace@ == trace_spec(ts),
            gst.len() == stack@.len(),
            forall|k: int|
                0 <= k < gst.len() ==> (#[trigger] gst[k] matches Some(tv) ==> stack@[k]@ == tv),
        decreases ts.len() - i,
    {
        let tok = match queue.dequeue() {
            Some(t) => t,
            None => {
                proof {
                    assert(trace@ =~= trace@ + trace_from(ts, i));
                }
                break ;
            },
        };
        proof {
            assert(tok@ == ts[i]);
        }
        let lx = tok.lexeme();
        let ghost tr0 = trace@;
        trace.append(lx.as_str());
        trace.append(" ");
        proof {
            reveal_strlit(" ");
            assert(" "@ =~= seq![' ']);
            assert(trace@ =~= tr0 + lexeme_of(ts[i]) + seq![' ']);
            assert(trace@ + trace_from(ts, i + 1) =~= tr0 + trace_from(ts, i));
        }
        match tok {
            Token::IntegerLiteral { .. } => {
                stack.push(tok);
                proof {
                    gst = gst.push(Some(ts[i]));
                }
            },
            Token::FloatLiteral { .. } => {
                stack.push(tok);
                proof {
                    gst = gst.push(Some(ts[i]));
                }
            },
            Token::BinaryOperator { op } => {
                let arg2 = match stack.pop() {
                    Some(t) => t,
                    None => {
                        return Err(EvalError::MalformedRpn);
                    },
                };
                let arg1 = match stack.pop() {
                    Some(t) => t,
                    None => {
                        return Err(EvalError::MalformedRpn);
                    },
                };
                let a1 = arg1.lexeme();
                let a2 = arg2.lexeme();
                let res = calc.calc_binary_operator(op, a1.as_str(), a2.as_str());
                stack.push(Token::FloatLiteral { lexeme: res });
                proof {
                    gst = gst.drop_last().drop_last().push(None);
                }
            },
            Token::UnaryOperator { op } => {
                let arg = match stack.pop() {
                    Some(t) => t,
                    None => {
                        return Err(EvalError::MalformedRpn);
                    },
                };
                let a = arg.lexeme();
                let res = calc.calc_unary_operator(op, a.as_str());
                stack.push(Token::FloatLiteral { lexeme: res });
                proof {
                    gst = gst.drop_last().push(None);
                }
            },
            Token::Function { .. } => {},
            Token::OpenParen => {
                return Err(EvalError::MalformedRpn);
            },
            Token::CloseParen => {
                return Err(EvalError::MalformedRpn);
            },
            Token::ArgumentSeparator => {
                return Err(EvalError::MalformedRpn);
            },
            Token::Whitespace => {
                return Err(EvalError::MalformedRpn);
            },
        }
        proof {
            i = i + 1;
        }
    }
    // exactly one numeric literal must remain on the operand stack
    let result = match stack.pop() {
        Some(t) => t,
        None => {
            return Err(EvalError::MalformedRpn);
        },
    };
    if !stack.is_empty() {
        return Err(EvalError::MalformedRpn);
    }
    let res_str = result.lexeme();
    Ok((trace, res_str))
}

} // verus!
