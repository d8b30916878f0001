//! Laws that relate whole runs of the pipeline.

use vstd::prelude::*;
use crate::eval::{eval_outcome, eval_run, eval_step, trace_spec, EvalError};
use crate::lexer::lex_spec;
use crate::process::{process_post, strip_spaces};
use crate::shunting::{drain, pop_ops, pop_to_open, shunt_run, shunt_spec, SyntaxError};
use crate::table::need_pop_spec;
use crate::token::{OpSym, TokenView};

verus! {

/// The RPN form that one input line converts to, when every stage up to the
/// evaluator succeeds; the empty sequence otherwise.
pub open spec fn pipeline_rpn(s: Seq<char>) -> Seq<TokenView> {
    match lex_spec(strip_spaces(s)) {
        Ok(toks) => match shunt_spec(toks) {
            Ok(rpn) => rpn,
            Err(_) => Seq::empty(),
        },
        Err(_) => Seq::empty(),
    }
}

/// Whether evaluating one input line ends in a literal the calculator never
/// touched, so that the whole display line is a function of the input.
pub open spec fn pipeline_ends_in_literal(s: Seq<char>) -> bool {
    match lex_spec(strip_spaces(s)) {
        Ok(toks) => match shunt_spec(toks) {
            Ok(rpn) => match eval_outcome(rpn) {
                Ok(fin) => fin is Some,
                Err(_) => false,
            },
            Err(_) => false,
        },
        Err(_) => false,
    }
}

/// Law: processing holds no hidden state.  Any two results that `process`
/// may return for one and the same input line take the same branch and
/// carry the same diagnostic; on success both display lines start with the
/// same RPN trace, and when the evaluation ends in a literal the calculator
/// never touched, the display lines are the same throughout.  Only the
/// digits of a result computed by the calculator's floating-point
/// arithmetic lie outside this statement.
pub proof fn lemma_process_deterministic(
    s: Seq<char>,
    r1: Result<String, String>,
    r2: Result<String, String>,
)
    requires
        process_post(s, r1),
        process_post(s, r2),
    ensures
        r1 is Ok <==> r2 is Ok,
        r1 is Err ==> r1->Err_0@ == r2->Err_0@,
        r1 is Ok ==> r1->Ok_0@.take(trace_spec(pipeline_rpn(s)).len() as int) == r2->Ok_0@.take(
            trace_spec(pipeline_rpn(s)).len() as int,
        ),
        r1 is Ok && pipeline_ends_in_literal(s) ==> r1->Ok_0@ == r2->Ok_0@,
{
    match lex_spec(strip_spaces(s)) {
        Err(_) => {},
        Ok(toks) => match shunt_spec(toks) {
            Err(_) => {},
            Ok(rpn) => match eval_outcome(rpn) {
                Err(_) => {},
                Ok(fin) => {
                    let t = trace_spec(rpn);
                    match fin {
                        Some(_) => {
                            assert(r1->Ok_0@.take(t.len() as int) =~= t);
                            assert(r2->Ok_0@.take(t.len() as int) =~= t);
                        },
                        None => {
                            let res1 = choose|res: Seq<char>|
                                r1->Ok_0@ == crate::process::display_of(t, res);
                            let res2 = choose|res: Seq<char>|
                                r2->Ok_0@ == crate::process::display_of(t, res);
                            assert(r1->Ok_0@ == crate::process::display_of(t, res1));
                            assert(r2->Ok_0@ == crate::process::display_of(t, res2));
                            assert(r1->Ok_0@.take(t.len() as int) =~= t);
                            assert(r2->Ok_0@.take(t.len() as int) =~= t);
                        },
                    }
                },
            },
        },
    }
}

/// A valid expression tail that still expects an operand at parenthesis
/// depth `d`: a run of unary signs, then either a numeric literal or a
/// parenthesized sub-expression, followed by what [`expr_after`] allows.
/// Functions and argument separators are not part of a valid expression:
/// a function is consumed without effect by the evaluator and leaves its
/// arguments behind.
pub open spec fn expr_unit(ts: Seq<TokenView>, i: int, d: int) -> bool
    decreases ts.len() - i, 0int when 0 <= i <= ts.len()
{
    if i >= ts.len() {
        false
    } else {
        match ts[i] {
            TokenView::UnaryOperator { op } => (op == OpSym::Pos || op == OpSym::Neg)
                && expr_unit(ts, i + 1, d),
            TokenView::OpenParen => expr_unit(ts, i + 1, d + 1),
            TokenView::IntegerLiteral { .. } => expr_after(ts, i + 1, d),
            TokenView::FloatLiteral { .. } => expr_after(ts, i + 1, d),
            _ => false,
        }
    }
}

/// A valid expression tail right after a complete operand at parenthesis
/// depth `d`: the end of input (once every parenthesis is closed), a
/// binary operator expecting the next operand, or a closing parenthesis.
pub open spec fn expr_after(ts: Seq<TokenView>, i: int, d: int) -> bool
    decreases ts.len() - i, 1int when 0 <= i <= ts.len()
{
    if i >= ts.len() {
        d == 0
    } else {
        match ts[i] {
            TokenView::BinaryOperator { .. } => expr_unit(ts, i + 1, d),
            TokenView::CloseParen => d > 0 && expr_after(ts, i + 1, d - 1),
            _ => false,
        }
    }
}

/// A balanced expression: one operand at depth zero, correctly continued.
pub open spec fn balanced_expr(ts: Seq<TokenView>) -> bool {
    expr_unit(ts, 0, 0)
}

/// A converter stack as the conversion of a balanced expression leaves it:
/// operators and opening parentheses only.
pub open spec fn stack_wf(st: Seq<TokenView>) -> bool {
    forall|k: int|
        0 <= k < st.len() ==> ((#[trigger] st[k]) is BinaryOperator || st[k] is UnaryOperator
            || st[k] is OpenParen)
}

/// How many binary operators a stack holds; each consumes one operand on
/// top of the one it leaves behind.
pub open spec fn bin_count(st: Seq<TokenView>) -> int
    decreases st.len(),
{
    if st.len() == 0 {
        0
    } else {
        bin_count(st.drop_last()) + if st.last() is BinaryOperator {
            1int
        } else {
            0int
        }
    }
}

/// How many opening parentheses a stack holds: the parenthesis depth of
/// the conversion.
pub open spec fn open_count(st: Seq<TokenView>) -> int
    decreases st.len(),
{
    if st.len() == 0 {
        0
    } else {
        open_count(st.drop_last()) + if st.last() is OpenParen {
            1int
        } else {
            0int
        }
    }
}

proof fn lemma_counts_nonneg(st: Seq<TokenView>)
    ensures
        0 <= bin_count(st) <= st.len(),
        0 <= open_count(st) <= st.len(),
    decreases st.len(),
{
    if st.len() > 0 {
        lemma_counts_nonneg(st.drop_last());
    }
}

proof fn lemma_counts_push(st: Seq<TokenView>, t: TokenView)
    ensures
        bin_count(st.push(t)) == bin_count(st) + if t is BinaryOperator {
            1int
        } else {
            0int
        },
        open_count(st.push(t)) == open_count(st) + if t is OpenParen {
            1int
        } else {
            0int
        },
{
    assert(st.push(t).drop_last() =~= st);
}

proof fn lemma_stack_wf_drop_last(st: Seq<TokenView>)
    requires
        stack_wf(st),
        st.len() > 0,
    ensures
        stack_wf(st.drop_last()),
{
    assert forall|k: int|
        0 <= k < st.drop_last().len() implies ((#[trigger] st.drop_last()[k]) is BinaryOperator
        || st.drop_last()[k] is UnaryOperator || st.drop_last()[k] is OpenParen) by {
        assert(st.drop_last()[k] == st[k]);
    }
}

proof fn lemma_stack_wf_push(st: Seq<TokenView>, t: TokenView)
    requires
        stack_wf(st),
        t is BinaryOperator || t is UnaryOperator || t is OpenParen,
    ensures
        stack_wf(st.push(t)),
{
    assert forall|k: int|
        0 <= k < st.push(t).len() implies ((#[trigger] st.push(t)[k]) is BinaryOperator || st.push(
            t,
        )[k] is UnaryOperator || st.push(t)[k] is OpenParen) by {
        if k < st.len() {
            assert(st.push(t)[k] == st[k]);
        }
    }
}

/// Appending one token to an RPN sequence runs the evaluator's stack
/// discipline one step further.
proof fn lemma_eval_run_snoc(ts: Seq<TokenView>, t: TokenView, i: int, st: Seq<Option<TokenView>>)
    requires
        0 <= i <= ts.len(),
    ensures
        eval_run(ts.push(t), i, st) == (match eval_run(ts, i, st) {
            Ok(st2) => eval_step(st2, t),
            Err(e) => Err(e),
        }),
    decreases ts.len() - i,
{
    if i < ts.len() {
        assert(ts.push(t)[i] == ts[i]);
        match eval_step(st, ts[i]) {
            Ok(st2) => {
                lemma_eval_run_snoc(ts, t, i + 1, st2);
            },
            Err(_) => {},
        }
    } else {
        assert(ts.push(t)[i] == t);
        match eval_step(st, t) {
            Ok(st3) => {
                assert(eval_run(ts.push(t), i + 1, st3) == Ok::<_, EvalError>(st3));
            },
            Err(_) => {},
        }
    }
}

/// Popping tighter-binding operators keeps the output evaluable, the
/// parenthesis depth, and the operand count one ahead of the binary
/// operators still stacked.
proof fn lemma_pop_ops_valid(
    out: Seq<TokenView>,
    st: Seq<TokenView>,
    sym: OpSym,
    gst: Seq<Option<TokenView>>,
) -> (gst2: Seq<Option<TokenView>>)
    requires
        stack_wf(st),
        eval_run(out, 0, Seq::empty()) == Ok::<_, EvalError>(gst),
        gst.len() == bin_count(st) + 1,
    ensures
        stack_wf(pop_ops(out, st, sym).1),
        open_count(pop_ops(out, st, sym).1) == open_count(st),
        eval_run(pop_ops(out, st, sym).0, 0, Seq::empty()) == Ok::<_, EvalError>(gst2),
        gst2.len() == bin_count(pop_ops(out, st, sym).1) + 1,
    decreases st.len(),
{
    if st.len() == 0 {
        gst
    } else {
        match st.last() {
            TokenView::BinaryOperator { op } => {
                if need_pop_spec(sym, op) {
                    lemma_eval_run_snoc(out, st.last(), 0, Seq::empty());
                    lemma_counts_nonneg(st.drop_last());
                    let gst1 = gst.drop_last().drop_last().push(None);
                    lemma_stack_wf_drop_last(st);
                    lemma_pop_ops_valid(out.push(st.last()), st.drop_last(), sym, gst1)
                } else {
                    gst
                }
            },
            _ => gst,
        }
    }
}

/// Popping to the enclosing opening parenthesis keeps the output evaluable
/// and finds the parenthesis whenever the depth is positive.
proof fn lemma_pop_to_open_valid(
    out: Seq<TokenView>,
    st: Seq<TokenView>,
    gst: Seq<Option<TokenView>>,
) -> (gst2: Seq<Option<TokenView>>)
    requires
        stack_wf(st),
        open_count(st) > 0,
        eval_run(out, 0, Seq::empty()) == Ok::<_, EvalError>(gst),
        gst.len() == bin_count(st) + 1,
    ensures
        pop_to_open(out, st).1.len() > 0,
        pop_to_open(out, st).1.last() is OpenParen,
        stack_wf(pop_to_open(out, st).1),
        open_count(pop_to_open(out, st).1) == open_count(st),
        bin_count(pop_to_open(out, st).1) == bin_count(pop_to_open(out, st).1.drop_last()),
        eval_run(pop_to_open(out, st).0, 0, Seq::empty()) == Ok::<_, EvalError>(gst2),
        gst2.len() == bin_count(pop_to_open(out, st).1) + 1,
    decreases st.len(),
{
    lemma_counts_nonneg(st.drop_last());
    if st.last() is OpenParen {
        gst
    } else {
        lemma_eval_run_snoc(out, st.last(), 0, Seq::empty());
        lemma_stack_wf_drop_last(st);
        match st.last() {
            TokenView::BinaryOperator { .. } => {
                lemma_pop_to_open_valid(
                    out.push(st.last()),
                    st.drop_last(),
                    gst.drop_last().drop_last().push(None),
                )
            },
            _ => {
                lemma_pop_to_open_valid(
                    out.push(st.last()),
                    st.drop_last(),
                    gst.drop_last().push(None),
                )
            },
        }
    }
}

/// Draining a stack free of parentheses yields an RPN sequence that
/// evaluates to exactly one value.
proof fn lemma_drain_valid(out: Seq<TokenView>, st: Seq<TokenView>, gst: Seq<Option<TokenView>>)
    requires
        stack_wf(st),
        open_count(st) == 0,
        eval_run(out, 0, Seq::empty()) == Ok::<_, EvalError>(gst),
        gst.len() == bin_count(st) + 1,
    ensures
        drain(out, st) matches Ok(rpn) && eval_outcome(rpn) is Ok,
    decreases st.len(),
{
    if st.len() == 0 {
    } else {
        lemma_eval_run_snoc(out, st.last(), 0, Seq::empty());
        lemma_counts_nonneg(st.drop_last());
        lemma_stack_wf_drop_last(st);
        if st.last() is BinaryOperator {
            lemma_drain_valid(
                out.push(st.last()),
                st.drop_last(),
                gst.drop_last().drop_last().push(None),
            );
        } else {
            lemma_drain_valid(out.push(st.last()), st.drop_last(), gst.drop_last().push(None));
        }
    }
}

/// Running the converter over the rest of a balanced expression, an
/// operand still expected, succeeds and leaves an evaluable RPN form.
proof fn lemma_expr_unit_run(
    ts: Seq<TokenView>,
    i: int,
    d: int,
    out: Seq<TokenView>,
    st: Seq<TokenView>,
    gst: Seq<Option<TokenView>>,
)
    requires
        expr_unit(ts, i, d),
        0 <= i < ts.len(),
        stack_wf(st),
        open_count(st) == d,
        eval_run(out, 0, Seq::empty()) == Ok::<_, EvalError>(gst),
        gst.len() == bin_count(st),
    ensures
        shunt_run(ts, i, out, st) matches Ok(p) && (drain(p.0, p.1) matches Ok(rpn)
            && eval_outcome(rpn) is Ok),
    decreases ts.len() - i, 0int,
{
    match ts[i] {
        TokenView::UnaryOperator { op } => {
            assert(pop_ops(out, st, op) == (out, st)) by {
                if st.len() > 0 {
                    match st.last() {
                        TokenView::BinaryOperator { op: op2 } => {
                            assert(!need_pop_spec(op, op2));
                        },
                        _ => {},
                    }
                }
            }
            let st1 = st.push(ts[i]);
            lemma_counts_push(st, ts[i]);
            lemma_stack_wf_push(st, ts[i]);
            assert(crate::shunting::shunt_step(out, st, ts[i]) == Ok::<_, SyntaxError>((out, st1)));
            assert(shunt_run(ts, i, out, st) == shunt_run(ts, i + 1, out, st1));
            assert(expr_unit(ts, i + 1, d));
            assert(i + 1 < ts.len());
            lemma_expr_unit_run(ts, i + 1, d, out, st1, gst);
        },
        TokenView::OpenParen => {
            let st1 = st.push(ts[i]);
            lemma_counts_push(st, ts[i]);
            lemma_stack_wf_push(st, ts[i]);
            assert(crate::shunting::shunt_step(out, st, ts[i]) == Ok::<_, SyntaxError>((out, st1)));
            assert(shunt_run(ts, i, out, st) == shunt_run(ts, i + 1, out, st1));
            assert(expr_unit(ts, i + 1, d + 1));
            assert(i + 1 < ts.len());
            lemma_expr_unit_run(ts, i + 1, d + 1, out, st1, gst);
        },
        _ => {
            // a numeric literal goes straight to the output
            let out1 = out.push(ts[i]);
            lemma_eval_run_snoc(out, ts[i], 0, Seq::empty());
            let gst1 = gst.push(Some(ts[i]));
            assert(eval_run(out1, 0, Seq::empty()) == Ok::<_, EvalError>(gst1));
            assert(crate::shunting::shunt_step(out, st, ts[i]) == Ok::<_, SyntaxError>((out1, st)));
            assert(shunt_run(ts, i, out, st) == shunt_run(ts, i + 1, out1, st));
            assert(expr_after(ts, i + 1, d));
            lemma_expr_after_run(ts, i + 1, d, out1, st, gst1);
        },
    }
}

/// Running the converter over the rest of a balanced expression, right
/// after a complete operand, succeeds and leaves an evaluable RPN form.
proof fn lemma_expr_after_run(
    ts: Seq<TokenView>,
    i: int,
    d: int,
    out: Seq<TokenView>,
    st: Seq<TokenView>,
    gst: Seq<Option<TokenView>>,
)
    requires
        expr_after(ts, i, d),
        0 <= i <= ts.len(),
        stack_wf(st),
        open_count(st) == d,
        eval_run(out, 0, Seq::empty()) == Ok::<_, EvalError>(gst),
        gst.len() == bin_count(st) + 1,
    ensures
        shunt_run(ts, i, out, st) matches Ok(p) && (drain(p.0, p.1) matches Ok(rpn)
            && eval_outcome(rpn) is Ok),
    decreases ts.len() - i, 1int,
{
    if i >= ts.len() {
        assert(shunt_run(ts, i, out, st) == Ok::<_, SyntaxError>((out, st)));
        lemma_drain_valid(out, st, gst);
    } else {
        match ts[i] {
            TokenView::BinaryOperator { op } => {
                let gst2 = lemma_pop_ops_valid(out, st, op, gst);
                let p = pop_ops(out, st, op);
                let st2 = p.1.push(ts[i]);
                lemma_counts_push(p.1, ts[i]);
                lemma_stack_wf_push(p.1, ts[i]);
                assert(crate::shunting::shunt_step(out, st, ts[i]) == Ok::<_, SyntaxError>(
                    (p.0, st2),
                ));
                assert(shunt_run(ts, i, out, st) == shunt_run(ts, i + 1, p.0, st2));
                assert(expr_unit(ts, i + 1, d));
                assert(i + 1 < ts.len());
                lemma_expr_unit_run(ts, i + 1, d, p.0, st2, gst2);
            },
            TokenView::CloseParen => {
                let gst2 = lemma_pop_to_open_valid(out, st, gst);
                let p = pop_to_open(out, st);
                let st3 = p.1.drop_last();
                lemma_stack_wf_drop_last(p.1);
                lemma_counts_push(st3, p.1.last());
                assert(st3.push(p.1.last()) =~= p.1);
                assert(open_count(st3) == d - 1);
                assert(!(st3.len() > 0 && st3.last() is Function)) by {
                    if st3.len() > 0 {
                        assert(st3[st3.len() - 1] is BinaryOperator || st3[st3.len() - 1]
                            is UnaryOperator || st3[st3.len() - 1] is OpenParen);
                    }
                }
                assert(crate::shunting::shunt_step(out, st, ts[i]) == Ok::<_, SyntaxError>(
                    (p.0, st3),
                ));
                assert(shunt_run(ts, i, out, st) == shunt_run(ts, i + 1, p.0, st3));
                assert(expr_after(ts, i + 1, d - 1));
                lemma_expr_after_run(ts, i + 1, d - 1, p.0, st3, gst2);
            },
            _ => {},
        }
    }
}

/// Law: a balanced expression — numeric literals with unary signs, joined
/// by binary operators and grouped by balanced parentheses — always
/// converts to RPN, and the RPN form evaluates to exactly one value:
/// conversion followed by evaluation cannot fail on such an expression.
/// (What value the arithmetic produces is the calculator's business and
/// outside this statement.)
pub proof fn lemma_balanced_expr_evaluates(ts: Seq<TokenView>)
    requires
        balanced_expr(ts),
    ensures
        shunt_spec(ts) matches Ok(rpn) && eval_outcome(rpn) is Ok,
{
    lemma_expr_unit_run(ts, 0, 0, Seq::empty(), Seq::empty(), Seq::empty());
}

/// Law: an input line that lexes to a balanced expression is always
/// processed successfully — no stage after the lexer can fail on it.
pub proof fn lemma_balanced_expr_processes(s: Seq<char>, r: Result<String, String>)
    requires
        process_post(s, r),
        lex_spec(strip_spaces(s)) matches Ok(ts) && balanced_expr(ts),
    ensures
        r is Ok,
{
    match lex_spec(strip_spaces(s)) {
        Ok(ts) => {
            lemma_balanced_expr_evaluates(ts);
        },
        Err(_) => {},
    }
}

} // verus!
