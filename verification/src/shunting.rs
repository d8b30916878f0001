//! The shunting-yard converter: turns the token sequence into Reverse
//! Polish Notation using an output queue and an operator/parenthesis stack.

use vstd::prelude::*;
use crate::containers::{Queue, Stack};
use crate::table::{need_op_pop_from_stack, need_pop_spec};
use crate::token::{Token, TokenView};

verus! {

/// A structural mismatch found while converting to RPN.
#[derive(Clone, Copy, PartialEq, Eq, Structural, Debug)]
pub enum SyntaxError {
    /// An argument separator drained the stack without meeting an
    /// opening parenthesis.
    MissingSeparatorOrOpeningParenthesis,
    /// A closing parenthesis drained the stack without meeting an
    /// opening parenthesis.
    MissingOpeningParenthesis,
    /// An opening parenthesis was still on the stack when the input ended.
    MissingClosingParenthesis,
}

/// The views of a token sequence.
pub open spec fn token_views(ts: Seq<Token>) -> Seq<TokenView> {
    Seq::new(ts.len(), |i: int| ts[i]@)
}

/// Moves stack entries to the output until an opening parenthesis is on
/// top of the stack, or the stack is empty.
pub open spec fn pop_to_open(out: Seq<TokenView>, st: Seq<TokenView>) -> (Seq<TokenView>, Seq<
    TokenView,
>)
    decreases st.len(),
{
    if st.len() == 0 {
        (out, st)
    } else if st.last() is OpenParen {
        (out, st)
    } else {
        pop_to_open(out.push(st.last()), st.drop_last())
    }
}

/// Moves binary operators that must be popped before `sym` is pushed from
/// the stack to the output.  Only binary operators participate: any other
/// stack top (an opening parenthesis, a function, a unary operator) stops
/// the popping.
pub open spec fn pop_ops(out: Seq<TokenView>, st: Seq<TokenView>, sym: crate::token::OpSym) -> (
    Seq<TokenView>,
    Seq<TokenView>,
)
    decreases st.len(),
{
    if st.len() == 0 {
        (out, st)
    } else {
        match st.last() {
            TokenView::BinaryOperator { op } => if need_pop_spec(sym, op) {
                pop_ops(out.push(st.last()), st.drop_last(), sym)
            } else {
                (out, st)
            },
            _ => (out, st),
        }
    }
}

/// One step of the converter's state machine on output queue `out` and
/// working stack `st`.  A `Whitespace` token is a defect of an earlier
/// stage and is ignored.
pub open spec fn shunt_step(out: Seq<TokenView>, st: Seq<TokenView>, t: TokenView) -> Result<
    (Seq<TokenView>, Seq<TokenView>),
    SyntaxError,
> {
    match t {
        TokenView::IntegerLiteral { .. } => Ok((out.push(t), st)),
        TokenView::FloatLiteral { .. } => Ok((out.push(t), st)),
        TokenView::Function { .. } => Ok((out, st.push(t))),
        TokenView::ArgumentSeparator => {
            let (out2, st2) = pop_to_open(out, st);
            if st2.len() == 0 {
                Err(SyntaxError::MissingSeparatorOrOpeningParenthesis)
            } else {
                Ok((out2, st2))
            }
        },
        TokenView::UnaryOperator { op } => {
            let (out2, st2) = pop_ops(out, st, op);
            Ok((out2, st2.push(t)))
        },
        TokenView::BinaryOperator { op } => {
            let (out2, st2) = pop_ops(out, st, op);
            Ok((out2, st2.push(t)))
        },
        TokenView::OpenParen => Ok((out, st.push(t))),
        TokenView::CloseParen => {
            let (out2, st2) = pop_to_open(out, st);
            if st2.len() == 0 {
                Err(SyntaxError::MissingOpeningParenthesis)
            } else {
                let st3 = st2.drop_last();
                if st3.len() > 0 && st3.last() is Function {
                    Ok((out2.push(st3.last()), st3.drop_last()))
                } else {
                    Ok((out2, st3))
                }
            }
        },
        TokenView::Whitespace => Ok((out, st)),
    }
}

/// Runs the converter from token `i` on with the given output and stack.
pub open spec fn shunt_run(
    ts: Seq<TokenView>,
    i: int,
    out: Seq<TokenView>,
    st: Seq<TokenView>,
) -> Result<(Seq<TokenView>, Seq<TokenView>), SyntaxError>
    decreases ts.len() - i when 0 <= i <= ts.len()
{
    if i >= ts.len() {
        Ok((out, st))
    } else {
        match shunt_step(out, st, ts[i]) {
            Err(e) => Err(e),
            Ok(p) => shunt_run(ts, i + 1, p.0, p.1),
        }
    }
}

/// Drains the stack into the output at end of input.  An opening
/// parenthesis still on the stack means a closing one was missing.
pub open spec fn drain(out: Seq<TokenView>, st: Seq<TokenView>) -> Result<
    Seq<TokenView>,
    SyntaxError,
>
    decreases st.len(),
{
    if st.len() == 0 {
        Ok(out)
    } else if st.last() is OpenParen {
        Err(SyntaxError::MissingClosingParenthesis)
    } else {
        drain(out.push(st.last()), st.drop_last())
    }
}

/// What the converter returns on a whole token sequence: the tokens in
/// RPN order, or the structural error.
pub open spec fn shunt_spec(ts: Seq<TokenView>) -> Result<Seq<TokenView>, SyntaxError> {
    match shunt_run(ts, 0, Seq::empty(), Seq::empty()) {
        Err(e) => Err(e),
        Ok(p) => drain(p.0, p.1),
    }
}

/// Whether the stack top is an opening parenthesis.
fn top_is_open(stack: &Stack<Token>) -> (r: bool)
    ensures
        r == (stack@.len() > 0 && stack@.last()@ is OpenParen),
{
    match stack.peek() {
        Some(Token::OpenParen) => true,
        _ => false,
    }
}

/// Converts a token sequence to RPN by Dijkstra's shunting-yard algorithm,
/// returning the output queue, or the structural error.  The result is
/// exactly what [`shunt_spec`] says.
pub fn convert_to_rpn(token_list: Vec<Token>) -> (r: Result<Queue<Token>, SyntaxError>)
    ensures
        match r {
            Ok(q) => shunt_spec(token_list.deep_view()) matches Ok(rpn) && rpn == token_views(q@),
            Err(e) => shunt_spec(token_list.deep_view()) matches Err(e2) && e == e2,
        },
{
    let ghost ts = token_list.deep_view();
    let mut output: Queue<Token> = Queue::new();
    let mut stack: Stack<Token> = Stack::new();
    let mut idx: usize = 0;
    proof {
        assert(token_views(output@) =~= Seq::<TokenView>::empty());
        assert(token_views(stack@) =~= Seq::<TokenView>::empty());
    }
    while idx < token_list.len()
        invariant
            idx <= ts.len(),
            ts == token_list.deep_view(),
            shunt_run(ts, 0, Seq::empty(), Seq::empty()) == shunt_run(
                ts,
                idx as int,
                token_views(output@),
                token_views(stack@),
            ),
        decreases ts.len() - idx,
    {
        let ghost out0 = token_views(output@);
        let ghost st0 = token_views(stack@);
        let tok = token_list[idx].clone();
        proof {
            assert(tok@ == ts[idx as int]);
        }
        match tok {
            Token::IntegerLiteral { .. } => {
                output.enqueue(tok);
                proof {
                    assert(token_views(output@) =~= out0.push(ts[idx as int]));
                }
            },
            Token::FloatLiteral { .. } => {
                output.enqueue(tok);
                proof {
                    assert(token_views(output@) =~= out0.push(ts[idx as int]));
                }
            },
            Token::Function { .. } => {
                stack.push(tok);
                proof {
                    assert(token_views(stack@) =~= st0.push(ts[idx as int]));
                }
            },
            Token::ArgumentSeparator => {
                while !stack.is_empty() && !top_is_open(&stack)
                    invariant
                        pop_to_open(out0, st0) == pop_to_open(
                            token_views(output@),
                            token_views(stack@),
                        ),
                    decreases stack@.len(),
                {
                    let ghost out1 = token_views(output@);
                    let ghost st1 = token_views(stack@);
                    let op = stack.pop().unwrap();
                    output.enqueue(op);
                    proof {
                        assert(token_views(output@) =~= out1.push(st1.last()));
                        assert(token_views(stack@) =~= st1.drop_last());
                    }
                }
                if stack.is_empty() {
                    proof {
                        assert(pop_to_open(out0, st0) == (
                            token_views(output@),
                            token_views(stack@),
                        ));
                    }
                    return Err(SyntaxError::MissingSeparatorOrOpeningParenthesis);
                }
                proof {
                    assert(pop_to_open(out0, st0) == (token_views(output@), token_views(stack@)));
                }
            },
            Token::UnaryOperator { op } => {
                pop_tighter_ops(&mut output, &mut stack, op);
                stack.push(Token::UnaryOperator { op });
                proof {
                    assert(token_views(stack@) =~= pop_ops(out0, st0, op).1.push(ts[idx as int]));
                }
            },
            Token::BinaryOperator { op } => {
                pop_tighter_ops(&mut output, &mut stack, op);
                stack.push(Token::BinaryOperator { op });
                proof {
                    assert(token_views(stack@) =~= pop_ops(out0, st0, op).1.push(ts[idx as int]));
                }
            },
            Token::OpenParen => {
                stack.push(tok);
                proof {
                    assert(token_views(stack@) =~= st0.push(ts[idx as int]));
                }
            },
            Token::CloseParen => {
                while !stack.is_empty() && !top_is_open(&stack)
                    invariant
                        pop_to_open(out0, st0) == pop_to_open(
                            token_views(output@),
                            token_views(stack@),
                        ),
                    decreases stack@.len(),
                {
                    let ghost out1 = token_views(output@);
                    let ghost st1 = token_views(stack@);
                    let op = stack.pop().unwrap();
                    output.enqueue(op);
                    proof {
                        assert(token_views(output@) =~= out1.push(st1.last()));
                        assert(token_views(stack@) =~= st1.drop_last());
                    }
                }
                if stack.is_empty() {
                    proof {
                        assert(pop_to_open(out0, st0) == (
                            token_views(output@),
                            token_views(stack@),
                        ));
                    }
                    return Err(SyntaxError::MissingOpeningParenthesis);
                }
                proof {
                    assert(pop_to_open(out0, st0) == (token_views(output@), token_views(stack@)));
                }
                let ghost st2 = token_views(stack@);
                let _ = stack.pop();
                proof {
                    assert(token_views(stack@) =~= st2.drop_last());
                }
                let top_is_function = match stack.peek() {
                    Some(Token::Function { .. }) => true,
                    _ => false,
                };
                if top_is_function {
                    let ghost out3 = token_views(output@);
                    let ghost st3 = token_views(stack@);
                    let f = stack.pop().unwrap();
                    output.enqueue(f);
                    proof {
                        assert(token_views(output@) =~= out3.push(st3.last()));
                        assert(token_views(stack@) =~= st3.drop_last());
                    }
                }
            },
            Token::Whitespace => {
                // never produced by the lexer; ignored as the defect it is
            },
        }
        idx = idx + 1;
    }
    // end of input: drain the stack into the output
    proof {
        assert(shunt_spec(ts) == drain(token_views(output@), token_views(stack@)));
    }
    while !stack.is_empty()
        invariant
            ts == token_list.deep_view(),
            shunt_spec(ts) == drain(token_views(output@), token_views(stack@)),
        decreases stack@.len(),
    {
        if top_is_open(&stack) {
            return Err(SyntaxError::MissingClosingParenthesis);
        }
        let ghost out1 = token_views(output@);
        let ghost st1 = token_views(stack@);
        let op = stack.pop().unwrap();
        output.enqueue(op);
        proof {
            assert(token_views(output@) =~= out1.push(st1.last()));
            assert(token_views(stack@) =~= st1.drop_last());
        }
    }
    Ok(output)
}

/// Pops the binary operators that bind at least as tight as `sym` from the
/// stack to the output, as [`pop_ops`] says.
fn pop_tighter_ops(output: &mut Queue<Token>, stack: &mut Stack<Token>, sym: crate::token::OpSym)
    ensures
        (token_views(final(output)@), token_views(final(stack)@)) == pop_ops(
            token_views(old(output)@),
            token_views(old(stack)@),
            sym,
        ),
{
    let ghost out0 = token_views(output@);
    let ghost st0 = token_views(stack@);
    loop
        invariant
            pop_ops(out0, st0, sym) == pop_ops(token_views(output@), token_views(stack@), sym),
        ensures
            pop_ops(out0, st0, sym) == (token_views(output@), token_views(stack@)),
        decreases stack@.len(),
    {
        let pop_it = match stack.peek() {
            Some(t) => match t {
                Token::BinaryOperator { op } => need_op_pop_from_stack(sym, *op),
                _ => false,
            },
            None => false,
        };
        if !pop_it {
            break ;
        }
        let ghost out1 = token_views(output@);
        let ghost st1 = token_views(stack@);
        let op = stack.pop().unwrap();
        output.enqueue(op);
        proof {
            assert(token_views(output@) =~= out1.push(st1.last()));
            assert(token_views(stack@) =~= st1.drop_last());
        }
    }
}

} // verus!
