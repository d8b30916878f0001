//! The core entry point: one expression line in, one display line out.
//!
//! `process` strips the spaces out of the line, lexes it, converts the
//! tokens to RPN and evaluates them.  On success it returns the
//! space-separated RPN trace followed by the formatted numeric result; on
//! failure, one human-readable diagnostic whose exact text the contract
//! pins down.

use vstd::prelude::*;
use vstd::string::StringExecFns;
use crate::eval::{eval_outcome, evaluate, trace_spec, Calculator};
use crate::lexer::{lex_spec, tokenize};
use crate::shunting::{convert_to_rpn, shunt_spec, SyntaxError};
use crate::strings::str_to_chars;
use crate::token::lexeme_of;

verus! {

/// The input with every space character removed, scanning from `i` on.
pub open spec fn strip_from(s: Seq<char>, i: int) -> Seq<char>
    decreases s.len() - i when 0 <= i <= s.len()
{
    if i >= s.len() {
        Seq::empty()
    } else if s[i] == ' ' {
        strip_from(s, i + 1)
    } else {
        seq![s[i]] + strip_from(s, i + 1)
    }
}

/// The input with every space character removed, the string the lexer runs
/// on.
pub open spec fn strip_spaces(s: Seq<char>) -> Seq<char> {
    strip_from(s, 0)
}

/// The position in the original input of its `k`-th non-space character
/// (counting from `i` on), where the caret of a lex diagnostic points; the
/// input's length when there are fewer non-space characters.
pub open spec fn unstripped_pos(s: Seq<char>, i: int, k: int) -> int
    decreases s.len() - i when 0 <= i <= s.len()
{
    if i >= s.len() {
        i
    } else if s[i] == ' ' {
        unstripped_pos(s, i + 1, k)
    } else if k == 0 {
        i
    } else {
        unstripped_pos(s, i + 1, k - 1)
    }
}

/// The diagnostic for a character no token pattern matches: a caret under
/// the offending column of the original input, then the character itself.
pub open spec fn lex_err_msg(orig: Seq<char>, k: int, c: char) -> Seq<char> {
    Seq::new(unstripped_pos(orig, 0, k) as nat, |j: int| ' ') + "^ unrecognized character '"@
        + seq![c] + "'"@
}

/// The diagnostic of each structural error of the converter.
pub open spec fn syntax_msg(e: SyntaxError) -> Seq<char> {
    match e {
        SyntaxError::MissingSeparatorOrOpeningParenthesis => {
            "missing argument separator or opening parenthesis"@
        },
        SyntaxError::MissingOpeningParenthesis => "missing opening parenthesis"@,
        SyntaxError::MissingClosingParenthesis => "missing closing parenthesis"@,
    }
}

/// The diagnostic of an operationally invalid RPN sequence.
pub open spec fn eval_msg() -> Seq<char> {
    "malformed RPN"@
}

/// The display line of a successful evaluation: the RPN trace, then the
/// result on a line of its own.
pub open spec fn display_of(trace: Seq<char>, res: Seq<char>) -> Seq<char> {
    trace + "\nResult: "@ + res
}

/// Everything `process` promises of its result, for one input line.
///
/// The branch taken, every diagnostic, the RPN trace and — whenever the
/// evaluation ends in a literal the calculator never touched — the whole
/// display line are functions of the input alone; a result computed by the
/// calculator is whatever string the calculator returned.
pub open spec fn process_post(s: Seq<char>, r: Result<String, String>) -> bool {
    match lex_spec(strip_spaces(s)) {
        Err(pc) => r matches Err(m) && m@ == lex_err_msg(s, pc.0, pc.1),
        Ok(toks) => match shunt_spec(toks) {
            Err(e) => r matches Err(m) && m@ == syntax_msg(e),
            Ok(rpn) => match eval_outcome(rpn) {
                Err(_) => r matches Err(m) && m@ == eval_msg(),
                Ok(fin) => r matches Ok(out) && (match fin {
                    Some(tv) => out@ == display_of(trace_spec(rpn), lexeme_of(tv)),
                    None => exists|res: Seq<char>| out@ == display_of(trace_spec(rpn), res),
                }),
            },
        },
    }
}

/// Removes every space character, as the caller of the pipeline does
/// before lexing.
fn strip(chars: &Vec<char>) -> (out: Vec<char>)
    ensures
        out@ == strip_spaces(chars@),
{
    let mut out: Vec<char> = Vec::new();
    let mut i: usize = 0;
    proof {
        assert(out@ + strip_from(chars@, 0) =~= strip_from(chars@, 0));
    }
    while i < chars.len()
        invariant
            i <= chars@.len(),
            strip_spaces(chars@) == out@ + strip_from(chars@, i as int),
        decreases chars@.len() - i,
    {
        let ghost prev = out@;
        if chars[i] != ' ' {
            out.push(chars[i]);
            proof {
                assert(out@ + strip_from(chars@, i + 1) =~= prev + strip_from(chars@, i as int));
            }
        }
        i = i + 1;
    }
    proof {
        assert(out@ + strip_from(chars@, i as int) =~= out@);
    }
    out
}

/// Finds the column of the `k`-th non-space character of the original
/// input, as [`unstripped_pos`] says.
fn locate_unstripped(chars: &Vec<char>, k: usize) -> (p: usize)
    ensures
        p as int == unstripped_pos(chars@, 0, k as int),
        p <= chars@.len(),
{
    let mut i: usize = 0;
    let mut left = k;
    while i < chars.len()
        invariant
            i <= chars@.len(),
            unstripped_pos(chars@, 0, k as int) == unstripped_pos(chars@, i as int, left as int),
        decreases chars@.len() - i,
    {
        if chars[i] != ' ' {
            if left == 0 {
                return i;
            }
            left = left - 1;
        }
        i = i + 1;
    }
    i
}

/// Builds the lex diagnostic: the caret column, the caret, the character.
fn lex_error_message(chars: &Vec<char>, pos: usize, ch: char) -> (m: String)
    ensures
        m@ == lex_err_msg(chars@, pos as int, ch),
{
    let col = locate_unstripped(chars, pos);
    let mut m = String::new();
    let mut j: usize = 0;
    proof {
        assert(m@ =~= Seq::new(0nat, |x: int| ' '));
    }
    while j < col
        invariant
            j <= col,
            m@ == Seq::new(j as nat, |x: int| ' '),
        decreases col - j,
    {
        m.push(' ');
        j = j + 1;
        proof {
            assert(m@ =~= Seq::new(j as nat, |x: int| ' '));
        }
    }
    m.append("^ unrecognized character '");
    m.push(ch);
    m.append("'");
    proof {
        assert(m@ =~= lex_err_msg(chars@, pos as int, ch));
    }
    m
}

/// Renders the converter's structural errors.
fn syntax_message(e: SyntaxError) -> (m: String)
    ensures
        m@ == syntax_msg(e),
{
    match e {
        SyntaxError::MissingSeparatorOrOpeningParenthesis => String::from_str(
            "missing argument separator or opening parenthesis",
        ),
        SyntaxError::MissingOpeningParenthesis => String::from_str("missing opening parenthesis"),
        SyntaxError::MissingClosingParenthesis => String::from_str("missing closing parenthesis"),
    }
}

/// Processes one expression line: strips spaces, lexes, converts to RPN,
/// evaluates.  Returns the display line with the RPN trace and the result,
/// or the diagnostic of the first failing stage, exactly as
/// [`process_post`] says.
pub fn process<C: Calculator>(input: &str, calc: &C) -> (r: Result<String, String>)
    ensures
        process_post(input@, r),
{
    let chars = str_to_chars(input);
    let stripped = strip(&chars);
    let tokens = match tokenize(&stripped) {
        Ok(t) => t,
        Err(e) => {
            return Err(lex_error_message(&chars, e.pos, e.ch));
        },
    };
    let rpn = match convert_to_rpn(tokens) {
        Ok(q) => q,
        Err(e) => {
            return Err(syntax_message(e));
        },
    };
    let ghost rpn_views = crate::shunting::token_views(rpn@);
    match evaluate(rpn, calc) {
        Ok(p) => {
            let (trace, res) = p;
            let mut out = trace;
            out.append("\nResult: ");
            out.append(res.as_str());
            proof {
                assert(out@ =~= display_of(trace_spec(rpn_views), res@));
                if eval_outcome(rpn_views) matches Ok(fin) && fin is None {
                    assert(exists|witness: Seq<char>|
                        out@ == display_of(trace_spec(rpn_views), witness)) by {
                        assert(out@ == display_of(trace_spec(rpn_views), res@));
                    }
                }
            }
            Ok(out)
        },
        Err(_) => Err(String::from_str("malformed RPN")),
    }
}

} // verus!
