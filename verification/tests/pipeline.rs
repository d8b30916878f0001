//! End-to-end tests of `process`: one expression line in, one display line
//! (or one diagnostic) out.

use rpn_calc::eval::Calculator;
use rpn_calc::process::process;
use rpn_calc::token::OpSym;

/// The single-precision floating-point arithmetic of the evaluator:
/// operands arrive as literal lexemes and results are rendered with exactly
/// two fractional digits.
struct F32Calc;

impl Calculator for F32Calc {
    fn calc_binary_operator(&self, op: OpSym, arg1: &str, arg2: &str) -> String {
        let a = arg1.parse::<f32>().unwrap();
        let b = arg2.parse::<f32>().unwrap();
        match op {
            OpSym::Add => format!("{0:.2}", a + b),
            OpSym::Sub => format!("{0:.2}", a - b),
            OpSym::Div => format!("{0:.2}", a / b),
            OpSym::Mul => format!("{0:.2}", a * b),
            OpSym::Shl => format!("{0:.2}", ((a as i32) << (b as i32)) as f32),
            OpSym::Shr => format!("{0:.2}", ((a as i32) >> (b as i32)) as f32),
            _ => String::new(),
        }
    }

    fn calc_unary_operator(&self, op: OpSym, arg: &str) -> String {
        let a = arg.parse::<f32>().unwrap();
        match op {
            OpSym::Pos => format!("{0:.2}", a),
            OpSym::Neg => format!("{0:.2}", -1.0 * a),
            _ => String::new(),
        }
    }
}

fn run(line: &str) -> Result<String, String> {
    process(line, &F32Calc)
}

#[test]
fn precedence_multiplication_binds_tighter() {
    assert_eq!(run("2+3*4"), Ok("2 3 4 * + \nResult: 14.00".to_string()));
}

#[test]
fn left_associative_subtraction() {
    assert_eq!(run("2-3-4"), Ok("2 3 - 4 - \nResult: -5.00".to_string()));
}

#[test]
fn division_always_shows_two_decimals() {
    assert_eq!(run("1/3"), Ok("1 3 / \nResult: 0.33".to_string()));
}

#[test]
fn shift_truncates_operands_to_integers() {
    assert_eq!(run("5.9<<1"), Ok("5.9 1 << \nResult: 10.00".to_string()));
}

#[test]
fn shift_right() {
    assert_eq!(run("9>>1"), Ok("9 1 >> \nResult: 4.00".to_string()));
}

#[test]
fn unary_minus_is_lexed_as_neg() {
    assert_eq!(run("-3"), Ok("3 NEG \nResult: -3.00".to_string()));
}

#[test]
fn unary_plus_is_lexed_as_pos() {
    assert_eq!(run("+3"), Ok("3 POS \nResult: 3.00".to_string()));
}

#[test]
fn minus_after_closing_paren_is_binary() {
    assert_eq!(run("(2)-3"), Ok("2 3 - \nResult: -1.00".to_string()));
}

#[test]
fn parenthesis_overrides_precedence() {
    assert_eq!(run("(2+3)*4"), Ok("2 3 + 4 * \nResult: 20.00".to_string()));
}

#[test]
fn unary_minus_over_a_parenthesized_group() {
    assert_eq!(run("-(2+3)"), Ok("2 3 + NEG \nResult: -5.00".to_string()));
}

#[test]
fn missing_closing_parenthesis() {
    assert_eq!(run("(2+3"), Err("missing closing parenthesis".to_string()));
}

#[test]
fn missing_opening_parenthesis() {
    assert_eq!(run("2+3)"), Err("missing opening parenthesis".to_string()));
}

#[test]
fn separator_outside_parentheses() {
    assert_eq!(
        run(",2"),
        Err("missing argument separator or opening parenthesis".to_string())
    );
}

#[test]
fn unknown_token_is_reported_with_a_caret() {
    assert_eq!(run("2+?"), Err("  ^ unrecognized character '?'".to_string()));
}

#[test]
fn caret_points_at_the_failing_occurrence() {
    // the first '.' belongs to a float literal; the scan is stuck at the second
    assert_eq!(
        run("2.2.3"),
        Err("   ^ unrecognized character '.'".to_string())
    );
}

#[test]
fn caret_counts_spaces_of_the_original_line() {
    assert_eq!(run("2 + ?"), Err("    ^ unrecognized character '?'".to_string()));
}

#[test]
fn leading_star_is_a_lex_error() {
    assert_eq!(run("*3"), Err("^ unrecognized character '*'".to_string()));
}

#[test]
fn spaces_are_stripped_before_lexing() {
    assert_eq!(run(" 2 + 3 * 4 "), Ok("2 3 4 * + \nResult: 14.00".to_string()));
}

#[test]
fn tabs_are_consumed_as_whitespace() {
    assert_eq!(run("2\t+3"), Ok("2 3 + \nResult: 5.00".to_string()));
}

#[test]
fn lone_literal_passes_through_untouched() {
    assert_eq!(run("2"), Ok("2 \nResult: 2".to_string()));
}

#[test]
fn operator_without_operands_is_malformed_rpn() {
    assert_eq!(run("2<<"), Err("malformed RPN".to_string()));
}

#[test]
fn function_is_recognized_but_never_evaluated() {
    // max relocates to the output, but evaluating leaves two operands behind
    assert_eq!(run("max(2,3)"), Err("malformed RPN".to_string()));
}

#[test]
fn processing_twice_yields_identical_output() {
    for line in ["2+3*4", "1/3", "-3", "(2+3", "2+?", "max(2,3)", "2"] {
        assert_eq!(run(line), run(line));
    }
}

#[test]
fn rpn_result_matches_direct_evaluation() {
    let cases: [(&str, f32); 5] = [
        ("2+3*4-1", 2.0 + 3.0 * 4.0 - 1.0),
        ("(2+3)*(4-1)", (2.0 + 3.0) * (4.0 - 1.0)),
        ("10/4+7", 10.0 / 4.0 + 7.0),
        ("-3*-2", -3.0 * -2.0),
        ("2-3-4-5", 2.0 - 3.0 - 4.0 - 5.0),
    ];
    for (line, direct) in cases {
        let display = run(line).unwrap();
        let rendered = display.rsplit(' ').next().unwrap().to_string();
        assert_eq!(rendered, format!("{0:.2}", direct), "input {line}");
    }
}

#[test]
fn division_by_zero_follows_float_semantics() {
    assert_eq!(run("1/0"), Ok("1 0 / \nResult: inf".to_string()));
}
