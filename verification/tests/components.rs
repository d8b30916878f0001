//! Unit tests of the pipeline's stages: the operator table, the containers,
//! the lexer, the converter and the evaluator.

use rpn_calc::containers::{Queue, Stack};
use rpn_calc::eval::{evaluate, Calculator, EvalError};
use rpn_calc::lexer::tokenize;
use rpn_calc::shunting::{convert_to_rpn, SyntaxError};
use rpn_calc::table::{get_op_info, need_op_pop_from_stack};
use rpn_calc::token::{Assoc, OpSym, Token};

struct F32Calc;

impl Calculator for F32Calc {
    fn calc_binary_operator(&self, op: OpSym, arg1: &str, arg2: &str) -> String {
        let a = arg1.parse::<f32>().unwrap();
        let b = arg2.parse::<f32>().unwrap();
        match op {
            OpSym::Add => format!("{0:.2}", a + b),
            OpSym::Sub => format!("{0:.2}", a - b),
            OpSym::Div => format!("{0:.2}", a / b),
            OpSym::Mul => format!("{0:.2}", a * b),
            OpSym::Shl => format!("{0:.2}", ((a as i32) << (b as i32)) as f32),
            OpSym::Shr => format!("{0:.2}", ((a as i32) >> (b as i32)) as f32),
            _ => String::new(),
        }
    }

    fn calc_unary_operator(&self, op: OpSym, arg: &str) -> String {
        let a = arg.parse::<f32>().unwrap();
        match op {
            OpSym::Pos => format!("{0:.2}", a),
            OpSym::Neg => format!("{0:.2}", -1.0 * a),
            _ => String::new(),
        }
    }
}

fn chars(s: &str) -> Vec<char> {
    s.chars().collect()
}

fn int_lit(s: &str) -> Token {
    Token::IntegerLiteral { lexeme: s.to_string() }
}

#[test]
fn operator_table_ranks_and_associativity() {
    assert_eq!(get_op_info(OpSym::Pos), Some((1, Assoc::Right)));
    assert_eq!(get_op_info(OpSym::Neg), Some((1, Assoc::Right)));
    assert_eq!(get_op_info(OpSym::Div), Some((2, Assoc::Left)));
    assert_eq!(get_op_info(OpSym::Mul), Some((2, Assoc::Left)));
    assert_eq!(get_op_info(OpSym::Rem), Some((2, Assoc::Left)));
    assert_eq!(get_op_info(OpSym::Add), Some((3, Assoc::Left)));
    assert_eq!(get_op_info(OpSym::Sub), Some((3, Assoc::Left)));
    assert_eq!(get_op_info(OpSym::Shl), Some((4, Assoc::Left)));
    assert_eq!(get_op_info(OpSym::Shr), Some((4, Assoc::Left)));
}

#[test]
fn pop_decision_follows_rank_and_associativity() {
    // a tighter-binding operator on the stack is popped
    assert!(need_op_pop_from_stack(OpSym::Add, OpSym::Mul));
    // a looser-binding operator on the stack is not
    assert!(!need_op_pop_from_stack(OpSym::Mul, OpSym::Add));
    // on a tie, a left-associative incoming operator pops
    assert!(need_op_pop_from_stack(OpSym::Sub, OpSym::Add));
    // on a tie, a right-associative incoming operator does not
    assert!(!need_op_pop_from_stack(OpSym::Neg, OpSym::Pos));
}

#[test]
fn stack_is_lifo() {
    let mut s: Stack<u32> = Stack::new();
    assert!(s.is_empty());
    s.push(1);
    s.push(2);
    assert_eq!(s.peek(), Some(&2));
    assert_eq!(s.pop(), Some(2));
    assert_eq!(s.pop(), Some(1));
    assert_eq!(s.pop(), None);
}

#[test]
fn queue_is_fifo() {
    let mut q: Queue<u32> = Queue::new();
    assert!(q.is_empty());
    q.enqueue(1);
    q.enqueue(2);
    assert_eq!(q.dequeue(), Some(1));
    assert_eq!(q.dequeue(), Some(2));
    assert_eq!(q.dequeue(), None);
}

#[test]
fn lexes_leading_minus_as_neg() {
    assert_eq!(
        tokenize(&chars("-3")).unwrap(),
        vec![Token::UnaryOperator { op: OpSym::Neg }, int_lit("3")]
    );
}

#[test]
fn lexes_minus_between_literals_as_binary() {
    assert_eq!(
        tokenize(&chars("2-3")).unwrap(),
        vec![int_lit("2"), Token::BinaryOperator { op: OpSym::Sub }, int_lit("3")]
    );
}

#[test]
fn lexes_minus_after_closing_paren_as_binary() {
    assert_eq!(
        tokenize(&chars("(2)-3")).unwrap(),
        vec![
            Token::OpenParen,
            int_lit("2"),
            Token::CloseParen,
            Token::BinaryOperator { op: OpSym::Sub },
            int_lit("3"),
        ]
    );
}

#[test]
fn lexes_floats_functions_and_separators() {
    assert_eq!(
        tokenize(&chars("max(2.5,3)")).unwrap(),
        vec![
            Token::Function { name: "max".to_string() },
            Token::OpenParen,
            Token::FloatLiteral { lexeme: "2.5".to_string() },
            Token::ArgumentSeparator,
            int_lit("3"),
            Token::CloseParen,
        ]
    );
}

#[test]
fn a_digit_run_without_fraction_is_an_integer() {
    let err = tokenize(&chars("2.")).unwrap_err();
    assert_eq!((err.pos, err.ch), (1, '.'));
}

#[test]
fn lex_error_reports_position_and_character() {
    let err = tokenize(&chars("2+?")).unwrap_err();
    assert_eq!((err.pos, err.ch), (2, '?'));
}

#[test]
fn double_shift_needs_both_angles() {
    let err = tokenize(&chars("2<3")).unwrap_err();
    assert_eq!((err.pos, err.ch), (1, '<'));
}

fn rpn_lexemes(tokens: Vec<Token>) -> Vec<String> {
    let mut q = convert_to_rpn(tokens).unwrap();
    let mut out = Vec::new();
    while let Some(t) = q.dequeue() {
        out.push(t.lexeme());
    }
    out
}

#[test]
fn converter_orders_by_precedence() {
    assert_eq!(
        rpn_lexemes(tokenize(&chars("2+3*4")).unwrap()),
        vec!["2", "3", "4", "*", "+"]
    );
}

#[test]
fn converter_is_left_associative_on_ties() {
    assert_eq!(
        rpn_lexemes(tokenize(&chars("2-3-4")).unwrap()),
        vec!["2", "3", "-", "4", "-"]
    );
}

#[test]
fn converter_relocates_functions_after_their_arguments() {
    assert_eq!(
        rpn_lexemes(tokenize(&chars("max(2,3)")).unwrap()),
        vec!["2", "3", "max"]
    );
}

#[test]
fn converter_skips_whitespace_tokens() {
    assert_eq!(rpn_lexemes(vec![Token::Whitespace, int_lit("1")]), vec!["1"]);
}

#[test]
fn converter_rejects_unmatched_parens() {
    assert_eq!(
        convert_to_rpn(tokenize(&chars("(2+3")).unwrap()).unwrap_err(),
        SyntaxError::MissingClosingParenthesis
    );
    assert_eq!(
        convert_to_rpn(tokenize(&chars("2+3)")).unwrap()).unwrap_err(),
        SyntaxError::MissingOpeningParenthesis
    );
    assert_eq!(
        convert_to_rpn(tokenize(&chars(",2")).unwrap()).unwrap_err(),
        SyntaxError::MissingSeparatorOrOpeningParenthesis
    );
}

#[test]
fn evaluator_traces_and_computes() {
    let mut q: Queue<Token> = Queue::new();
    q.enqueue(int_lit("2"));
    q.enqueue(int_lit("3"));
    q.enqueue(Token::BinaryOperator { op: OpSym::Add });
    let (trace, result) = evaluate(q, &F32Calc).unwrap();
    assert_eq!(trace, "2 3 + ");
    assert_eq!(result, "5.00");
}

#[test]
fn evaluator_rejects_operator_without_operands() {
    let mut q: Queue<Token> = Queue::new();
    q.enqueue(int_lit("2"));
    q.enqueue(Token::BinaryOperator { op: OpSym::Add });
    assert_eq!(evaluate(q, &F32Calc).unwrap_err(), EvalError::MalformedRpn);
}

#[test]
fn evaluator_rejects_leftover_operands() {
    let mut q: Queue<Token> = Queue::new();
    q.enqueue(int_lit("2"));
    q.enqueue(int_lit("3"));
    assert_eq!(evaluate(q, &F32Calc).unwrap_err(), EvalError::MalformedRpn);
}

#[test]
fn evaluator_rejects_stray_structural_tokens() {
    let mut q: Queue<Token> = Queue::new();
    q.enqueue(Token::OpenParen);
    assert_eq!(evaluate(q, &F32Calc).unwrap_err(), EvalError::MalformedRpn);
    let mut q2: Queue<Token> = Queue::new();
    q2.enqueue(Token::Whitespace);
    assert_eq!(evaluate(q2, &F32Calc).unwrap_err(), EvalError::MalformedRpn);
}

#[test]
fn evaluator_applies_unary_operators() {
    let mut q: Queue<Token> = Queue::new();
    q.enqueue(int_lit("3"));
    q.enqueue(Token::UnaryOperator { op: OpSym::Neg });
    let (trace, result) = evaluate(q, &F32Calc).unwrap();
    assert_eq!(trace, "3 NEG ");
    assert_eq!(result, "-3.00");
}
