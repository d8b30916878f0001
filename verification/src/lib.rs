//! An infix-to-RPN calculator core.
//!
//! The pipeline turns one line of text into a sequence of tokens, converts it
//! to Reverse Polish Notation with the shunting-yard algorithm, and evaluates
//! the RPN form over an operand stack.  Every stage is a pure function with a
//! contract; the floating-point arithmetic itself is supplied by the caller
//! through the [`eval::Calculator`] trait, since the rest of the pipeline
//! never depends on the numeric values.

pub mod token;
pub mod table;
pub mod containers;
pub mod strings;
pub mod lexer;
pub mod shunting;
pub mod eval;
pub mod process;
pub mod laws;
