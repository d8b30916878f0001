//! Token and operator-symbol data types, with their mathematical models.

use vstd::prelude::*;
use vstd::string::StringExecFns;

verus! {

/// The operator symbols known to the operator table.
///
/// Unary `+` and `-` are canonicalized by the lexer to `Pos` and `Neg`
/// (printed as `POS` / `NEG`), so no later stage has to disambiguate a
/// unary from a binary sign by context again.
#[derive(Clone, Copy, PartialEq, Eq, Structural, Debug)]
pub enum OpSym {
    Pos,
    Neg,
    Div,
    Mul,
    Rem,
    Add,
    Sub,
    Shl,
    Shr,
}

/// Tie-breaking rule for operators of equal precedence rank.
#[derive(Clone, Copy, PartialEq, Eq, Structural, Debug)]
pub enum Assoc {
    Left,
    Right,
}

/// A lexical token: a tagged variant over the nine token kinds, each
/// carrying what the later stages need of its lexeme.
///
/// Numeric literals and function names keep their literal source text;
/// operators carry their canonical symbol instead, and their lexeme is
/// derived from it.  `Whitespace` is never produced by the lexer (matched
/// whitespace is consumed without emitting a token); the variant exists so
/// that the converter and evaluator can state explicitly what they do if
/// such a token reaches them.
#[derive(PartialEq, Debug)]
pub enum Token {
    IntegerLiteral { lexeme: String },
    FloatLiteral { lexeme: String },
    UnaryOperator { op: OpSym },
    BinaryOperator { op: OpSym },
    Function { name: String },
    OpenParen,
    CloseParen,
    ArgumentSeparator,
    Whitespace,
}

/// The mathematical model of a [`Token`]: the same tagged variant with
/// lexemes abstracted to character sequences.
pub enum TokenView {
    IntegerLiteral { lexeme: Seq<char> },
    FloatLiteral { lexeme: Seq<char> },
    UnaryOperator { op: OpSym },
    BinaryOperator { op: OpSym },
    Function { name: Seq<char> },
    OpenParen,
    CloseParen,
    ArgumentSeparator,
    Whitespace,
}

impl View for Token {
    type V = TokenView;

    open spec fn view(&self) -> TokenView {
        match self {
            Token::IntegerLiteral { lexeme } => TokenView::IntegerLiteral { lexeme: lexeme@ },
            Token::FloatLiteral { lexeme } => TokenView::FloatLiteral { lexeme: lexeme@ },
            Token::UnaryOperator { op } => TokenView::UnaryOperator { op: *op },
            Token::BinaryOperator { op } => TokenView::BinaryOperator { op: *op },
            Token::Function { name } => TokenView::Function { name: name@ },
            Token::OpenParen => TokenView::OpenParen,
            Token::CloseParen => TokenView::CloseParen,
            Token::ArgumentSeparator => TokenView::ArgumentSeparator,
            Token::Whitespace => TokenView::Whitespace,
        }
    }
}

impl DeepView for Token {
    type V = TokenView;

    open spec fn deep_view(&self) -> TokenView {
        self.view()
    }
}

/// The printable lexeme of an operator symbol.
pub open spec fn op_lexeme(op: OpSym) -> Seq<char> {
    match op {
        OpSym::Pos => "POS"@,
        OpSym::Neg => "NEG"@,
        OpSym::Div => "/"@,
        OpSym::Mul => "*"@,
        OpSym::Rem => "%"@,
        OpSym::Add => "+"@,
        OpSym::Sub => "-"@,
        OpSym::Shl => "<<"@,
        OpSym::Shr => ">>"@,
    }
}

/// The printable lexeme of a token, as rendered in the RPN trace.
pub open spec fn lexeme_of(t: TokenView) -> Seq<char> {
    match t {
        TokenView::IntegerLiteral { lexeme } => lexeme,
        TokenView::FloatLiteral { lexeme } => lexeme,
        TokenView::UnaryOperator { op } => op_lexeme(op),
        TokenView::BinaryOperator { op } => op_lexeme(op),
        TokenView::Function { name } => name,
        TokenView::OpenParen => "("@,
        TokenView::CloseParen => ")"@,
        TokenView::ArgumentSeparator => ","@,
        TokenView::Whitespace => " "@,
    }
}

/// Renders an operator symbol as its printable lexeme.
pub fn op_string(op: OpSym) -> (s: String)
    ensures
        s@ == op_lexeme(op),
{
    match op {
        OpSym::Pos => String::from_str("POS"),
        OpSym::Neg => String::from_str("NEG"),
        OpSym::Div => String::from_str("/"),
        OpSym::Mul => String::from_str("*"),
        OpSym::Rem => String::from_str("%"),
        OpSym::Add => String::from_str("+"),
        OpSym::Sub => String::from_str("-"),
        OpSym::Shl => String::from_str("<<"),
        OpSym::Shr => String::from_str(">>"),
    }
}

impl Clone for Token {
    /// Clones the token, keeping its model.
    fn clone(&self) -> (r: Self)
        ensures
            r == *self,
    {
        match self {
            Token::IntegerLiteral { lexeme } => Token::IntegerLiteral { lexeme: lexeme.clone() },
            Token::FloatLiteral { lexeme } => Token::FloatLiteral { lexeme: lexeme.clone() },
            Token::UnaryOperator { op } => Token::UnaryOperator { op: *op },
            Token::BinaryOperator { op } => Token::BinaryOperator { op: *op },
            Token::Function { name } => Token::Function { name: name.clone() },
            Token::OpenParen => Token::OpenParen,
            Token::CloseParen => Token::CloseParen,
            Token::ArgumentSeparator => Token::ArgumentSeparator,
            Token::Whitespace => Token::Whitespace,
        }
    }
}

impl Token {
    /// The literal text of this token, as it appears in the RPN trace.
    pub fn lexeme(&self) -> (s: String)
        ensures
            s@ == lexeme_of(self@),
    {
        match self {
            Token::IntegerLiteral { lexeme } => lexeme.clone(),
            Token::FloatLiteral { lexeme } => lexeme.clone(),
            Token::UnaryOperator { op } => op_string(*op),
            Token::BinaryOperator { op } => op_string(*op),
            Token::Function { name } => name.clone(),
            Token::OpenParen => String::from_str("("),
            Token::CloseParen => String::from_str(")"),
            Token::ArgumentSeparator => String::from_str(","),
            Token::Whitespace => String::from_str(" "),
        }
    }
}

} // verus!
