//! The lexer: scans a character sequence into an ordered list of tokens.
//!
//! At each position the token patterns are tried in a fixed priority order
//! (parenthesis, function name, binary operator, unary operator, float
//! literal, integer literal, argument separator, whitespace) and the first
//! match is taken.  A matched `+`/`-` counts as a binary operator only when
//! the previously emitted token is a numeric literal or a closing
//! parenthesis — the lookback guard applies to every binary-operator match —
//! otherwise `+`/`-` fall through to the unary pattern and are canonicalized
//! to `POS`/`NEG`.  Matched whitespace is consumed without emitting a token.
//! If no pattern matches, the scan is stuck and fails with the offending
//! position and character.

use vstd::prelude::*;
use crate::token::{OpSym, Token, TokenView};
use crate::strings::chars_to_string;

verus! {

/// A scan failure: no token pattern matches at position `pos` of the input
/// handed to the lexer; `ch` is the character found there.
#[derive(Clone, Copy, PartialEq, Eq, Structural, Debug)]
pub struct LexError {
    pub pos: usize,
    pub ch: char,
}

/// A decimal digit.
pub open spec fn is_digit(c: char) -> bool {
    '0' <= c && c <= '9'
}

/// An ASCII letter, the only characters a function name is made of.
pub open spec fn is_alpha(c: char) -> bool {
    ('a' <= c && c <= 'z') || ('A' <= c && c <= 'Z')
}

/// An ASCII whitespace character.
pub open spec fn is_space(c: char) -> bool {
    c == ' ' || c == '\t' || c == '\n' || c == '\r' || c == '\u{b}' || c == '\u{c}'
}

/// The first position at or after `i` that does not hold a digit.
pub open spec fn digit_run_end(s: Seq<char>, i: int) -> int
    decreases s.len() - i when 0 <= i <= s.len()
{
    if i < s.len() && is_digit(s[i]) {
        digit_run_end(s, i + 1)
    } else {
        i
    }
}

/// The first position at or after `i` that does not hold a letter.
pub open spec fn alpha_run_end(s: Seq<char>, i: int) -> int
    decreases s.len() - i when 0 <= i <= s.len()
{
    if i < s.len() && is_alpha(s[i]) {
        alpha_run_end(s, i + 1)
    } else {
        i
    }
}

proof fn lemma_digit_run_end(s: Seq<char>, i: int)
    requires
        0 <= i <= s.len(),
    ensures
        i <= digit_run_end(s, i) <= s.len(),
    decreases s.len() - i,
{
    if i < s.len() && is_digit(s[i]) {
        lemma_digit_run_end(s, i + 1);
    }
}

proof fn lemma_alpha_run_end(s: Seq<char>, i: int)
    requires
        0 <= i <= s.len(),
    ensures
        i <= alpha_run_end(s, i) <= s.len(),
    decreases s.len() - i,
{
    if i < s.len() && is_alpha(s[i]) {
        lemma_alpha_run_end(s, i + 1);
    }
}

/// Whether the previously emitted token lets a following `+ - / * << >>`
/// count as a binary operator.
pub open spec fn allows_binary(last: Option<TokenView>) -> bool {
    match last {
        Some(t) => t is IntegerLiteral || t is FloatLiteral || t is CloseParen,
        None => false,
    }
}

/// The binary-operator pattern at position `i`: the token it denotes and
/// the position after it, or `None` when the pattern does not match.
pub open spec fn binary_token(s: Seq<char>, i: int) -> Option<(TokenView, int)> {
    if s[i] == '+' {
        Some((TokenView::BinaryOperator { op: OpSym::Add }, i + 1))
    } else if s[i] == '-' {
        Some((TokenView::BinaryOperator { op: OpSym::Sub }, i + 1))
    } else if s[i] == '/' {
        Some((TokenView::BinaryOperator { op: OpSym::Div }, i + 1))
    } else if s[i] == '*' {
        Some((TokenView::BinaryOperator { op: OpSym::Mul }, i + 1))
    } else if s[i] == '<' && i + 1 < s.len() && s[i + 1] == '<' {
        Some((TokenView::BinaryOperator { op: OpSym::Shl }, i + 2))
    } else if s[i] == '>' && i + 1 < s.len() && s[i + 1] == '>' {
        Some((TokenView::BinaryOperator { op: OpSym::Shr }, i + 2))
    } else {
        None
    }
}

/// The pattern match at position `i` given the previously emitted token:
/// `Some((Some(t), j))` emits `t` and continues at `j`, `Some((None, j))`
/// consumes whitespace without emitting, `None` means the scan is stuck.
pub open spec fn scan_at(s: Seq<char>, i: int, last: Option<TokenView>) -> Option<
    (Option<TokenView>, int),
> {
    let c = s[i];
    if c == '(' {
        Some((Some(TokenView::OpenParen), i + 1))
    } else if c == ')' {
        Some((Some(TokenView::CloseParen), i + 1))
    } else if is_alpha(c) {
        let j = alpha_run_end(s, i);
        Some((Some(TokenView::Function { name: s.subrange(i, j) }), j))
    } else if allows_binary(last) && binary_token(s, i) is Some {
        let (t, j) = binary_token(s, i)->0;
        Some((Some(t), j))
    } else if c == '+' {
        Some((Some(TokenView::UnaryOperator { op: OpSym::Pos }), i + 1))
    } else if c == '-' {
        Some((Some(TokenView::UnaryOperator { op: OpSym::Neg }), i + 1))
    } else if is_digit(c) {
        let j = digit_run_end(s, i);
        if j + 1 < s.len() && s[j] == '.' && is_digit(s[j + 1]) {
            let k = digit_run_end(s, j + 1);
            Some((Some(TokenView::FloatLiteral { lexeme: s.subrange(i, k) }), k))
        } else {
            Some((Some(TokenView::IntegerLiteral { lexeme: s.subrange(i, j) }), j))
        }
    } else if c == ',' {
        Some((Some(TokenView::ArgumentSeparator), i + 1))
    } else if is_space(c) {
        Some((None, i + 1))
    } else {
        None
    }
}

/// The last token emitted so far, the lookback context of the scan.
pub open spec fn last_of(acc: Seq<TokenView>) -> Option<TokenView> {
    if acc.len() == 0 {
        None
    } else {
        Some(acc.last())
    }
}

proof fn lemma_scan_at_advances(s: Seq<char>, i: int, last: Option<TokenView>)
    requires
        0 <= i < s.len(),
    ensures
        scan_at(s, i, last) matches Some(step) ==> i < step.1 <= s.len(),
{
    if is_alpha(s[i]) {
        lemma_alpha_run_end(s, i + 1);
    } else if is_digit(s[i]) {
        lemma_digit_run_end(s, i + 1);
        let j = digit_run_end(s, i);
        if j + 1 < s.len() && s[j] == '.' && is_digit(s[j + 1]) {
            lemma_digit_run_end(s, j + 1);
        }
    }
}

/// The lexer as a mathematical function: scanning from position `i` with
/// the tokens emitted so far, it yields the full token sequence, or the
/// position and character where the scan got stuck.
pub open spec fn lex_from(s: Seq<char>, i: int, acc: Seq<TokenView>) -> Result<
    Seq<TokenView>,
    (int, char),
>
    decreases s.len() - i when 0 <= i <= s.len() via lex_from_decreases
{
    if i >= s.len() {
        Ok(acc)
    } else {
        match scan_at(s, i, last_of(acc)) {
            None => Err((i, s[i])),
            Some(step) => match step.0 {
                Some(t) => lex_from(s, step.1, acc.push(t)),
                None => lex_from(s, step.1, acc),
            },
        }
    }
}

#[via_fn]
proof fn lex_from_decreases(s: Seq<char>, i: int, acc: Seq<TokenView>) {
    if 0 <= i < s.len() {
        lemma_scan_at_advances(s, i, last_of(acc));
    }
}

/// What the lexer returns on a whole input.
pub open spec fn lex_spec(s: Seq<char>) -> Result<Seq<TokenView>, (int, char)> {
    lex_from(s, 0, Seq::empty())
}

fn digit(c: char) -> (r: bool)
    ensures
        r == is_digit(c),
{
    '0' <= c && c <= '9'
}

fn alpha(c: char) -> (r: bool)
    ensures
        r == is_alpha(c),
{
    ('a' <= c && c <= 'z') || ('A' <= c && c <= 'Z')
}

fn space(c: char) -> (r: bool)
    ensures
        r == is_space(c),
{
    c == ' ' || c == '\t' || c == '\n' || c == '\r' || c == '\u{b}' || c == '\u{c}'
}

fn scan_digits(v: &Vec<char>, i: usize) -> (j: usize)
    requires
        i <= v@.len(),
    ensures
        j == digit_run_end(v@, i as int),
        i <= j <= v@.len(),
{
    let mut j = i;
    while j < v.len() && digit(v[j])
        invariant
            i <= j <= v@.len(),
            digit_run_end(v@, i as int) == digit_run_end(v@, j as int),
        decreases v@.len() - j,
    {
        j = j + 1;
    }
    j
}

fn scan_alphas(v: &Vec<char>, i: usize) -> (j: usize)
    requires
        i <= v@.len(),
    ensures
        j == alpha_run_end(v@, i as int),
        i <= j <= v@.len(),
{
    let mut j = i;
    while j < v.len() && alpha(v[j])
        invariant
            i <= j <= v@.len(),
            alpha_run_end(v@, i as int) == alpha_run_end(v@, j as int),
        decreases v@.len() - j,
    {
        j = j + 1;
    }
    j
}

/// Appends a token, relating the deep views before and after.
fn emit(tokens: &mut Vec<Token>, t: Token)
    ensures
        final(tokens).deep_view() == old(tokens).deep_view().push(t@),
{
    let ghost prev = tokens.deep_view();
    tokens.push(t);
    proof {
        assert(tokens.deep_view() =~= prev.push(tokens@.last()@));
    }
}

/// The lookback guard, evaluated on the tokens emitted so far.
fn last_allows_binary(tokens: &Vec<Token>) -> (r: bool)
    ensures
        r == allows_binary(last_of(tokens.deep_view())),
{
    if tokens.len() == 0 {
        false
    } else {
        let t = &tokens[tokens.len() - 1];
        proof {
            assert(last_of(tokens.deep_view()) == Some(tokens@.last()@));
        }
        match t {
            Token::IntegerLiteral { .. } => true,
            Token::FloatLiteral { .. } => true,
            Token::CloseParen => true,
            _ => false,
        }
    }
}

/// The binary-operator pattern at position `i`, matched executably.
fn binary_candidate(v: &Vec<char>, i: usize) -> (r: Option<(OpSym, usize)>)
    requires
        i < v@.len(),
    ensures
        match r {
            Some(p) => binary_token(v@, i as int) == Some(
                (TokenView::BinaryOperator { op: p.0 }, i + p.1),
            ) && i + p.1 <= v@.len(),
            None => binary_token(v@, i as int) is None,
        },
{
    let c = v[i];
    if c == '+' {
        Some((OpSym::Add, 1))
    } else if c == '-' {
        Some((OpSym::Sub, 1))
    } else if c == '/' {
        Some((OpSym::Div, 1))
    } else if c == '*' {
        Some((OpSym::Mul, 1))
    } else if c == '<' && v.len() - i > 1 && v[i + 1] == '<' {
        Some((OpSym::Shl, 2))
    } else if c == '>' && v.len() - i > 1 && v[i + 1] == '>' {
        Some((OpSym::Shr, 2))
    } else {
        None
    }
}

/// Scans the input into tokens, or fails at the first position where no
/// token pattern matches.  The result is exactly what [`lex_spec`] says.
pub fn tokenize(input: &Vec<char>) -> (r: Result<Vec<Token>, LexError>)
    ensures
        match r {
            Ok(tokens) => lex_spec(input@) matches Ok(ts) && ts == tokens.deep_view(),
            Err(e) => lex_spec(input@) matches Err(p) && p == (e.pos as int, e.ch),
        },
{
    let ghost s = input@;
    let mut tokens: Vec<Token> = Vec::new();
    let mut i: usize = 0;
    proof {
        assert(tokens.deep_view() =~= Seq::<TokenView>::empty());
    }
    while i < input.len()
        invariant
            i <= s.len(),
            s == input@,
            lex_spec(s) == lex_from(s, i as int, tokens.deep_view()),
        decreases s.len() - i,
    {
        let ghost acc = tokens.deep_view();
        let ghost last = last_of(acc);
        let c = input[i];
        if c == '(' {
            emit(&mut tokens, Token::OpenParen);
            i = i + 1;
        } else if c == ')' {
            emit(&mut tokens, Token::CloseParen);
            i = i + 1;
        } else if alpha(c) {
            let j = scan_alphas(input, i);
            proof {
                lemma_alpha_run_end(s, i as int + 1);
            }
            let name = chars_to_string(input, i, j);
            emit(&mut tokens, Token::Function { name });
            i = j;
        } else {
            let guard = last_allows_binary(&tokens);
            let bin = binary_candidate(input, i);
            if guard && bin.is_some() {
                let (sym, w) = bin.unwrap();
                emit(&mut tokens, Token::BinaryOperator { op: sym });
                i = i + w;
            } else if c == '+' {
                emit(&mut tokens, Token::UnaryOperator { op: OpSym::Pos });
                i = i + 1;
            } else if c == '-' {
                emit(&mut tokens, Token::UnaryOperator { op: OpSym::Neg });
                i = i + 1;
            } else if digit(c) {
                let j = scan_digits(input, i);
                proof {
                    lemma_digit_run_end(s, i as int + 1);
                }
                if input.len() - j > 1 && input[j] == '.' && digit(input[j + 1]) {
                    let k = scan_digits(input, j + 1);
                    let lexeme = chars_to_string(input, i, k);
                    emit(&mut tokens, Token::FloatLiteral { lexeme });
                    i = k;
                } else {
                    let lexeme = chars_to_string(input, i, j);
                    emit(&mut tokens, Token::IntegerLiteral { lexeme });
                    i = j;
                }
            } else if c == ',' {
                emit(&mut tokens, Token::ArgumentSeparator);
                i = i + 1;
            } else if space(c) {
                i = i + 1;
            } else {
                proof {
                    assert(scan_at(s, i as int, last) is None);
                }
                return Err(LexError { pos: i, ch: c });
            }
        }
    }
    Ok(tokens)
}

} // verus!
