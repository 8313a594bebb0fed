//! The tokenizer: from a string to single-character pieces, and from pieces
//! to classified tokens.

use crate::token::{Operator, Token, TokenView};
use vstd::prelude::*;

verus! {

/// The pieces of a string: one single-character string for each character,
/// in the order of the string.
pub open spec fn split_chars(s: Seq<char>) -> Seq<Seq<char>> {
    Seq::new(s.len(), |i: int| seq![s[i]])
}

/// The token that a piece stands for: an operator where the piece is exactly
/// an operator's symbol, else an operand that carries the piece as its name.
pub open spec fn classify(piece: Seq<char>) -> TokenView {
    if piece == Operator::Add.text() {
        TokenView::Operator { value: Operator::Add }
    } else if piece == Operator::Subtract.text() {
        TokenView::Operator { value: Operator::Subtract }
    } else if piece == Operator::Multiply.text() {
        TokenView::Operator { value: Operator::Multiply }
    } else if piece == Operator::Divide.text() {
        TokenView::Operator { value: Operator::Divide }
    } else {
        TokenView::Operand { name: piece }
    }
}

/// The tokens that a list of pieces stands for, piece by piece.
pub open spec fn classify_all(pieces: Seq<Seq<char>>) -> Seq<TokenView> {
    Seq::new(pieces.len(), |i: int| classify(pieces[i]))
}

/// Calls `char::to_string` of the standard library, which gives the string
/// that holds the one character `c` and nothing else.
#[verifier::external_body]
fn char_to_string(c: char) -> (s: String)
    ensures
        s@ == seq![c],
{
    c.to_string()
}

/// Splits a string into its characters, each as a string of its own. Nothing
/// is filtered out: white space and any other character gives a piece.
pub fn tokenize_string(input_str: &str) -> (tokens: Vec<String>)
    ensures
        tokens.deep_view() == split_chars(input_str@),
{
    let mut tokens = Vec::<String>::new();
    for c in it: input_str.chars()
        invariant
            it.seq() == input_str@,
            tokens.len() == it.index(),
            forall|j: int| 0 <= j < tokens.len() ==> (#[trigger] tokens[j])@ == seq![input_str@[j]],
    {
        tokens.push(char_to_string(c));
    }
    tokens
}

/// Classifies one piece.
fn to_token(piece: &String) -> (token: Token)
    ensures
        token@ == classify(piece@),
{
    let text = piece.as_str();
    if text.unicode_len() == 1 {
        let c = text.get_char(0);
        assert(text@ =~= seq![c]);
        if c == '+' {
            return Token::Operator { value: Operator::Add };
        }
        if c == '-' {
            return Token::Operator { value: Operator::Subtract };
        }
        if c == '*' {
            return Token::Operator { value: Operator::Multiply };
        }
        if c == '/' {
            return Token::Operator { value: Operator::Divide };
        }
    }
    Token::Operand { name: piece.clone() }
}

/// Classifies each piece as an operator or an operand. A piece that is
/// exactly `+`, `-`, `*` or `/` gives that operator; any other piece, whatever
/// it holds, gives an operand named by the piece.
pub fn to_tokens(string_tokens: &Vec<String>) -> (tokens: Vec<Token>)
    ensures
        tokens.deep_view() == classify_all(string_tokens.deep_view()),
{
    let mut tokens = Vec::<Token>::new();
    for i in 0..string_tokens.len()
        invariant
            tokens.len() == i,
            forall|j: int| 0 <= j < i ==> (#[trigger] tokens[j])@ == classify(string_tokens[j]@),
    {
        tokens.push(to_token(&string_tokens[i]));
    }
    tokens
}

} // verus!
