//! Conversion of infix arithmetic expressions to Reverse Polish Notation.
//!
//! An expression is a string of single-character operands joined by the four
//! binary operators `+`, `-`, `*` and `/`. It passes through three stages:
//! the tokenizer splits it into classified [`Token`]s, the converter reorders
//! those into postfix order with an operator stack, and the renderer joins the
//! result back into a string.
//!
//! Every stage is verified against a mathematical model: a token is modelled
//! by a [`TokenView`], a token list by a `Seq<TokenView>`, and each function's
//! contract equates its result with a spec function over those models.
//!
//! - [`token`]: operators, their priorities, and tokens.
//! - [`tokenizer`]: from a string to tokens.
//! - [`conversion`]: the model of the conversion, one token at a time.
//! - [`rpn`]: the converter.
//! - [`render`]: from tokens to a string.
//! - [`expr`]: expression trees, and the proof that the conversion of a
//!   well-formed expression is the postfix order of its tree.
//! - [`laws`]: what else holds of every conversion.

pub mod conversion;
pub mod expr;
pub mod laws;
pub mod render;
pub mod rpn;
pub mod token;
pub mod tokenizer;

pub use render::tokens_to_string;
pub use rpn::reverse_polish_notation;
pub use token::{Operator, Token, TokenView};
pub use tokenizer::{to_tokens, tokenize_string};
