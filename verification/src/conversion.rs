//! The model of a conversion from infix to postfix order.
//!
//! A [`Conversion`] is the state between two tokens: the tokens written out
//! so far and the operators that wait on the stack. [`Conversion::step`] says
//! what one token does to it, [`Conversion::run`] folds the steps over the
//! input, and [`to_rpn`] is what stands in the output once the stack has been
//! emptied.

use crate::token::{operator, Operator, TokenView};
use vstd::prelude::*;

verus! {

/// The operators of `ops` as tokens, in the same order.
pub open spec fn operator_tokens(ops: Seq<Operator>) -> Seq<TokenView> {
    Seq::new(ops.len(), |i: int| operator(ops[i]))
}

/// The state of a conversion between two tokens.
pub struct Conversion {
    /// The tokens written out so far.
    pub output: Seq<TokenView>,
    /// The operators that wait, the one pushed last at the end.
    pub stack: Seq<Operator>,
}

impl Conversion {
    /// The state before the first token: nothing written, nothing waiting.
    pub open spec fn start() -> Conversion {
        Conversion { output: Seq::empty(), stack: Seq::empty() }
    }

    /// Moves operators from the top of the stack to the output for as long as
    /// the top binds at least as tightly as `priority`.
    pub open spec fn flush(self, priority: nat) -> Conversion
        decreases self.stack.len(),
    {
        if self.stack.len() > 0 && self.stack.last().priority() >= priority {
            Conversion {
                output: self.output.push(operator(self.stack.last())),
                stack: self.stack.drop_last(),
            }.flush(priority)
        } else {
            self
        }
    }

    /// The state after one more token. An operand is written out at once. An
    /// operator first flushes the waiting operators that bind at least as
    /// tightly as it does, then waits on the stack itself.
    pub open spec fn step(self, token: TokenView) -> Conversion {
        match token {
            TokenView::Operand { .. } => Conversion {
                output: self.output.push(token),
                stack: self.stack,
            },
            TokenView::Operator { value } => {
                let flushed = self.flush(value.priority());
                Conversion { output: flushed.output, stack: flushed.stack.push(value) }
            },
        }
    }

    /// The state after `tokens` more, taken from left to right.
    pub open spec fn run_from(self, tokens: Seq<TokenView>) -> Conversion
        decreases tokens.len(),
    {
        if tokens.len() == 0 {
            self
        } else {
            self.run_from(tokens.drop_last()).step(tokens.last())
        }
    }

    /// The state after all of `tokens`.
    pub open spec fn run(tokens: Seq<TokenView>) -> Conversion {
        Conversion::start().run_from(tokens)
    }

    /// The output once the input has ended: what was written out, then the
    /// waiting operators, the one pushed last first.
    pub open spec fn finish(self) -> Seq<TokenView> {
        self.output + operator_tokens(self.stack.reverse())
    }
}

/// The postfix order of an infix token list.
pub open spec fn to_rpn(tokens: Seq<TokenView>) -> Seq<TokenView> {
    Conversion::run(tokens).finish()
}

} // verus!
