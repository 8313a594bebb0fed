//! Expressions as trees, and what the conversion means for them.
//!
//! An infix token list without parentheses stands for a tree: the priorities
//! of the operators decide how the operands are grouped. The conversion is
//! correct if it writes out the postfix order of that tree. This module
//! states and proves that, in two halves: every well-formed token list is the
//! infix order of a tree that is grouped by the priorities
//! ([`lemma_tree_of_tokens`]), and the conversion turns the infix order of
//! any such tree into its postfix order ([`lemma_rpn_of_infix`]).

use crate::conversion::{operator_tokens, to_rpn, Conversion};
use crate::token::{operand, operator, Operator, TokenView};
use vstd::prelude::*;

verus! {

/// An expression: an operand, or an operator applied to two expressions.
pub enum Expr {
    Operand { name: Seq<char> },
    Binary { op: Operator, left: Box<Expr>, right: Box<Expr> },
}

impl Expr {
    /// The infix order of the tree: each operator between its two operands,
    /// without parentheses.
    pub open spec fn infix(self) -> Seq<TokenView>
        decreases self,
    {
        match self {
            Expr::Operand { name } => seq![operand(name)],
            Expr::Binary { op, left, right } => left.infix() + seq![operator(op)] + right.infix(),
        }
    }

    /// The postfix order of the tree: each operator after its two operands.
    pub open spec fn postfix(self) -> Seq<TokenView>
        decreases self,
    {
        match self {
            Expr::Operand { name } => seq![operand(name)],
            Expr::Binary { op, left, right } => left.postfix() + right.postfix() + seq![
                operator(op),
            ],
        }
    }

    /// Whether the tree is grouped as the priorities of its operators demand,
    /// with no operator below the priority `floor`. Under an operator, the
    /// left operand holds only operators that bind at least as tightly, and
    /// the right operand only operators that bind tighter: operators of equal
    /// priority are grouped from the left.
    pub open spec fn grouped_above(self, floor: nat) -> bool
        decreases self,
    {
        match self {
            Expr::Operand { .. } => true,
            Expr::Binary { op, left, right } => {
                &&& op.priority() >= floor
                &&& left.grouped_above(op.priority())
                &&& right.grouped_above(op.priority() + 1)
            },
        }
    }

    /// Whether the tree is the one that its own infix order stands for.
    pub open spec fn well_grouped(self) -> bool {
        self.grouped_above(0)
    }
}

/// Whether a token list is a well-formed infix expression: operands and
/// operators in turn, with an operand at either end.
pub open spec fn well_formed(tokens: Seq<TokenView>) -> bool {
    &&& tokens.len() % 2 == 1
    &&& forall|i: int|
        0 <= i < tokens.len() ==> ((#[trigger] tokens[i]) is Operand <==> i % 2 == 0)
}

/// Running over two lists in a row is running over their concatenation.
proof fn lemma_run_from_concat(state: Conversion, first: Seq<TokenView>, second: Seq<TokenView>)
    ensures
        state.run_from(first + second) == state.run_from(first).run_from(second),
    decreases second.len(),
{
    if second.len() > 0 {
        lemma_run_from_concat(state, first, second.drop_last());
        assert((first + second).drop_last() =~= first + second.drop_last());
    }
}

/// Running over one token is taking one step.
proof fn lemma_run_from_one(state: Conversion, token: TokenView)
    ensures
        state.run_from(seq![token]) == state.step(token),
{
    assert(seq![token].drop_last() =~= Seq::<TokenView>::empty());
    assert(state.run_from(Seq::<TokenView>::empty()) == state);
}

/// Flushing takes off the stack exactly the operators `held` at its top, if
/// those bind at least as tightly as `priority` and the one below them does
/// not.
proof fn lemma_flush_held(
    output: Seq<TokenView>,
    base: Seq<Operator>,
    held: Seq<Operator>,
    priority: nat,
)
    requires
        forall|i: int| 0 <= i < held.len() ==> held[i].priority() >= priority,
        base.len() > 0 ==> base.last().priority() < priority,
    ensures
        (Conversion { output, stack: base + held }).flush(priority) == (Conversion {
            output: output + operator_tokens(held.reverse()),
            stack: base,
        }),
    decreases held.len(),
{
    if held.len() > 0 {
        let top = held.last();
        assert((base + held).drop_last() =~= base + held.drop_last());
        lemma_flush_held(output.push(operator(top)), base, held.drop_last(), priority);
        assert(output.push(operator(top)) + operator_tokens(held.drop_last().reverse())
            =~= output + operator_tokens(held.reverse()));
    }
}

/// What the infix order of a grouped tree does to a state whose stack binds
/// less tightly than the tree: it adds `written` to the output and `held` to
/// the stack, and the two together are the postfix order of the tree.
proof fn lemma_run_tree(state: Conversion, e: Expr, floor: nat) -> (added: (
    Seq<TokenView>,
    Seq<Operator>,
))
    requires
        e.grouped_above(floor),
        state.stack.len() > 0 ==> state.stack.last().priority() < floor,
    ensures
        ({
            let (written, held) = added;
            &&& state.run_from(e.infix()) == (Conversion {
                output: state.output + written,
                stack: state.stack + held,
            })
            &&& written + operator_tokens(held.reverse()) == e.postfix()
            &&& forall|i: int| 0 <= i < held.len() ==> held[i].priority() >= floor
        }),
    decreases e,
{
    match e {
        Expr::Operand { name } => {
            let written = seq![operand(name)];
            let held = Seq::<Operator>::empty();
            lemma_run_from_one(state, operand(name));
            assert(state.output.push(operand(name)) =~= state.output + written);
            (written, held)
        },
        Expr::Binary { op, left, right } => {
            let priority = op.priority();
            // The left operand is written out, but for those of its operators
            // that still wait.
            let (written1, held1) = lemma_run_tree(state, *left, priority);
            let s1 = state.run_from(left.infix());
            // The operator flushes those, and waits in their place.
            let s2 = Conversion {
                output: state.output + left.postfix(),
                stack: state.stack.push(op),
            };
            assert(s1.step(operator(op)) == s2) by {
                lemma_flush_held(s1.output, state.stack, held1, priority);
                assert(state.output + written1 + operator_tokens(held1.reverse())
                    =~= state.output + left.postfix());
            }
            // The right operand is written out above the operator.
            let (written2, held2) = lemma_run_tree(s2, *right, priority + 1);
            let s3 = s2.run_from(right.infix());
            assert(state.run_from(e.infix()) == s3) by {
                lemma_run_from_one(s1, operator(op));
                lemma_run_from_concat(state, left.infix(), seq![operator(op)]);
                lemma_run_from_concat(state, left.infix() + seq![operator(op)], right.infix());
            }
            let written = left.postfix() + written2;
            let held = seq![op] + held2;
            assert(s2.output + written2 =~= state.output + written);
            assert(s2.stack + held2 =~= state.stack + held);
            (written, held)
        },
    }
}

/// The conversion is correct on trees: it turns the infix order of a tree
/// that is grouped by the priorities into the postfix order of that tree.
pub proof fn lemma_rpn_of_infix(e: Expr)
    requires
        e.well_grouped(),
    ensures
        to_rpn(e.infix()) == e.postfix(),
{
    lemma_run_tree(Conversion::start(), e, 0);
}

/// The position of the operator that is applied last among those up to
/// position `upto`: the last one of the lowest priority.
proof fn lemma_last_lowest(tokens: Seq<TokenView>, upto: int) -> (at: int)
    requires
        well_formed(tokens),
        0 < upto < tokens.len(),
        upto % 2 == 1,
    ensures
        0 < at <= upto,
        at % 2 == 1,
        forall|i: int|
            0 <= i < at && i % 2 == 1 ==> (#[trigger] tokens[i])->value.priority()
                >= tokens[at]->value.priority(),
        forall|i: int|
            at < i <= upto && i % 2 == 1 ==> (#[trigger] tokens[i])->value.priority()
                > tokens[at]->value.priority(),
    decreases upto,
{
    if upto == 1 {
        1
    } else {
        let before = lemma_last_lowest(tokens, upto - 2);
        if tokens[upto]->value.priority() <= tokens[before]->value.priority() {
            upto
        } else {
            before
        }
    }
}

/// A tree for a well-formed token list whose operators have priority `floor`
/// or above: it is grouped by those priorities, and the list is its infix
/// order.
proof fn lemma_tree_above(tokens: Seq<TokenView>, floor: nat) -> (e: Expr)
    requires
        well_formed(tokens),
        forall|i: int|
            0 <= i < tokens.len() && i % 2 == 1 ==> (#[trigger] tokens[i])->value.priority()
                >= floor,
    ensures
        e.grouped_above(floor),
        e.infix() == tokens,
    decreases tokens.len(),
{
    if tokens.len() == 1 {
        Expr::Operand { name: tokens[0]->name }
    } else {
        let at = lemma_last_lowest(tokens, tokens.len() - 2);
        let op = tokens[at]->value;
        let before = tokens.take(at);
        let after = tokens.skip(at + 1);
        let left = lemma_tree_above(before, op.priority());
        let right = lemma_tree_above(after, op.priority() + 1);
        Expr::Binary { op, left: Box::new(left), right: Box::new(right) }
    }
}

/// Every well-formed token list is the infix order of a tree that is grouped
/// by the priorities, and its conversion is the postfix order of that tree:
/// each operator comes after both of its operands.
pub proof fn lemma_tree_of_tokens(tokens: Seq<TokenView>) -> (e: Expr)
    requires
        well_formed(tokens),
    ensures
        e.well_grouped(),
        e.infix() == tokens,
        e.postfix() == to_rpn(tokens),
{
    let e = lemma_tree_above(tokens, 0);
    lemma_rpn_of_infix(e);
    e
}

} // verus!
