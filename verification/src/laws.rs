//! What holds of every conversion: the postfix order is a rearrangement of the
//! input that keeps the operands in place relative to each other, and the
//! priorities decide where the operators go. And what holds of the stages
//! around it: rendering undoes tokenizing.

use crate::conversion::{operator_tokens, to_rpn, Conversion};
use crate::expr::{lemma_rpn_of_infix, Expr};
use crate::render::{render, texts};
use crate::token::{all_operands, operand, operands, operator, operators, Operator, TokenView};
use crate::tokenizer::{classify, classify_all, split_chars};
use vstd::prelude::*;
use vstd::seq_lib::{lemma_multiset_commutative, to_multiset_build};

verus! {

/// The state in which a token finds its place: an operator first flushes the
/// stack down to its own priority, an operand takes the state as it is.
spec fn settled(state: Conversion, token: TokenView) -> Conversion {
    match token {
        TokenView::Operand { .. } => state,
        TokenView::Operator { value } => state.flush(value.priority()),
    }
}

/// A list of operators holds no operand.
proof fn lemma_operator_tokens_filtered(ops: Seq<Operator>)
    ensures
        operands(operator_tokens(ops)) == Seq::<TokenView>::empty(),
        operators(operator_tokens(ops)) == operator_tokens(ops),
    decreases ops.len(),
{
    reveal(Seq::filter);
    if ops.len() > 0 {
        lemma_operator_tokens_filtered(ops.drop_last());
        assert(operator_tokens(ops).drop_last() =~= operator_tokens(ops.drop_last()));
    }
}

/// Flushing moves operators to the output in the order in which the end of
/// the input would have moved them.
proof fn lemma_flush_keeps_finish(state: Conversion, priority: nat)
    ensures
        state.flush(priority).finish() == state.finish(),
    decreases state.stack.len(),
{
    if state.stack.len() > 0 && state.stack.last().priority() >= priority {
        let next = Conversion {
            output: state.output.push(operator(state.stack.last())),
            stack: state.stack.drop_last(),
        };
        lemma_flush_keeps_finish(next, priority);
    }
}

/// Flushing at the lowest priority empties the stack onto the output.
pub proof fn lemma_flush_all(state: Conversion)
    ensures
        state.flush(0).stack.len() == 0,
        state.flush(0).output == state.finish(),
    decreases state.stack.len(),
{
    lemma_flush_keeps_finish(state, 0);
    if state.stack.len() > 0 {
        lemma_flush_all(
            Conversion {
                output: state.output.push(operator(state.stack.last())),
                stack: state.stack.drop_last(),
            },
        );
    }
}

/// A step puts its token between what has been written out and the operators
/// that still wait, and moves nothing else.
proof fn lemma_step_inserts(state: Conversion, token: TokenView)
    ensures
        ({
            let at = settled(state, token);
            let waiting = operator_tokens(at.stack.reverse());
            &&& state.finish() == at.output + waiting
            &&& state.step(token).finish() == at.output.push(token) + waiting
        }),
{
    if let TokenView::Operator { value } = token {
        lemma_flush_keeps_finish(state, value.priority());
    }
}

/// With operands only, the input is already in postfix order.
pub proof fn lemma_operands_only_unchanged(tokens: Seq<TokenView>)
    requires
        all_operands(tokens),
    ensures
        to_rpn(tokens) == tokens,
{
    lemma_operands_only_run(tokens);
}

/// With operands only, everything is written out and nothing waits.
proof fn lemma_operands_only_run(tokens: Seq<TokenView>)
    requires
        all_operands(tokens),
    ensures
        Conversion::run(tokens) == (Conversion { output: tokens, stack: Seq::empty() }),
    decreases tokens.len(),
{
    if tokens.len() > 0 {
        lemma_operands_only_run(tokens.drop_last());
        assert(tokens.drop_last().push(tokens.last()) =~= tokens);
    } else {
        assert(tokens =~= Seq::<TokenView>::empty());
    }
}

/// The postfix order holds the tokens of the input, each as often as the
/// input does: no token is lost and none is made up. In particular it holds
/// as many operands and as many operators as the input.
pub proof fn lemma_rpn_keeps_tokens(tokens: Seq<TokenView>)
    ensures
        to_rpn(tokens).to_multiset() == tokens.to_multiset(),
        to_rpn(tokens).len() == tokens.len(),
        operands(to_rpn(tokens)).len() == operands(tokens).len(),
        operators(to_rpn(tokens)).len() == operators(tokens).len(),
    decreases tokens.len(),
{
    if tokens.len() > 0 {
        let rest = tokens.drop_last();
        let token = tokens.last();
        let state = Conversion::run(rest);
        let at = settled(state, token);
        let waiting = operator_tokens(at.stack.reverse());
        assert(rest.push(token) =~= tokens);
        lemma_rpn_keeps_tokens(rest);
        lemma_step_inserts(state, token);

        to_multiset_build(rest, token);
        to_multiset_build(at.output, token);
        lemma_multiset_commutative(at.output, waiting);
        lemma_multiset_commutative(at.output.push(token), waiting);

        lemma_operator_tokens_filtered(at.stack.reverse());
        let is_operand = |t: TokenView| t is Operand;
        let is_operator = |t: TokenView| t is Operator;
        Seq::filter_distributes_over_add(at.output, waiting, is_operand);
        Seq::filter_distributes_over_add(at.output.push(token), waiting, is_operand);
        Seq::filter_distributes_over_add(at.output, waiting, is_operator);
        Seq::filter_distributes_over_add(at.output.push(token), waiting, is_operator);
        at.output.lemma_filter_push(token, is_operand);
        at.output.lemma_filter_push(token, is_operator);
        rest.lemma_filter_push(token, is_operand);
        rest.lemma_filter_push(token, is_operator);
    } else {
        assert(to_rpn(tokens) =~= tokens);
    }
}

/// The operands stand in the postfix order as they stand in the input: the
/// conversion moves operators only.
pub proof fn lemma_rpn_keeps_operand_order(tokens: Seq<TokenView>)
    ensures
        operands(to_rpn(tokens)) == operands(tokens),
    decreases tokens.len(),
{
    if tokens.len() > 0 {
        let rest = tokens.drop_last();
        let token = tokens.last();
        let state = Conversion::run(rest);
        let at = settled(state, token);
        let waiting = operator_tokens(at.stack.reverse());
        assert(rest.push(token) =~= tokens);
        lemma_rpn_keeps_operand_order(rest);
        lemma_step_inserts(state, token);
        lemma_operator_tokens_filtered(at.stack.reverse());
        let is_operand = |t: TokenView| t is Operand;
        Seq::filter_distributes_over_add(at.output, waiting, is_operand);
        Seq::filter_distributes_over_add(at.output.push(token), waiting, is_operand);
        at.output.lemma_filter_push(token, is_operand);
        rest.lemma_filter_push(token, is_operand);
    }
}

/// The infix order of `a op1 b op2 c`: two operators between three operands.
pub open spec fn two_operator_infix(
    a: Seq<char>,
    op1: Operator,
    b: Seq<char>,
    op2: Operator,
    c: Seq<char>,
) -> Seq<TokenView> {
    seq![operand(a), operator(op1), operand(b), operator(op2), operand(c)]
}

/// The postfix order `a b op1 c op2`, which applies `op1` first.
pub open spec fn first_operator_first(
    a: Seq<char>,
    op1: Operator,
    b: Seq<char>,
    op2: Operator,
    c: Seq<char>,
) -> Seq<TokenView> {
    seq![operand(a), operand(b), operator(op1), operand(c), operator(op2)]
}

/// The postfix order `a b c op2 op1`, which applies `op2` first.
pub open spec fn second_operator_first(
    a: Seq<char>,
    op1: Operator,
    b: Seq<char>,
    op2: Operator,
    c: Seq<char>,
) -> Seq<TokenView> {
    seq![operand(a), operand(b), operand(c), operator(op2), operator(op1)]
}

/// Operators of equal priority are applied from left to right: in
/// `a op1 b op2 c` the first operator leaves the stack when the second
/// arrives, so the postfix order is `a b op1 c op2`.
pub proof fn lemma_equal_priority_left_to_right(
    a: Seq<char>,
    op1: Operator,
    b: Seq<char>,
    op2: Operator,
    c: Seq<char>,
)
    requires
        op1.priority() == op2.priority(),
    ensures
        to_rpn(two_operator_infix(a, op1, b, op2, c)) == first_operator_first(a, op1, b, op2, c),
{
    let first = Expr::Binary {
        op: op1,
        left: Box::new(Expr::Operand { name: a }),
        right: Box::new(Expr::Operand { name: b }),
    };
    let e = Expr::Binary {
        op: op2,
        left: Box::new(first),
        right: Box::new(Expr::Operand { name: c }),
    };
    reveal_with_fuel(Expr::grouped_above, 3);
    reveal_with_fuel(Expr::infix, 3);
    reveal_with_fuel(Expr::postfix, 3);
    lemma_rpn_of_infix(e);
    assert(e.infix() =~= two_operator_infix(a, op1, b, op2, c));
}

/// An operator of higher priority is applied first: in `a op1 b op2 c` with
/// `op2` binding tighter than `op1`, the first operator waits below the
/// second until the input ends, so the postfix order is `a b c op2 op1`.
pub proof fn lemma_higher_priority_first(
    a: Seq<char>,
    op1: Operator,
    b: Seq<char>,
    op2: Operator,
    c: Seq<char>,
)
    requires
        op2.priority() > op1.priority(),
    ensures
        to_rpn(two_operator_infix(a, op1, b, op2, c)) == second_operator_first(a, op1, b, op2, c),
{
    let second = Expr::Binary {
        op: op2,
        left: Box::new(Expr::Operand { name: b }),
        right: Box::new(Expr::Operand { name: c }),
    };
    let e = Expr::Binary {
        op: op1,
        left: Box::new(Expr::Operand { name: a }),
        right: Box::new(second),
    };
    reveal_with_fuel(Expr::grouped_above, 3);
    reveal_with_fuel(Expr::infix, 3);
    reveal_with_fuel(Expr::postfix, 3);
    lemma_rpn_of_infix(e);
    assert(e.infix() =~= two_operator_infix(a, op1, b, op2, c));
}

/// A token has the string form of the piece that it was classified from.
pub proof fn lemma_classify_keeps_text(piece: Seq<char>)
    ensures
        classify(piece).text() == piece,
{
}

/// The pieces of a string, joined, are the string.
proof fn lemma_split_chars_joined(s: Seq<char>)
    ensures
        split_chars(s).flatten() == s,
    decreases s.len(),
{
    if s.len() > 0 {
        let rest = s.drop_last();
        lemma_split_chars_joined(rest);
        assert(split_chars(s) =~= split_chars(rest).push(seq![s.last()]));
        split_chars(rest).lemma_flatten_push(seq![s.last()]);
    }
}

/// Rendering undoes tokenizing: the tokens of a string, rendered before any
/// conversion, give the string back.
pub proof fn lemma_render_undoes_tokenize(s: Seq<char>)
    ensures
        render(classify_all(split_chars(s))) == s,
{
    lemma_split_chars_joined(s);
    assert(texts(classify_all(split_chars(s))) =~= split_chars(s));
}

} // verus!
