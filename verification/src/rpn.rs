//! The converter: from infix order to postfix order, with an operator stack.

use crate::conversion::{to_rpn, Conversion};
use crate::expr::{lemma_rpn_of_infix, lemma_tree_of_tokens, well_formed, Expr};
use crate::laws::{
    first_operator_first, lemma_equal_priority_left_to_right, lemma_flush_all,
    lemma_higher_priority_first, lemma_operands_only_unchanged, lemma_rpn_keeps_operand_order,
    lemma_rpn_keeps_tokens, second_operator_first, two_operator_infix,
};
use crate::token::{all_operands, operands, operator, operators, Operator, Token};
use vstd::prelude::*;

verus! {

/// Reorders an infix token list into Reverse Polish Notation.
///
/// The input is read from left to right. Operands go to the output as they
/// come. An operator waits on a stack until an operator that binds no tighter
/// arrives, or the input ends; operators of equal priority therefore leave in
/// the order in which they came. Any token list is accepted: one that is not
/// a well-formed infix expression is put through the same steps.
///
/// The first clause of the contract fixes the result; the others say what
/// that means for the caller. For a well-formed input the result is the
/// postfix order of the tree that the input stands for. For any input, the
/// result rearranges the input without losing or adding a token, it keeps the
/// operands in their order, and it leaves an input without operators as it
/// is. In `a op1 b op2 c` it applies `op1` first if the two operators have
/// the same priority, and `op2` first if `op2` binds tighter.
pub fn reverse_polish_notation(input_tokens: &Vec<Token>) -> (rpn_tokens: Vec<Token>)
    ensures
        rpn_tokens.deep_view() == to_rpn(input_tokens.deep_view()),
        well_formed(input_tokens.deep_view()) ==> exists|e: Expr|
            e.well_grouped() && #[trigger] e.infix() == input_tokens.deep_view()
                && rpn_tokens.deep_view() == e.postfix(),
        forall|e: Expr|
            e.well_grouped() && #[trigger] e.infix() == input_tokens.deep_view()
                ==> rpn_tokens.deep_view() == e.postfix(),
        rpn_tokens.deep_view().to_multiset() == input_tokens.deep_view().to_multiset(),
        rpn_tokens.len() == input_tokens.len(),
        operands(rpn_tokens.deep_view()).len() == operands(input_tokens.deep_view()).len(),
        operators(rpn_tokens.deep_view()).len() == operators(input_tokens.deep_view()).len(),
        operands(rpn_tokens.deep_view()) == operands(input_tokens.deep_view()),
        all_operands(input_tokens.deep_view()) ==> rpn_tokens.deep_view()
            == input_tokens.deep_view(),
        forall|a: Seq<char>, op1: Operator, b: Seq<char>, op2: Operator, c: Seq<char>|
            input_tokens.deep_view() == #[trigger] two_operator_infix(a, op1, b, op2, c)
                && op1.priority() == op2.priority() ==> rpn_tokens.deep_view()
                == first_operator_first(a, op1, b, op2, c),
        forall|a: Seq<char>, op1: Operator, b: Seq<char>, op2: Operator, c: Seq<char>|
            input_tokens.deep_view() == #[trigger] two_operator_infix(a, op1, b, op2, c)
                && op2.priority() > op1.priority() ==> rpn_tokens.deep_view()
                == second_operator_first(a, op1, b, op2, c),
{
    let ghost input = input_tokens.deep_view();
    let mut operator_stack: Vec<Operator> = Vec::new();
    let mut rpn_tokens = Vec::<Token>::new();

    for i in 0..input_tokens.len()
        invariant
            input == input_tokens.deep_view(),
            rpn_tokens.deep_view() == Conversion::run(input.take(i as int)).output,
            operator_stack@ == Conversion::run(input.take(i as int)).stack,
    {
        let ghost before = Conversion { output: rpn_tokens.deep_view(), stack: operator_stack@ };
        let token = &input_tokens[i];
        assert(input.take(i + 1).drop_last() =~= input.take(i as int));
        match token {
            Token::Operand { .. } => {
                rpn_tokens.push(token.clone());
            },
            Token::Operator { value } => {
                let current_operator_priority = value.get_priority();
                let ghost priority = value.priority();
                if operator_stack.is_empty() {
                    operator_stack.push(*value);
                } else {
                    if current_operator_priority > operator_stack.last().unwrap().get_priority() {
                        operator_stack.push(*value)
                    } else {
                        while !operator_stack.is_empty()
                            invariant
                                priority == current_operator_priority,
                                (Conversion {
                                    output: rpn_tokens.deep_view(),
                                    stack: operator_stack@,
                                }).flush(priority) == before.flush(priority),
                            ensures
                                rpn_tokens.deep_view() == before.flush(priority).output,
                                operator_stack@ == before.flush(priority).stack,
                            decreases operator_stack.len(),
                        {
                            let ghost output = rpn_tokens.deep_view();
                            let top_op = *operator_stack.last().unwrap();
                            if top_op.get_priority() >= current_operator_priority {
                                operator_stack.pop();
                                rpn_tokens.push(Token::Operator { value: top_op });
                                assert(rpn_tokens.deep_view() =~= output.push(operator(top_op)));
                            } else {
                                break ;
                            }
                        }
                        operator_stack.push(*value);
                    }
                }
            },
        }
    }

    proof {
        assert(input.take(input_tokens.len() as int) =~= input);
        lemma_flush_all(Conversion::run(input));
    }
    while !operator_stack.is_empty()
        invariant
            (Conversion { output: rpn_tokens.deep_view(), stack: operator_stack@ }).flush(0)
                == Conversion::run(input).flush(0),
        decreases operator_stack.len(),
    {
        let ghost output = rpn_tokens.deep_view();
        let top_op = *operator_stack.last().unwrap();
        operator_stack.pop();
        rpn_tokens.push(Token::Operator { value: top_op });
        assert(rpn_tokens.deep_view() =~= output.push(operator(top_op)));
    }

    proof {
        if well_formed(input) {
            lemma_tree_of_tokens(input);
        }
        assert forall|e: Expr| e.well_grouped() && #[trigger] e.infix() == input implies
            rpn_tokens.deep_view() == e.postfix() by {
            lemma_rpn_of_infix(e);
        }
        lemma_rpn_keeps_tokens(input);
        lemma_rpn_keeps_operand_order(input);
        if all_operands(input) {
            lemma_operands_only_unchanged(input);
        }
        assert forall|a: Seq<char>, op1: Operator, b: Seq<char>, op2: Operator, c: Seq<char>|
            input == #[trigger] two_operator_infix(a, op1, b, op2, c) && op1.priority()
                == op2.priority() implies rpn_tokens.deep_view() == first_operator_first(
            a,
            op1,
            b,
            op2,
            c,
        ) by {
            lemma_equal_priority_left_to_right(a, op1, b, op2, c);
        }
        assert forall|a: Seq<char>, op1: Operator, b: Seq<char>, op2: Operator, c: Seq<char>|
            input == #[trigger] two_operator_infix(a, op1, b, op2, c) && op2.priority()
                > op1.priority() implies rpn_tokens.deep_view() == second_operator_first(
            a,
            op1,
            b,
            op2,
            c,
        ) by {
            lemma_higher_priority_first(a, op1, b, op2, c);
        }
    }
    rpn_tokens
}

} // verus!
