use operator_precedence::{
    reverse_polish_notation, to_tokens, tokenize_string, tokens_to_string, Operator, Token,
};

fn name(text: &str) -> Token {
    Token::Operand { name: text.to_string() }
}

fn op(value: Operator) -> Token {
    Token::Operator { value }
}

fn convert(input: &str) -> String {
    let tokens = to_tokens(&tokenize_string(input));
    tokens_to_string(&reverse_polish_notation(&tokens))
}

#[test]
fn single_addition() {
    let pieces = tokenize_string("a+b");
    assert_eq!(pieces, vec!["a".to_string(), "+".to_string(), "b".to_string()]);
    let tokens = to_tokens(&pieces);
    assert_eq!(tokens, vec![name("a"), op(Operator::Add), name("b")]);
    let rpn = reverse_polish_notation(&tokens);
    assert_eq!(rpn, vec![name("a"), name("b"), op(Operator::Add)]);
    assert_eq!(tokens_to_string(&rpn), "ab+");
}

#[test]
fn multiplication_binds_tighter_than_addition() {
    let tokens = to_tokens(&tokenize_string("a+b*c"));
    let rpn = reverse_polish_notation(&tokens);
    assert_eq!(
        rpn,
        vec![name("a"), name("b"), name("c"), op(Operator::Multiply), op(Operator::Add)]
    );
    assert_eq!(tokens_to_string(&rpn), "abc*+");
}

#[test]
fn long_mixed_expression() {
    let tokens = to_tokens(&tokenize_string("a+b*c/d-e-f*g*h"));
    assert_eq!(tokens.len(), 15);
    let rpn = reverse_polish_notation(&tokens);
    assert_eq!(
        rpn,
        vec![
            name("a"),
            name("b"),
            name("c"),
            op(Operator::Multiply),
            name("d"),
            op(Operator::Divide),
            op(Operator::Add),
            name("e"),
            op(Operator::Subtract),
            name("f"),
            name("g"),
            op(Operator::Multiply),
            name("h"),
            op(Operator::Multiply),
            op(Operator::Subtract),
        ]
    );
    assert_eq!(tokens_to_string(&rpn), "abc*d/+e-fg*h*-");
}

#[test]
fn repeated_subtraction_goes_left_to_right() {
    let tokens = to_tokens(&tokenize_string("a-b-c"));
    let rpn = reverse_polish_notation(&tokens);
    assert_eq!(
        rpn,
        vec![name("a"), name("b"), op(Operator::Subtract), name("c"), op(Operator::Subtract)]
    );
    assert_eq!(tokens_to_string(&rpn), "ab-c-");
}

#[test]
fn empty_expression() {
    let pieces = tokenize_string("");
    assert!(pieces.is_empty());
    let tokens = to_tokens(&pieces);
    assert!(tokens.is_empty());
    let rpn = reverse_polish_notation(&tokens);
    assert!(rpn.is_empty());
    assert_eq!(tokens_to_string(&rpn), "");
}

#[test]
fn single_operand_expression() {
    let tokens = to_tokens(&tokenize_string("a"));
    let rpn = reverse_polish_notation(&tokens);
    assert_eq!(rpn, vec![name("a")]);
    assert_eq!(tokens_to_string(&rpn), "a");
}

#[test]
fn whole_pipeline_on_more_expressions() {
    assert_eq!(convert("a*b+c"), "ab*c+");
    assert_eq!(convert("a*b*c"), "ab*c*");
    assert_eq!(convert("a/b-c*d"), "ab/cd*-");
    assert_eq!(convert("1+2*3-4"), "123*+4-");
    assert_eq!(convert("a+b+c+d"), "ab+c+d+");
    assert_eq!(convert("a*b+c*d+e*f"), "ab*cd*+ef*+");
}
