use operator_precedence::{to_tokens, tokenize_string, Operator, Token};

fn piece(text: &str) -> String {
    text.to_string()
}

fn operand_named(text: &str) -> Token {
    Token::Operand { name: text.to_string() }
}

#[test]
fn one_piece_per_character_in_order() {
    assert_eq!(
        tokenize_string("a+b*c"),
        vec![piece("a"), piece("+"), piece("b"), piece("*"), piece("c")]
    );
}

#[test]
fn white_space_is_kept() {
    assert_eq!(
        tokenize_string("a + b"),
        vec![piece("a"), piece(" "), piece("+"), piece(" "), piece("b")]
    );
    assert_eq!(tokenize_string("\t\n"), vec![piece("\t"), piece("\n")]);
}

#[test]
fn multi_byte_characters_are_single_pieces() {
    let pieces = tokenize_string("\u{e9}+\u{65e5}\u{1f600}");
    assert_eq!(
        pieces,
        vec![piece("\u{e9}"), piece("+"), piece("\u{65e5}"), piece("\u{1f600}")]
    );
    assert_eq!(pieces[0].len(), 2);
    assert_eq!(pieces[2].len(), 3);
    assert_eq!(pieces[3].len(), 4);
}

#[test]
fn pieces_hold_one_character_each() {
    let input = "x*(y-1)/ z";
    let pieces = tokenize_string(input);
    assert_eq!(pieces.len(), input.chars().count());
    for (piece, c) in pieces.iter().zip(input.chars()) {
        assert_eq!(piece.chars().count(), 1);
        assert_eq!(piece.chars().next(), Some(c));
    }
    assert_eq!(pieces.concat(), input);
}

#[test]
fn the_four_symbols_become_operators() {
    let pieces = vec![piece("+"), piece("-"), piece("*"), piece("/")];
    assert_eq!(
        to_tokens(&pieces),
        vec![
            Token::Operator { value: Operator::Add },
            Token::Operator { value: Operator::Subtract },
            Token::Operator { value: Operator::Multiply },
            Token::Operator { value: Operator::Divide },
        ]
    );
}

#[test]
fn letters_digits_and_spaces_become_operands() {
    let pieces = vec![piece("a"), piece("7"), piece(" "), piece("("), piece("%"), piece("=")];
    assert_eq!(
        to_tokens(&pieces),
        vec![
            operand_named("a"),
            operand_named("7"),
            operand_named(" "),
            operand_named("("),
            operand_named("%"),
            operand_named("="),
        ]
    );
}

#[test]
fn only_exact_matches_become_operators() {
    let pieces = vec![
        piece(""),
        piece("++"),
        piece("+ "),
        piece(" +"),
        piece("a+"),
        piece("\u{2212}"),
        piece("\u{d7}"),
        piece("\u{ff0b}"),
    ];
    assert_eq!(
        to_tokens(&pieces),
        vec![
            operand_named(""),
            operand_named("++"),
            operand_named("+ "),
            operand_named(" +"),
            operand_named("a+"),
            operand_named("\u{2212}"),
            operand_named("\u{d7}"),
            operand_named("\u{ff0b}"),
        ]
    );
}

#[test]
fn multi_byte_piece_becomes_an_operand() {
    let tokens = to_tokens(&tokenize_string("\u{3b1}*\u{3b2}"));
    assert_eq!(
        tokens,
        vec![
            operand_named("\u{3b1}"),
            Token::Operator { value: Operator::Multiply },
            operand_named("\u{3b2}"),
        ]
    );
}

#[test]
fn no_pieces_give_no_tokens() {
    assert!(tokenize_string("").is_empty());
    assert!(to_tokens(&Vec::new()).is_empty());
}

#[test]
fn classification_keeps_length_and_order() {
    let pieces = tokenize_string("a+b-c*d/e");
    let tokens = to_tokens(&pieces);
    assert_eq!(tokens.len(), pieces.len());
    for (token, piece) in tokens.iter().zip(pieces.iter()) {
        assert_eq!(&token.to_string(), piece);
    }
}
