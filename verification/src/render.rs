//! The renderer: from a token list back to a string.

use crate::token::{Token, TokenView};
use vstd::prelude::*;
use vstd::string::StringExecFns;

verus! {

/// The string forms of the tokens, one for each token.
pub open spec fn texts(tokens: Seq<TokenView>) -> Seq<Seq<char>> {
    Seq::new(tokens.len(), |i: int| tokens[i].text())
}

/// The string form of a token list: the string forms of its tokens, joined in
/// order with nothing between them.
pub open spec fn render(tokens: Seq<TokenView>) -> Seq<char> {
    texts(tokens).flatten()
}

/// One more token adds its string form at the end.
pub proof fn lemma_render_push(tokens: Seq<TokenView>, token: TokenView)
    ensures
        render(tokens.push(token)) == render(tokens) + token.text(),
{
    assert(texts(tokens.push(token)) =~= texts(tokens).push(token.text()));
    texts(tokens).lemma_flatten_push(token.text());
}

/// Joins the string forms of the tokens into one string, without a separator.
pub fn tokens_to_string(tokens: &Vec<Token>) -> (s: String)
    ensures
        s@ == render(tokens.deep_view()),
{
    let ghost views = tokens.deep_view();
    let mut s = String::new();
    for i in 0..tokens.len()
        invariant
            views == tokens.deep_view(),
            s@ == render(views.take(i as int)),
    {
        let piece = tokens[i].to_string();
        proof {
            assert(views.take(i + 1) =~= views.take(i as int).push(tokens[i as int]@));
            lemma_render_push(views.take(i as int), tokens[i as int]@);
        }
        s.append(piece.as_str());
    }
    assert(views.take(tokens.len() as int) =~= views);
    s
}

} // verus!
