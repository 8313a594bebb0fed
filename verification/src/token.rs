//! The token model: operators with their priorities, and tokens.

use vstd::prelude::*;

verus! {

/// One of the four binary operators.
#[derive(Debug, Clone, Copy, PartialEq, Eq, Structural)]
pub enum Operator {
    Add,
    Subtract,
    Multiply,
    Divide,
}

impl Operator {
    /// The binding strength of the operator: a higher priority binds tighter.
    /// Multiplication and division share the higher level, addition and
    /// subtraction the lower one.
    pub open spec fn priority(self) -> nat {
        match self {
            Operator::Add | Operator::Subtract => 0,
            Operator::Multiply | Operator::Divide => 1,
        }
    }

    /// The character that stands for the operator in an expression.
    pub open spec fn symbol(self) -> char {
        match self {
            Operator::Add => '+',
            Operator::Subtract => '-',
            Operator::Multiply => '*',
            Operator::Divide => '/',
        }
    }

    /// The string form of the operator: its symbol alone.
    pub open spec fn text(self) -> Seq<char> {
        seq![self.symbol()]
    }

    /// Returns the operator's priority.
    pub fn get_priority(self) -> (p: u8)
        ensures
            p == self.priority(),
    {
        match self {
            Operator::Add => 0,
            Operator::Subtract => 0,
            Operator::Multiply => 1,
            Operator::Divide => 1,
        }
    }

    /// Returns the operator's string form.
    pub fn to_string(self) -> (s: String)
        ensures
            s@ == self.text(),
    {
        proof {
            reveal_strlit("+");
            reveal_strlit("-");
            reveal_strlit("*");
            reveal_strlit("/");
        }
        match self {
            Operator::Add => "+".to_owned(),
            Operator::Subtract => "-".to_owned(),
            Operator::Multiply => "*".to_owned(),
            Operator::Divide => "/".to_owned(),
        }
    }
}

/// The mathematical model of a [`Token`].
pub enum TokenView {
    /// An operand, known by its name only.
    Operand { name: Seq<char> },
    /// An operator.
    Operator { value: Operator },
}

impl TokenView {
    /// The string form of a token: the name of an operand, the symbol of an
    /// operator.
    pub open spec fn text(self) -> Seq<char> {
        match self {
            TokenView::Operand { name } => name,
            TokenView::Operator { value } => value.text(),
        }
    }
}

/// The token of an operand with the given name.
pub open spec fn operand(name: Seq<char>) -> TokenView {
    TokenView::Operand { name }
}

/// The token of an operator.
pub open spec fn operator(value: Operator) -> TokenView {
    TokenView::Operator { value }
}

/// The operands of a token list, in the order of the list.
pub open spec fn operands(tokens: Seq<TokenView>) -> Seq<TokenView> {
    tokens.filter(|token: TokenView| token is Operand)
}

/// The operators of a token list, in the order of the list.
pub open spec fn operators(tokens: Seq<TokenView>) -> Seq<TokenView> {
    tokens.filter(|token: TokenView| token is Operator)
}

/// Whether a token list holds operands only.
pub open spec fn all_operands(tokens: Seq<TokenView>) -> bool {
    forall|i: int| 0 <= i < tokens.len() ==> (#[trigger] tokens[i]) is Operand
}

/// An element of an expression: an operand or an operator.
#[derive(Debug, PartialEq, Eq)]
pub enum Token {
    Operand { name: String },
    Operator { value: Operator },
}

impl View for Token {
    type V = TokenView;

    open spec fn view(&self) -> TokenView {
        match self {
            Token::Operand { name } => TokenView::Operand { name: name@ },
            Token::Operator { value } => TokenView::Operator { value: *value },
        }
    }
}

impl DeepView for Token {
    type V = TokenView;

    open spec fn deep_view(&self) -> TokenView {
        self@
    }
}

impl Clone for Token {
    fn clone(&self) -> (res: Self)
        ensures
            res@ == self@,
    {
        match self {
            Token::Operand { name } => Token::Operand { name: name.clone() },
            Token::Operator { value } => Token::Operator { value: *value },
        }
    }
}

impl Token {
    /// Returns the token's string form.
    pub fn to_string(&self) -> (s: String)
        ensures
            s@ == self@.text(),
    {
        match self {
            Token::Operand { name } => name.clone(),
            Token::Operator { value } => value.to_string(),
        }
    }
}

} // verus!
