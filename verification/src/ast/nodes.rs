//! The node interface, the two families of nodes, and identifiers.

use vstd::prelude::*;
use crate::ast::statements::VarStatement;
use crate::token::Token;

verus! {

/// What every node of the tree offers.
pub trait Node {
    /// The text of the token that the node begins with.
    spec fn literal_text(&self) -> Seq<char>;

    /// The node written out as source text.
    spec fn printed(&self) -> Seq<char>;

    /// The text of the token that the node begins with.
    fn token_literal(&self) -> (text: String)
        ensures
            text@ == self.literal_text(),
    ;

    /// The node written out as source text.
    fn print_string(&self) -> (text: String)
        ensures
            text@ == self.printed(),
    ;
}

/// A statement.
pub enum StatementNode {
    Var(VarStatement),
}

/// An expression.
pub enum ExpressionNode {
    Identifier(Identifier),
}

/// A name: the token it was scanned as, and its value.
pub struct Identifier {
    pub token: Token,
    pub value: String,
}

impl Node for StatementNode {
    open spec fn literal_text(&self) -> Seq<char> {
        match self {
            StatementNode::Var(statement) => statement.literal_text(),
        }
    }

    open spec fn printed(&self) -> Seq<char> {
        match self {
            StatementNode::Var(statement) => statement.printed(),
        }
    }

    fn token_literal(&self) -> (text: String) {
        match self {
            StatementNode::Var(statement) => statement.token_literal(),
        }
    }

    fn print_string(&self) -> (text: String) {
        match self {
            StatementNode::Var(statement) => statement.print_string(),
        }
    }
}

impl Node for ExpressionNode {
    open spec fn literal_text(&self) -> Seq<char> {
        match self {
            ExpressionNode::Identifier(identifier) => identifier.literal_text(),
        }
    }

    open spec fn printed(&self) -> Seq<char> {
        match self {
            ExpressionNode::Identifier(identifier) => identifier.printed(),
        }
    }

    fn token_literal(&self) -> (text: String) {
        match self {
            ExpressionNode::Identifier(identifier) => identifier.token_literal(),
        }
    }

    fn print_string(&self) -> (text: String) {
        match self {
            ExpressionNode::Identifier(identifier) => identifier.print_string(),
        }
    }
}

impl Node for Identifier {
    open spec fn literal_text(&self) -> Seq<char> {
        self.token.literal@
    }

    open spec fn printed(&self) -> Seq<char> {
        self.value@
    }

    fn token_literal(&self) -> (text: String) {
        self.token.literal.clone()
    }

    fn print_string(&self) -> (text: String) {
        self.value.clone()
    }
}

} // verus!
