//! Statements.

use vstd::prelude::*;
use crate::ast::nodes::{ExpressionNode, Identifier, Node};
use crate::token::Token;

verus! {

/// A variable declaration: its introducing token, the name declared, and
/// the value it is bound to, if any.
pub struct VarStatement {
    pub token: Token,
    pub name: Identifier,
    pub value: Option<ExpressionNode>,
}

impl Node for VarStatement {
    open spec fn literal_text(&self) -> Seq<char> {
        self.token.literal@
    }

    /// The introducing token, a space, the name, ` = `, the value where
    /// there is one, and a semicolon.
    open spec fn printed(&self) -> Seq<char> {
        self.token.literal@ + seq![' '] + self.name.printed() + seq![' ', '=', ' '] + (
        match self.value {
            Some(value) => value.printed(),
            None => Seq::empty(),
        }) + seq![';']
    }

    fn token_literal(&self) -> (text: String) {
        self.token.literal.clone()
    }

    fn print_string(&self) -> (text: String) {
        proof {
            reveal_strlit("");
            reveal_strlit(" ");
            reveal_strlit(" = ");
            reveal_strlit(";");
            assert(""@ =~= Seq::<char>::empty());
            assert(" "@ =~= seq![' ']);
            assert(" = "@ =~= seq![' ', '=', ' ']);
            assert(";"@ =~= seq![';']);
        }
        let mut out = String::from_str("");
        out.append(self.token_literal().as_str());
        out.append(" ");
        out.append(self.name.print_string().as_str());
        out.append(" = ");
        if let Some(value) = &self.value {
            out.append(value.print_string().as_str());
        }
        out.append(";");
        proof {
            assert(out@ =~= self.printed());
        }
        out
    }
}

} // verus!
