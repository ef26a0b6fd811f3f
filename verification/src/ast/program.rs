//! A program: a sequence of statements.

use vstd::prelude::*;
use crate::ast::nodes::{Node, StatementNode};

verus! {

/// The root of the tree.
pub struct Program {
    pub statements: Vec<StatementNode>,
}

/// The statements written out one after another, with nothing between
/// them.
pub open spec fn printed_statements(statements: Seq<StatementNode>) -> Seq<char>
    decreases statements.len(),
{
    if statements.len() == 0 {
        Seq::empty()
    } else {
        printed_statements(statements.drop_last()) + statements.last().printed()
    }
}

impl Node for Program {
    /// That of the first statement, or nothing for an empty program.
    open spec fn literal_text(&self) -> Seq<char> {
        if self.statements@.len() > 0 {
            self.statements@[0].literal_text()
        } else {
            Seq::empty()
        }
    }

    open spec fn printed(&self) -> Seq<char> {
        printed_statements(self.statements@)
    }

    fn token_literal(&self) -> (text: String) {
        if self.statements.len() > 0 {
            match &self.statements[0] {
                StatementNode::Var(statement) => statement.token_literal(),
            }
        } else {
            proof {
                reveal_strlit("");
                assert(""@ =~= Seq::<char>::empty());
            }
            String::from_str("")
        }
    }

    fn print_string(&self) -> (text: String) {
        let mut out = String::new();
        let mut i: usize = 0;
        while i < self.statements.len()
            invariant
                i <= self.statements.len(),
                out@ == printed_statements(self.statements@.take(i as int)),
            decreases self.statements.len() - i,
        {
            out.append(self.statements[i].print_string().as_str());
            proof {
                assert(self.statements@.take(i + 1).drop_last() =~= self.statements@.take(i as int));
            }
            i += 1;
        }
        proof {
            assert(self.statements@.take(i as int) =~= self.statements@);
        }
        out
    }
}

} // verus!
