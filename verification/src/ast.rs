//! The syntax tree: nodes that know the text of their first token and how
//! they are written out.

pub mod nodes;
pub mod program;
pub mod statements;
