//! What the interactive loop computes for one line of input.

use vstd::prelude::*;
use crate::lexer::Lexer;
use crate::scan::{theorem_cursor_advances, theorem_end_marker};
use crate::stream::tokens_until_end;
use crate::token::{token_views, Token, TokenKind};

verus! {

/// The tokens of `line` that the loop shows: all that a fresh lexer yields
/// before its first end marker, in order. The line must leave the indices
/// room to pass its end.
pub fn tokens_of_line(line: &str) -> (tokens: Vec<Token>)
    requires
        line@.len() + 2 <= usize::MAX,
    ensures
        token_views(tokens@) == tokens_until_end(line@, 0),
{
    let mut lexer = Lexer::new(line);
    let mut tokens: Vec<Token> = Vec::new();
    assert(token_views(tokens@) =~= Seq::empty());
    loop
        invariant_except_break
            lexer.cursor() <= line@.len(),
            token_views(tokens@) + tokens_until_end(line@, lexer.cursor()) == tokens_until_end(
                line@,
                0,
            ),
        invariant
            lexer.wf(),
            lexer.source() == line@,
            line@.len() + 2 <= usize::MAX,
        ensures
            token_views(tokens@) == tokens_until_end(line@, 0),
        decreases line@.len() - lexer.cursor(),
    {
        let ghost before = lexer.cursor();
        let ghost seen = token_views(tokens@);
        proof {
            theorem_cursor_advances(line@, before);
            theorem_end_marker(line@, before);
        }
        let token = lexer.next_token();
        if token.kind == TokenKind::EOF {
            assert(seen + Seq::empty() =~= seen);
            break ;
        }
        tokens.push(token);
        proof {
            assert(token_views(tokens@) =~= seen + seq![token@]);
            assert((seen + seq![token@]) + tokens_until_end(line@, lexer.cursor()) =~= seen + (
            seq![token@] + tokens_until_end(line@, lexer.cursor())));
        }
    }
    tokens
}

} // verus!
