//! The parser's token window: the current token and the one after it.

use vstd::prelude::*;
use crate::lexer::Lexer;
use crate::scan;
use crate::token::{Token, TokenView};

verus! {

/// A parser over a lexer, holding the two tokens it looks at.
pub struct Parser {
    lexer: Lexer,
    current_token: Token,
    peek_token: Token,
}

impl Parser {
    /// The text being parsed.
    pub closed spec fn source(&self) -> Seq<char> {
        self.lexer.source()
    }

    /// Where the lexer's cursor stands: behind the peeked token.
    pub closed spec fn cursor(&self) -> int {
        self.lexer.cursor()
    }

    /// The token under consideration.
    pub closed spec fn current(&self) -> TokenView {
        self.current_token@
    }

    /// The token after the current one.
    pub closed spec fn peek(&self) -> TokenView {
        self.peek_token@
    }

    /// The lexer within is well-formed.
    pub closed spec fn wf(&self) -> bool {
        self.lexer.wf()
    }

    /// Whether the lexer within can yield `calls` more tokens without an
    /// index passing the largest that the machine can hold.
    pub open spec fn has_room(&self, calls: nat) -> bool {
        &&& self.cursor() + calls + 1 <= usize::MAX
        &&& self.source().len() + calls + 1 <= usize::MAX
    }

    /// A parser that has fetched the first two tokens of `lexer`, which must
    /// have room for them.
    pub fn new(lexer: Lexer) -> (parser: Parser)
        requires
            lexer.wf(),
            lexer.has_room(2),
        ensures
            parser.wf(),
            parser.source() == lexer.source(),
            parser.current() == scan::next_token(lexer.source(), lexer.cursor()),
            parser.peek() == scan::next_token(
                lexer.source(),
                scan::next_cursor(lexer.source(), lexer.cursor()),
            ),
            parser.cursor() == scan::next_cursor(
                lexer.source(),
                scan::next_cursor(lexer.source(), lexer.cursor()),
            ),
            forall|calls: nat| lexer.has_room(calls + 2) ==> parser.has_room(calls),
    {
        let mut lexer = lexer;
        let current_token = lexer.next_token();
        let peek_token = lexer.next_token();
        Parser { lexer, current_token, peek_token }
    }

    /// Moves the window one token on: the peeked token becomes the current
    /// one, and the next token of the lexer the peeked one. The lexer must
    /// have room for it.
    pub fn next_token(&mut self)
        requires
            old(self).wf(),
            old(self).has_room(1),
        ensures
            final(self).wf(),
            final(self).source() == old(self).source(),
            final(self).current() == old(self).peek(),
            final(self).peek() == scan::next_token(old(self).source(), old(self).cursor()),
            final(self).cursor() == scan::next_cursor(old(self).source(), old(self).cursor()),
            forall|calls: nat| old(self).has_room(calls + 1) ==> final(self).has_room(calls),
    {
        self.current_token = self.peek_token.clone();
        self.peek_token = self.lexer.next_token();
    }

    /// The token under consideration.
    pub fn current_token(&self) -> (token: &Token)
        ensures
            token@ == self.current(),
    {
        &self.current_token
    }

    /// The token after the current one.
    pub fn peek_token(&self) -> (token: &Token)
        ensures
            token@ == self.peek(),
    {
        &self.peek_token
    }
}

} // verus!
