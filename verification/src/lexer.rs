//! The lexer: a cursor over the source text that yields one token per call.

use vstd::prelude::*;
use crate::character;
use crate::scan;
use crate::scan::{char_at, run_end, theorem_cursor_advances, Run};
use crate::text::{chars_of, string_of_char};
use crate::token::{Token, TokenKind};

verus! {

/// A scanner over a fixed text. `position` is the index of the current
/// character, `read_position` that of the next one to read, always one
/// further, and `ch` the current character, NUL wherever `position` lies at
/// or behind the end of the text.
pub struct Lexer {
    input: Vec<char>,
    position: usize,
    read_position: usize,
    ch: char,
}

impl Lexer {
    /// The text being scanned.
    pub closed spec fn source(&self) -> Seq<char> {
        self.input@
    }

    /// The index of the current character. It moves on with every token,
    /// the end marker too, so that it comes to stand behind the end of the
    /// text.
    pub closed spec fn cursor(&self) -> int {
        self.position as int
    }

    /// The index of the next character to read.
    pub closed spec fn read_cursor(&self) -> int {
        self.read_position as int
    }

    /// The current character.
    pub closed spec fn current_char(&self) -> char {
        self.ch
    }

    /// The invariant of the cursor: the read position is one ahead of it,
    /// within the text and behind its end alike, and the current character
    /// is the one under it, NUL where there is none.
    pub open spec fn wf(&self) -> bool {
        &&& 0 <= self.cursor()
        &&& self.read_cursor() == self.cursor() + 1
        &&& self.current_char() == char_at(self.source(), self.cursor())
    }

    /// Whether `calls` more tokens can be taken without an index passing
    /// the largest that the machine can hold: each token may move the cursor
    /// one position behind the end of the text, or one further where it
    /// stands there already, and the read position is one ahead of it.
    pub open spec fn has_room(&self, calls: nat) -> bool {
        &&& self.cursor() + calls + 1 <= usize::MAX
        &&& self.source().len() + calls + 1 <= usize::MAX
    }

    /// A lexer over `input`, with its cursor on the first character and its
    /// read position on the second, whether or not the text holds them.
    pub fn new(input: &str) -> (lexer: Lexer)
        ensures
            lexer.wf(),
            lexer.source() == input@,
            lexer.cursor() == 0,
            lexer.read_cursor() == 1,
            lexer.current_char() == char_at(input@, 0),
    {
        let mut lexer = Lexer { input: chars_of(input), position: 0, read_position: 0, ch: '\0' };
        lexer.read_char();
        lexer
    }

    /// Yields the next token and moves the cursor behind it. Blanks before
    /// the token are skipped. Once the text is exhausted, every call yields
    /// the end marker and moves the cursor one position on. The indices
    /// must have room for that.
    pub fn next_token(&mut self) -> (token: Token)
        requires
            old(self).wf(),
            old(self).has_room(1),
        ensures
            final(self).wf(),
            final(self).source() == old(self).source(),
            token@ == scan::next_token(old(self).source(), old(self).cursor()),
            final(self).cursor() == scan::next_cursor(old(self).source(), old(self).cursor()),
            old(self).cursor() < final(self).cursor(),
            final(self).cursor() <= old(self).source().len() + 1 || final(self).cursor() == old(
                self,
            ).cursor() + 1,
            forall|calls: nat| old(self).has_room(calls + 1) ==> final(self).has_room(calls),
    {
        proof {
            theorem_cursor_advances(self.input@, self.position as int);
        }
        self.skip_whitespace();
        let ghost start = self.position as int;
        let ch = self.ch;
        let token = match ch {
            '=' => {
                if self.peek_char() == '=' {
                    self.read_char();
                    proof {
                        reveal_strlit("==");
                        assert("=="@ =~= self.input@.subrange(start, start + 2));
                    }
                    Token::new(TokenKind::Equal, "==")
                } else {
                    Lexer::single(TokenKind::Assign, ch)
                }
            },
            '!' => {
                if self.peek_char() == '=' {
                    self.read_char();
                    proof {
                        reveal_strlit("!=");
                        assert("!="@ =~= self.input@.subrange(start, start + 2));
                    }
                    Token::new(TokenKind::NotEqual, "!=")
                } else {
                    Lexer::single(TokenKind::Bang, ch)
                }
            },
            ';' => Lexer::single(TokenKind::Semicolon, ch),
            '(' => Lexer::single(TokenKind::LeftParenthesis, ch),
            ')' => Lexer::single(TokenKind::RightParenthesis, ch),
            ',' => Lexer::single(TokenKind::Comma, ch),
            '+' => Lexer::single(TokenKind::Plus, ch),
            '-' => Lexer::single(TokenKind::Minus, ch),
            '*' => Lexer::single(TokenKind::Asterisk, ch),
            '/' => Lexer::single(TokenKind::Slash, ch),
            '<' => Lexer::single(TokenKind::LessThan, ch),
            '>' => Lexer::single(TokenKind::GreaterThan, ch),
            '{' => Lexer::single(TokenKind::LeftBrace, ch),
            '}' => Lexer::single(TokenKind::RightBrace, ch),
            '[' => Lexer::single(TokenKind::LeftBracket, ch),
            ']' => Lexer::single(TokenKind::RightBracket, ch),
            '\0' => {
                proof {
                    reveal_strlit("");
                    assert(""@ =~= Seq::<char>::empty());
                }
                Token::new(TokenKind::EOF, "")
            },
            _ => {
                return if Lexer::is_letter(ch) {
                    let literal = self.read_identifier();
                    proof {
                        assert(literal@ =~= self.input@.subrange(start, self.position as int));
                    }
                    let kind = TokenKind::lookup_identifier(literal.as_str());
                    Token { kind, literal }
                } else if Lexer::is_digit(ch) {
                    let literal = self.read_number();
                    proof {
                        assert(literal@ =~= self.input@.subrange(start, self.position as int));
                    }
                    Token { kind: TokenKind::Int, literal }
                } else {
                    proof {
                        assert(seq![ch] =~= self.input@.subrange(start, start + 1));
                    }
                    self.read_char();
                    Lexer::single(TokenKind::Illegal, ch)
                };
            },
        };
        proof {
            if ch != '\0' {
                assert(seq![ch] =~= self.input@.subrange(start, start + 1));
            }
        }
        self.read_char();
        token
    }

    /// A token of one character.
    fn single(kind: TokenKind, ch: char) -> (token: Token)
        ensures
            token.kind == kind,
            token.literal@ == seq![ch],
    {
        Token { kind, literal: string_of_char(ch) }
    }

    /// The character after the current one, NUL where there is none. The
    /// cursor does not move.
    fn peek_char(&self) -> (c: char)
        requires
            self.wf(),
        ensures
            c == char_at(self.source(), self.cursor() + 1),
    {
        if self.read_position >= self.input.len() {
            '\0'
        } else {
            self.input[self.read_position]
        }
    }

    /// Moves the cursor to the read position and the read position one
    /// further, within the text and behind its end alike. The current
    /// character becomes the one under the cursor, NUL where there is none.
    fn read_char(&mut self)
        requires
            old(self).read_position < usize::MAX,
        ensures
            final(self).input == old(self).input,
            final(self).position == old(self).read_position,
            final(self).read_position == old(self).read_position + 1,
            final(self).ch == char_at(old(self).input@, old(self).read_position as int),
    {
        if self.read_position >= self.input.len() {
            self.ch = '\0';
        } else {
            self.ch = self.input[self.read_position];
        }
        self.position = self.read_position;
        self.read_position += 1;
    }

    /// Whether `ch` may stand in a name.
    pub fn is_letter(ch: char) -> (b: bool)
        ensures
            b == character::is_letter(ch),
    {
        character::is_letter_given(ch, ch.is_alphabetic())
    }

    /// Whether `ch` is a decimal digit.
    pub fn is_digit(ch: char) -> (b: bool)
        ensures
            b == character::is_digit(ch),
    {
        ch >= '0' && ch <= '9'
    }

    /// Whether `ch` is a blank.
    pub fn is_whitespace(ch: char) -> (b: bool)
        ensures
            b == character::is_whitespace(ch),
    {
        ch == ' ' || ch == '\t' || ch == '\n' || ch == '\r'
    }

    /// Consumes the longest run of name characters under the cursor and
    /// returns it.
    fn read_identifier(&mut self) -> (identifier: String)
        requires
            old(self).wf(),
            old(self).input.len() < usize::MAX,
        ensures
            final(self).wf(),
            final(self).source() == old(self).source(),
            final(self).cursor() == run_end(old(self).source(), old(self).cursor(), Run::Letters),
            identifier@.len() == final(self).cursor() - old(self).cursor(),
            forall|i: int|
                0 <= i < identifier@.len() ==> #[trigger] identifier@[i] == old(self).source()[old(
                    self,
                ).cursor() + i],
    {
        let mut identifier = String::new();
        let ghost start = self.position as int;
        while Lexer::is_letter(self.ch)
            invariant
                self.wf(),
                self.input.len() < usize::MAX,
                self.input == old(self).input,
                0 <= start <= self.position,
                run_end(self.input@, start, Run::Letters) == run_end(
                    self.input@,
                    self.position as int,
                    Run::Letters,
                ),
                identifier@.len() == self.position - start,
                forall|i: int|
                    0 <= i < identifier@.len() ==> #[trigger] identifier@[i] == self.input@[start + i],
            decreases self.input.len() - self.position,
        {
            identifier.push(self.ch);
            self.read_char();
        }
        identifier
    }

    /// Moves the cursor over the blanks under it.
    fn skip_whitespace(&mut self)
        requires
            old(self).wf(),
            old(self).input.len() < usize::MAX,
        ensures
            final(self).wf(),
            final(self).source() == old(self).source(),
            final(self).cursor() == run_end(old(self).source(), old(self).cursor(), Run::Blanks),
    {
        let ghost start = self.position as int;
        while Lexer::is_whitespace(self.ch)
            invariant
                self.wf(),
                self.input.len() < usize::MAX,
                self.input == old(self).input,
                run_end(self.input@, start, Run::Blanks) == run_end(
                    self.input@,
                    self.position as int,
                    Run::Blanks,
                ),
            decreases self.input.len() - self.position,
        {
            self.read_char();
        }
    }

    /// Consumes the longest run of digits under the cursor and returns it.
    fn read_number(&mut self) -> (number: String)
        requires
            old(self).wf(),
            old(self).input.len() < usize::MAX,
        ensures
            final(self).wf(),
            final(self).source() == old(self).source(),
            final(self).cursor() == run_end(old(self).source(), old(self).cursor(), Run::Digits),
            number@.len() == final(self).cursor() - old(self).cursor(),
            forall|i: int|
                0 <= i < number@.len() ==> #[trigger] number@[i] == old(self).source()[old(
                    self,
                ).cursor() + i],
    {
        let mut number = String::new();
        let ghost start = self.position as int;
        while Lexer::is_digit(self.ch)
            invariant
                self.wf(),
                self.input.len() < usize::MAX,
                self.input == old(self).input,
                0 <= start <= self.position,
                run_end(self.input@, start, Run::Digits) == run_end(
                    self.input@,
                    self.position as int,
                    Run::Digits,
                ),
                number@.len() == self.position - start,
                forall|i: int|
                    0 <= i < number@.len() ==> #[trigger] number@[i] == self.input@[start + i],
            decreases self.input.len() - self.position,
        {
            number.push(self.ch);
            self.read_char();
        }
        number
    }
}

} // verus!
