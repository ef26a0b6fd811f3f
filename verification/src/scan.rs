//! What the scanner computes, stated over a text as a sequence of characters
//! and a cursor into it. The executable lexer is proved against these
//! definitions.

use vstd::prelude::*;
use crate::character::{is_digit, is_letter, is_whitespace};
use crate::token::{keyword_or_identifier, TokenKind, TokenView};

verus! {

/// The kinds of character runs that the scanner consumes whole.
pub enum Run {
    Blanks,
    Letters,
    Digits,
}

impl Run {
    /// Whether `c` belongs to runs of this kind.
    pub open spec fn holds(self, c: char) -> bool {
        match self {
            Run::Blanks => is_whitespace(c),
            Run::Letters => is_letter(c),
            Run::Digits => is_digit(c),
        }
    }
}

/// The character under a cursor at `pos`: the one stored there, or NUL where
/// `pos` is outside the text.
pub open spec fn char_at(text: Seq<char>, pos: int) -> char {
    if 0 <= pos < text.len() {
        text[pos]
    } else {
        '\0'
    }
}

/// Where the longest run of `run` characters that starts at `pos` ends: the
/// first position from `pos` on that holds no such character, or the end of
/// the text.
pub open spec fn run_end(text: Seq<char>, pos: int, run: Run) -> int
    decreases text.len() - pos,
{
    if 0 <= pos < text.len() && run.holds(text[pos]) {
        run_end(text, pos + 1, run)
    } else {
        pos
    }
}

/// The kind of the token that the punctuation character `c` forms by itself.
/// `=` and `!` are not listed: what they form depends on what follows them.
pub open spec fn punctuation(c: char) -> Option<TokenKind> {
    if c == ';' {
        Some(TokenKind::Semicolon)
    } else if c == '(' {
        Some(TokenKind::LeftParenthesis)
    } else if c == ')' {
        Some(TokenKind::RightParenthesis)
    } else if c == ',' {
        Some(TokenKind::Comma)
    } else if c == '+' {
        Some(TokenKind::Plus)
    } else if c == '-' {
        Some(TokenKind::Minus)
    } else if c == '*' {
        Some(TokenKind::Asterisk)
    } else if c == '/' {
        Some(TokenKind::Slash)
    } else if c == '<' {
        Some(TokenKind::LessThan)
    } else if c == '>' {
        Some(TokenKind::GreaterThan)
    } else if c == '{' {
        Some(TokenKind::LeftBrace)
    } else if c == '}' {
        Some(TokenKind::RightBrace)
    } else if c == '[' {
        Some(TokenKind::LeftBracket)
    } else if c == ']' {
        Some(TokenKind::RightBracket)
    } else {
        None
    }
}

/// Whether no token rule covers `c`: it is neither NUL, a blank, punctuation,
/// `=`, `!`, a name character nor a digit.
pub open spec fn is_unknown(c: char) -> bool {
    &&& c != '\0'
    &&& c != '='
    &&& c != '!'
    &&& punctuation(c) is None
    &&& !is_whitespace(c)
    &&& !is_letter(c)
    &&& !is_digit(c)
}

/// The kind of the token that starts at `start`.
pub open spec fn lexeme_kind(text: Seq<char>, start: int) -> TokenKind {
    let c = char_at(text, start);
    let follows = char_at(text, start + 1);
    if c == '=' {
        if follows == '=' {
            TokenKind::Equal
        } else {
            TokenKind::Assign
        }
    } else if c == '!' {
        if follows == '=' {
            TokenKind::NotEqual
        } else {
            TokenKind::Bang
        }
    } else if punctuation(c) is Some {
        punctuation(c)->0
    } else if c == '\0' {
        TokenKind::EOF
    } else if is_letter(c) {
        keyword_or_identifier(text.subrange(start, run_end(text, start, Run::Letters)))
    } else if is_digit(c) {
        TokenKind::Int
    } else {
        TokenKind::Illegal
    }
}

/// Where the cursor stands once the token that starts at `start` is consumed.
/// Every token moves the cursor on, the end marker too: it takes one
/// position, within the text and behind its end alike.
pub open spec fn lexeme_end(text: Seq<char>, start: int) -> int {
    let c = char_at(text, start);
    let follows = char_at(text, start + 1);
    if (c == '=' || c == '!') && follows == '=' {
        start + 2
    } else if is_letter(c) {
        run_end(text, start, Run::Letters)
    } else if is_digit(c) {
        run_end(text, start, Run::Digits)
    } else {
        start + 1
    }
}

/// The text of the token that starts at `start`: the characters it consumes,
/// or nothing for the end marker.
pub open spec fn lexeme_text(text: Seq<char>, start: int) -> Seq<char> {
    if char_at(text, start) == '\0' {
        Seq::empty()
    } else {
        text.subrange(start, lexeme_end(text, start))
    }
}

/// Where the next token starts for a cursor at `pos`: behind the blanks.
pub open spec fn token_start(text: Seq<char>, pos: int) -> int {
    run_end(text, pos, Run::Blanks)
}

/// The token that a scanner with its cursor at `pos` yields next.
pub open spec fn next_token(text: Seq<char>, pos: int) -> TokenView {
    let start = token_start(text, pos);
    TokenView { kind: lexeme_kind(text, start), literal: lexeme_text(text, start) }
}

/// Where the cursor stands after the scanner has yielded that token.
pub open spec fn next_cursor(text: Seq<char>, pos: int) -> int {
    lexeme_end(text, token_start(text, pos))
}

/// `run_end` is the end of the longest run: it lies at or behind `pos`, and
/// within the text unless `pos` is already behind it; every character
/// between `pos` and it belongs to the run, and the character at it, if there
/// is one, does not.
pub proof fn lemma_run_end(text: Seq<char>, pos: int, run: Run)
    requires
        0 <= pos,
    ensures
        pos <= run_end(text, pos, run),
        run_end(text, pos, run) <= text.len() || run_end(text, pos, run) == pos,
        forall|i: int| pos <= i < run_end(text, pos, run) ==> run.holds(#[trigger] text[i]),
        run_end(text, pos, run) < text.len() ==> !run.holds(text[run_end(text, pos, run)]),
    decreases text.len() - pos,
{
    if pos < text.len() && run.holds(text[pos]) {
        lemma_run_end(text, pos + 1, run);
    }
}

/// Only one position ends the longest run from `pos`: any `end` that closes
/// a run which cannot be extended is `run_end`.
pub proof fn lemma_run_end_unique(text: Seq<char>, pos: int, run: Run, end: int)
    requires
        0 <= pos <= end,
        end <= text.len() || end == pos,
        forall|i: int| pos <= i < end ==> run.holds(#[trigger] text[i]),
        end < text.len() ==> !run.holds(text[end]),
    ensures
        run_end(text, pos, run) == end,
    decreases end - pos,
{
    if pos < end {
        assert(run.holds(text[pos]));
        lemma_run_end_unique(text, pos + 1, run, end);
    }
}

/// No character is at once punctuation, a name character and a digit, nor
/// any two of these; none of them is a blank or NUL.
pub proof fn lemma_classes_disjoint(c: char)
    ensures
        is_letter(c) ==> !is_digit(c) && !is_whitespace(c) && punctuation(c) is None && c != '='
            && c != '!' && c != '\0',
        is_digit(c) ==> !is_whitespace(c) && punctuation(c) is None && c != '=' && c != '!' && c
            != '\0',
        is_whitespace(c) ==> punctuation(c) is None && c != '=' && c != '!' && c != '\0',
        punctuation(c) is Some ==> c != '=' && c != '!' && c != '\0',
{
}

/// Every token takes at least one position. One that starts within the
/// text ends within it; one that starts at or behind its end takes exactly
/// one position.
pub proof fn lemma_lexeme_bounds(text: Seq<char>, start: int)
    requires
        0 <= start,
    ensures
        start < lexeme_end(text, start),
        start < text.len() ==> lexeme_end(text, start) <= text.len(),
        start >= text.len() ==> lexeme_end(text, start) == start + 1,
{
    lemma_run_end(text, start, Run::Letters);
    lemma_run_end(text, start, Run::Digits);
}

/// Every call moves the cursor forwards. While the next token starts within
/// the text, the cursor stays within it; from then on each call moves it one
/// position behind where the token starts.
pub proof fn theorem_cursor_advances(text: Seq<char>, pos: int)
    requires
        0 <= pos,
    ensures
        pos <= token_start(text, pos) < next_cursor(text, pos),
        token_start(text, pos) <= text.len() || token_start(text, pos) == pos,
        token_start(text, pos) < text.len() ==> next_cursor(text, pos) <= text.len(),
        token_start(text, pos) >= text.len() ==> next_cursor(text, pos) == token_start(text, pos)
            + 1,
{
    lemma_run_end(text, pos, Run::Blanks);
    lemma_lexeme_bounds(text, token_start(text, pos));
}

/// A token never starts on a blank.
pub proof fn theorem_token_starts_behind_blanks(text: Seq<char>, pos: int)
    requires
        0 <= pos,
    ensures
        !is_whitespace(char_at(text, token_start(text, pos))),
        forall|i: int| pos <= i < token_start(text, pos) ==> is_whitespace(#[trigger] text[i]),
{
    lemma_run_end(text, pos, Run::Blanks);
}

/// Where only blanks are left, or nothing, the scanner yields the end
/// marker, with no text, and the cursor moves one position behind the end of
/// the text, or one position on where it stood behind the end already.
pub proof fn theorem_end_is_terminal(text: Seq<char>, pos: int)
    requires
        0 <= pos,
        forall|i: int| pos <= i < text.len() ==> is_whitespace(#[trigger] text[i]),
    ensures
        next_token(text, pos) == (TokenView { kind: TokenKind::EOF, literal: Seq::empty() }),
        pos <= text.len() ==> next_cursor(text, pos) == text.len() + 1,
        pos >= text.len() ==> next_cursor(text, pos) == pos + 1,
{
    if pos <= text.len() {
        lemma_run_end_unique(text, pos, Run::Blanks, text.len() as int);
    }
}

/// The end marker is yielded exactly where the token starts on NUL: at or
/// behind the end of the text, or at a NUL character within it. Its text is
/// empty, and no other token's is.
pub proof fn theorem_end_marker(text: Seq<char>, pos: int)
    requires
        0 <= pos,
    ensures
        next_token(text, pos).kind == TokenKind::EOF <==> char_at(text, token_start(text, pos))
            == '\0',
        next_token(text, pos).kind == TokenKind::EOF <==> next_token(text, pos).literal.len() == 0,
{
    let start = token_start(text, pos);
    theorem_cursor_advances(text, pos);
    lemma_lexeme_bounds(text, start);
    lemma_classes_disjoint(char_at(text, start));
}

/// A character that no token rule covers yields exactly one `Illegal` token
/// whose text is that character, and the cursor moves just behind it. No
/// other character yields `Illegal`.
pub proof fn theorem_unknown_character(text: Seq<char>, pos: int)
    requires
        0 <= pos,
    ensures
        is_unknown(char_at(text, token_start(text, pos))) <==> next_token(text, pos).kind
            == TokenKind::Illegal,
        is_unknown(char_at(text, token_start(text, pos))) ==> {
            &&& next_token(text, pos).literal == seq![char_at(text, token_start(text, pos))]
            &&& next_cursor(text, pos) == token_start(text, pos) + 1
            &&& token_start(text, pos) < text.len()
        },
{
    let start = token_start(text, pos);
    let c = char_at(text, start);
    theorem_token_starts_behind_blanks(text, pos);
    theorem_cursor_advances(text, pos);
    lemma_classes_disjoint(c);
    if is_unknown(c) {
        assert(text.subrange(start, start + 1) =~= seq![c]);
    }
}

/// The text of a token is the part of the source between its start and the
/// cursor behind it, except for the end marker, whose text is empty. No
/// blank occurs in it.
pub proof fn theorem_token_text(text: Seq<char>, pos: int)
    requires
        0 <= pos,
    ensures
        next_token(text, pos).kind != TokenKind::EOF ==> next_token(text, pos).literal
            == text.subrange(token_start(text, pos), next_cursor(text, pos)),
        forall|i: int|
            0 <= i < next_token(text, pos).literal.len() ==> !is_whitespace(
                #[trigger] next_token(text, pos).literal[i],
            ),
{
    let start = token_start(text, pos);
    let c = char_at(text, start);
    let literal = next_token(text, pos).literal;
    theorem_token_starts_behind_blanks(text, pos);
    theorem_cursor_advances(text, pos);
    theorem_end_marker(text, pos);
    lemma_run_end(text, start, Run::Letters);
    lemma_run_end(text, start, Run::Digits);
    assert forall|i: int| 0 <= i < literal.len() implies !is_whitespace(#[trigger] literal[i]) by {
        let d = text[start + i];
        assert(literal[i] == d);
        lemma_classes_disjoint(d);
        lemma_classes_disjoint(c);
    }
}

/// A run depends only on the text from its start on: with `head` put in
/// front of the text, it ends at the same character.
pub proof fn lemma_run_end_shift(head: Seq<char>, tail: Seq<char>, pos: int, run: Run)
    requires
        0 <= pos,
    ensures
        run_end(head + tail, head.len() + pos, run) == head.len() + run_end(tail, pos, run),
{
    let text = head + tail;
    let end = run_end(tail, pos, run);
    lemma_run_end(tail, pos, run);
    assert forall|i: int| head.len() + pos <= i < head.len() + end implies run.holds(
        #[trigger] text[i],
    ) by {
        assert(text[i] == tail[i - head.len()]);
    }
    if end < tail.len() {
        assert(text[head.len() + end] == tail[end]);
    }
    lemma_run_end_unique(text, head.len() + pos, run, head.len() + end);
}

/// The scanner looks only at the text from the cursor on: whatever stands
/// before the cursor, the next token is the same and ends at the same
/// character.
pub proof fn theorem_scan_ignores_what_precedes(head: Seq<char>, tail: Seq<char>, pos: int)
    requires
        0 <= pos,
    ensures
        next_token(head + tail, head.len() + pos) == next_token(tail, pos),
        next_cursor(head + tail, head.len() + pos) == head.len() + next_cursor(tail, pos),
{
    let text = head + tail;
    let n = head.len() as int;
    let start = token_start(tail, pos);
    lemma_run_end(tail, pos, Run::Blanks);
    lemma_run_end_shift(head, tail, pos, Run::Blanks);
    lemma_run_end_shift(head, tail, start, Run::Letters);
    lemma_run_end_shift(head, tail, start, Run::Digits);
    lemma_lexeme_bounds(tail, start);
    assert(char_at(text, n + start) == char_at(tail, start));
    assert(char_at(text, n + start + 1) == char_at(tail, start + 1));
    assert(lexeme_end(text, n + start) == n + lexeme_end(tail, start));
    if start < tail.len() {
        let letters = run_end(tail, start, Run::Letters);
        lemma_run_end(tail, start, Run::Letters);
        assert(text.subrange(n + start, n + letters) =~= tail.subrange(start, letters));
        assert(text.subrange(n + start, n + lexeme_end(tail, start)) =~= tail.subrange(
            start,
            lexeme_end(tail, start),
        ));
    }
}

/// Blanks before a token never change it: with any blanks put in at the
/// cursor, the scanner yields the same token, and its cursor ends up behind
/// the same character.
pub proof fn theorem_blanks_before_token(head: Seq<char>, blanks: Seq<char>, tail: Seq<char>)
    requires
        forall|i: int| 0 <= i < blanks.len() ==> is_whitespace(#[trigger] blanks[i]),
    ensures
        next_token(head + blanks + tail, head.len() as int) == next_token(
            head + tail,
            head.len() as int,
        ),
        next_cursor(head + blanks + tail, head.len() as int) == blanks.len() + next_cursor(
            head + tail,
            head.len() as int,
        ),
{
    let padded = blanks + tail;
    let start = token_start(tail, 0);
    lemma_run_end(tail, 0, Run::Blanks);
    assert forall|i: int| 0 <= i < blanks.len() + start implies is_whitespace(
        #[trigger] padded[i],
    ) by {
        if i >= blanks.len() {
            assert(padded[i] == tail[i - blanks.len()]);
        }
    }
    if start < tail.len() {
        assert(padded[blanks.len() + start] == tail[start]);
    }
    lemma_run_end_unique(padded, 0, Run::Blanks, blanks.len() + start);
    // Both the padded and the plain tail are scanned as the bare tail is.
    theorem_scan_ignores_what_precedes(blanks, tail, start);
    lemma_run_end_unique(tail, start, Run::Blanks, start);
    assert(next_token(padded, 0) == next_token(tail, 0));
    assert(next_cursor(padded, 0) == blanks.len() + next_cursor(tail, 0));
    theorem_scan_ignores_what_precedes(head, padded, 0);
    theorem_scan_ignores_what_precedes(head, tail, 0);
    assert(head + blanks + tail =~= head + padded);
}

} // verus!
