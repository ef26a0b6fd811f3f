//! The stream of tokens that repeated scanning yields, and how it ends.

use vstd::prelude::*;
use crate::character::{is_digit, is_letter, is_whitespace};
use crate::scan::{
    lemma_lexeme_bounds, lemma_run_end, lemma_run_end_unique, next_cursor, next_token,
    theorem_cursor_advances, theorem_end_is_terminal, theorem_end_marker,
    theorem_scan_ignores_what_precedes, token_start, Run,
};
use crate::token::{TokenKind, TokenView};

verus! {

/// The end marker: kind `EOF`, no text.
pub open spec fn end_marker() -> TokenView {
    TokenView { kind: TokenKind::EOF, literal: Seq::empty() }
}

/// Where the cursor stands after `calls` tokens have been taken, starting
/// from `pos`.
pub open spec fn cursor_after(text: Seq<char>, pos: int, calls: nat) -> int
    decreases calls,
{
    if calls == 0 {
        pos
    } else {
        next_cursor(text, cursor_after(text, pos, (calls - 1) as nat))
    }
}

/// The token that call number `n` yields, counted from zero, for a scanner
/// that starts at `pos`.
pub open spec fn nth_token(text: Seq<char>, pos: int, n: nat) -> TokenView {
    next_token(text, cursor_after(text, pos, n))
}

/// The tokens that a scanner at `pos` yields before its first end marker.
pub open spec fn tokens_until_end(text: Seq<char>, pos: int) -> Seq<TokenView>
    decreases text.len() - pos,
    via tokens_until_end_decreases
{
    if 0 <= pos && next_token(text, pos).kind != TokenKind::EOF {
        seq![next_token(text, pos)] + tokens_until_end(text, next_cursor(text, pos))
    } else {
        Seq::empty()
    }
}

#[via_fn]
proof fn tokens_until_end_decreases(text: Seq<char>, pos: int) {
    if 0 <= pos && next_token(text, pos).kind != TokenKind::EOF {
        theorem_cursor_advances(text, pos);
        theorem_end_marker(text, pos);
    }
}

/// From `pos` on the text holds nothing but NUL characters and blanks.
pub open spec fn only_nul_and_blanks_from(text: Seq<char>, pos: int) -> bool {
    forall|j: int| pos <= j < text.len() ==> #[trigger] text[j] == '\0' || is_whitespace(text[j])
}

/// Every NUL character from `pos` on is followed by nothing but NUL
/// characters and blanks. A text without NUL is of this kind.
pub open spec fn nul_only_at_end(text: Seq<char>, pos: int) -> bool {
    forall|i: int|
        pos <= i < text.len() && #[trigger] text[i] == '\0' ==> only_nul_and_blanks_from(
            text,
            i + 1,
        )
}

/// Every token moves the cursor on: after `calls` tokens it has passed at
/// least as many positions. It stands at most that many positions behind
/// the end of the text, or behind where it started.
pub proof fn theorem_cursor_moves_on(text: Seq<char>, pos: int, calls: nat)
    requires
        0 <= pos,
    ensures
        pos + calls <= cursor_after(text, pos, calls),
        cursor_after(text, pos, calls) <= text.len() + calls || cursor_after(text, pos, calls)
            <= pos + calls,
        cursor_after(text, pos, calls) < cursor_after(text, pos, calls + 1),
    decreases calls,
{
    if calls > 0 {
        theorem_cursor_moves_on(text, pos, (calls - 1) as nat);
        theorem_cursor_advances(text, cursor_after(text, pos, (calls - 1) as nat));
    }
    theorem_cursor_advances(text, cursor_after(text, pos, calls));
}

/// Scanning always comes to an end: after as many calls as characters were
/// left, the cursor is at or behind the end of the text, and that call and
/// every later one yield the end marker and move the cursor one position
/// on.
pub proof fn theorem_stream_reaches_end(text: Seq<char>, pos: int, calls: nat)
    requires
        0 <= pos,
        calls >= text.len() - pos,
    ensures
        cursor_after(text, pos, calls) >= text.len(),
        nth_token(text, pos, calls) == end_marker(),
        cursor_after(text, pos, calls + 1) == cursor_after(text, pos, calls) + 1,
{
    theorem_cursor_moves_on(text, pos, calls);
    theorem_end_is_terminal(text, cursor_after(text, pos, calls));
}

/// Where only NUL characters and blanks are left, the scanner yields the
/// end marker, and only NUL characters and blanks are left behind it.
pub proof fn lemma_end_marker_from_nul_and_blanks(text: Seq<char>, pos: int)
    requires
        0 <= pos,
        only_nul_and_blanks_from(text, pos),
    ensures
        next_token(text, pos) == end_marker(),
        only_nul_and_blanks_from(text, next_cursor(text, pos)),
{
    let start = token_start(text, pos);
    lemma_run_end(text, pos, Run::Blanks);
    theorem_cursor_advances(text, pos);
    if start < text.len() {
        assert(text[start] == '\0');
    }
}

/// Once the end marker has been yielded, every later call yields it too,
/// provided that no NUL character in the text is followed by anything but
/// NUL characters and blanks.
pub proof fn theorem_end_marker_is_final(text: Seq<char>, pos: int, first: nat, later: nat)
    requires
        0 <= pos,
        nul_only_at_end(text, pos),
        nth_token(text, pos, first).kind == TokenKind::EOF,
        first <= later,
    ensures
        nth_token(text, pos, later) == end_marker(),
        later > first ==> only_nul_and_blanks_from(text, cursor_after(text, pos, later)),
    decreases later - first,
{
    let at = cursor_after(text, pos, first);
    theorem_cursor_moves_on(text, pos, first);
    if later == first {
        theorem_end_marker(text, at);
    } else if later == first + 1 {
        let start = token_start(text, at);
        theorem_end_marker(text, at);
        theorem_cursor_advances(text, at);
        if start < text.len() {
            assert(text[start] == '\0');
            assert(only_nul_and_blanks_from(text, start + 1));
        }
        let behind = cursor_after(text, pos, later);
        assert(behind == next_cursor(text, at));
        lemma_end_marker_from_nul_and_blanks(text, behind);
    } else {
        let before = (later - 1) as nat;
        theorem_end_marker_is_final(text, pos, first, before);
        theorem_cursor_moves_on(text, pos, before);
        lemma_end_marker_from_nul_and_blanks(text, cursor_after(text, pos, before));
        theorem_cursor_moves_on(text, pos, later);
        lemma_end_marker_from_nul_and_blanks(text, cursor_after(text, pos, later));
    }
}

/// Taking one token and then `calls` more is taking `calls + 1`.
pub proof fn lemma_cursor_after_first(text: Seq<char>, pos: int, calls: nat)
    ensures
        cursor_after(text, pos, calls + 1) == cursor_after(text, next_cursor(text, pos), calls),
        nth_token(text, pos, calls + 1) == nth_token(text, next_cursor(text, pos), calls),
    decreases calls,
{
    if calls > 0 {
        lemma_cursor_after_first(text, pos, (calls - 1) as nat);
        assert(cursor_after(text, pos, calls + 1) == next_cursor(
            text,
            cursor_after(text, pos, calls),
        ));
    } else {
        assert(cursor_after(text, pos, 1) == next_cursor(text, cursor_after(text, pos, 0)));
    }
}

/// The more tokens are taken, the further the cursor stands.
pub proof fn lemma_cursor_monotone(text: Seq<char>, pos: int, fewer: nat, more: nat)
    requires
        0 <= pos,
        fewer <= more,
    ensures
        cursor_after(text, pos, fewer) <= cursor_after(text, pos, more),
    decreases more - fewer,
{
    if fewer < more {
        lemma_cursor_monotone(text, pos, fewer, (more - 1) as nat);
        theorem_cursor_moves_on(text, pos, (more - 1) as nat);
    }
}

/// The whole stream depends only on the text from the cursor on: whatever
/// stands before the cursor, every token is the same.
pub proof fn theorem_stream_ignores_what_precedes(
    head: Seq<char>,
    tail: Seq<char>,
    pos: int,
    n: nat,
)
    requires
        0 <= pos,
    ensures
        cursor_after(head + tail, head.len() + pos, n) == head.len() + cursor_after(tail, pos, n),
        nth_token(head + tail, head.len() + pos, n) == nth_token(tail, pos, n),
    decreases n,
{
    if n > 0 {
        let before = (n - 1) as nat;
        theorem_stream_ignores_what_precedes(head, tail, pos, before);
        theorem_cursor_moves_on(tail, pos, before);
        theorem_scan_ignores_what_precedes(head, tail, cursor_after(tail, pos, before));
    }
    theorem_cursor_moves_on(tail, pos, n);
    theorem_scan_ignores_what_precedes(head, tail, cursor_after(tail, pos, n));
}

/// A token that starts and ends before `bound` stays the same when the text
/// from `bound` on is replaced by one that begins with a blank, or by
/// nothing.
pub proof fn lemma_token_within_prefix(text: Seq<char>, other: Seq<char>, bound: int, pos: int)
    requires
        0 <= pos <= bound <= text.len(),
        bound <= other.len(),
        text.take(bound) == other.take(bound),
        bound < other.len() ==> is_whitespace(other[bound]),
        token_start(text, pos) < bound,
        next_cursor(text, pos) <= bound,
    ensures
        next_token(other, pos) == next_token(text, pos),
        next_cursor(other, pos) == next_cursor(text, pos),
{
    let start = token_start(text, pos);
    let end = next_cursor(text, pos);
    assert forall|i: int| 0 <= i < bound implies text[i] == other[i] by {
        assert(text[i] == text.take(bound)[i]);
        assert(other[i] == other.take(bound)[i]);
    }
    lemma_run_end(text, pos, Run::Blanks);
    lemma_run_end_unique(other, pos, Run::Blanks, start);
    lemma_lexeme_bounds(text, start);
    lemma_run_end(text, start, Run::Letters);
    lemma_run_end(text, start, Run::Digits);
    if is_letter(text[start]) {
        lemma_run_end_unique(other, start, Run::Letters, end);
    }
    if is_digit(text[start]) {
        lemma_run_end_unique(other, start, Run::Digits, end);
    }
    assert(other.subrange(start, end) =~= text.subrange(start, end));
}

/// Blanks put into the gap before the next token change no token of the
/// stream; from the first token on, the cursor stands further by their
/// number.
pub proof fn lemma_blanks_in_gap(
    head: Seq<char>,
    blanks: Seq<char>,
    tail: Seq<char>,
    pos: int,
    n: nat,
)
    requires
        forall|i: int| 0 <= i < blanks.len() ==> is_whitespace(#[trigger] blanks[i]),
        0 <= pos <= head.len() <= token_start(head + tail, pos),
    ensures
        nth_token(head + blanks + tail, pos, n) == nth_token(head + tail, pos, n),
        n > 0 ==> cursor_after(head + blanks + tail, pos, n) == blanks.len() + cursor_after(
            head + tail,
            pos,
            n,
        ),
{
    let plain = head + tail;
    let padded = head + blanks + tail;
    let b = head.len() as int;
    let w = blanks.len() as int;
    let start = token_start(plain, pos);
    let q = start - b;
    lemma_run_end(plain, pos, Run::Blanks);
    // The gap of the padded text is that of the plain one, longer by the blanks.
    assert forall|i: int| pos <= i < w + start implies is_whitespace(#[trigger] padded[i]) by {
        if i < b {
            assert(padded[i] == plain[i]);
        } else if i < b + w {
            assert(padded[i] == blanks[i - b]);
        } else {
            assert(padded[i] == plain[i - w]);
        }
    }
    if start < plain.len() {
        assert(padded[w + start] == plain[start]);
    }
    lemma_run_end_unique(padded, pos, Run::Blanks, w + start);
    // Both tokens are the one that the tail alone yields where the gap ends.
    lemma_run_end_unique(plain, start, Run::Blanks, start);
    lemma_run_end_unique(padded, w + start, Run::Blanks, w + start);
    theorem_scan_ignores_what_precedes(head, tail, q);
    theorem_scan_ignores_what_precedes(head + blanks, tail, q);
    assert(next_token(padded, pos) == next_token(plain, pos));
    assert(next_cursor(padded, pos) == w + next_cursor(plain, pos));
    if n > 0 {
        let rest = (n - 1) as nat;
        let behind = next_cursor(plain, pos) - b;
        theorem_cursor_advances(plain, pos);
        lemma_cursor_after_first(plain, pos, rest);
        lemma_cursor_after_first(padded, pos, rest);
        theorem_stream_ignores_what_precedes(head, tail, behind, rest);
        theorem_stream_ignores_what_precedes(head + blanks, tail, behind, rest);
    }
}

/// Blanks between tokens change nothing: where the scanner, after some
/// number of calls, stands at or before a place that lies in front of its
/// next token, blanks put in at that place leave every token of the stream
/// as it was, those before the place and those behind it.
pub proof fn theorem_blanks_between_tokens(
    head: Seq<char>,
    blanks: Seq<char>,
    tail: Seq<char>,
    pos: int,
    calls: nat,
    n: nat,
)
    requires
        forall|i: int| 0 <= i < blanks.len() ==> is_whitespace(#[trigger] blanks[i]),
        0 <= pos <= head.len(),
        cursor_after(head + tail, pos, calls) <= head.len() <= token_start(
            head + tail,
            cursor_after(head + tail, pos, calls),
        ),
    ensures
        nth_token(head + blanks + tail, pos, n) == nth_token(head + tail, pos, n),
    decreases calls,
{
    let plain = head + tail;
    let padded = head + blanks + tail;
    let b = head.len() as int;
    if blanks.len() == 0 {
        assert(padded =~= plain);
    } else if calls == 0 || b <= token_start(plain, pos) {
        lemma_blanks_in_gap(head, blanks, tail, pos, n);
    } else {
        let rest = (calls - 1) as nat;
        let behind = next_cursor(plain, pos);
        lemma_cursor_monotone(plain, pos, 1, calls);
        lemma_cursor_after_first(plain, pos, 0);
        assert(plain.take(b) =~= padded.take(b));
        assert(padded[b] == (head + blanks)[b]);
        lemma_token_within_prefix(plain, padded, b, pos);
        if n > 0 {
            lemma_cursor_after_first(plain, pos, rest);
            lemma_cursor_after_first(plain, pos, (n - 1) as nat);
            lemma_cursor_after_first(padded, pos, (n - 1) as nat);
            theorem_cursor_advances(plain, pos);
            theorem_blanks_between_tokens(head, blanks, tail, behind, rest, (n - 1) as nat);
        }
    }
}

} // verus!
