//! Text as sequences of characters: what the scanner needs from strings.

use vstd::prelude::*;

verus! {

/// `String::push` of the standard library: appends one character at the end.
pub assume_specification[ String::push ](s: &mut String, c: char)
    ensures
        final(s)@ == old(s)@.push(c),
;

/// Equality of string slices in the standard library: two slices are equal
/// exactly when they hold the same characters in the same order.
pub assume_specification[ <str as PartialEq>::eq ](a: &str, b: &str) -> (r: bool)
    ensures
        r == (a@ == b@),
;

/// The characters of `input`, in order.
pub fn chars_of(input: &str) -> (chars: Vec<char>)
    ensures
        chars@ == input@,
{
    let mut chars: Vec<char> = Vec::new();
    for c in iter: input.chars()
        invariant
            chars@ == iter.history(),
            iter.seq() == input@,
    {
        chars.push(c);
    }
    chars
}

/// The one-character string that holds `c`.
pub fn string_of_char(c: char) -> (s: String)
    ensures
        s@ == seq![c],
{
    let mut s = String::new();
    s.push(c);
    s
}

} // verus!
