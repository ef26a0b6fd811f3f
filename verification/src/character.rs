//! Character classes of the language: blanks, digits and name characters.

use vstd::prelude::*;

verus! {

/// What `char::is_alphabetic` answers for `c`: whether Unicode classes the
/// character as alphabetic. The scanner consults it above U+007F only.
pub uninterp spec fn alphabetic(c: char) -> bool;

/// `char::is_alphabetic` of the standard library. Nothing is claimed of its
/// result but that it depends on the character alone.
pub assume_specification[ char::is_alphabetic ](c: char) -> (b: bool)
    ensures
        b == alphabetic(c),
;

/// A blank: space, tab, line feed or carriage return. Form feed and vertical
/// tab are not blanks.
pub open spec fn is_whitespace(c: char) -> bool {
    c == ' ' || c == '\t' || c == '\n' || c == '\r'
}

/// A decimal digit, `0` to `9`.
pub open spec fn is_digit(c: char) -> bool {
    '0' <= c <= '9'
}

/// A name character: an ASCII letter, the underscore, or a character beyond
/// ASCII that is alphabetic. Digits are not name characters.
pub open spec fn is_letter(c: char) -> bool {
    ||| 'a' <= c <= 'z'
    ||| 'A' <= c <= 'Z'
    ||| c == '_'
    ||| (c > '\x7f' && alphabetic(c))
}

/// Decides whether `ch` is a name character, given whether Unicode classes
/// it as alphabetic. The flag matters for characters beyond ASCII only.
pub fn is_letter_given(ch: char, in_alphabet: bool) -> (b: bool)
    ensures
        b == (('a' <= ch <= 'z') || ('A' <= ch <= 'Z') || ch == '_' || (ch > '\x7f'
            && in_alphabet)),
{
    (ch >= 'a' && ch <= 'z') || (ch >= 'A' && ch <= 'Z') || ch == '_' || (ch > '\x7f'
        && in_alphabet)
}

} // verus!
