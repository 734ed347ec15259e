//! The character classes that the grammar defines itself.

use vstd::prelude::*;

verus! {

/// A decimal digit, `0` to `9`.
pub open spec fn is_digit(c: char) -> bool {
    '0' <= c <= '9'
}

/// A decimal digit other than zero, `1` to `9`.
pub open spec fn is_one_nine(c: char) -> bool {
    '1' <= c <= '9'
}

/// A hexadecimal digit: `0` to `9`, `a` to `f` or `A` to `F`.
pub open spec fn is_hex(c: char) -> bool {
    is_digit(c) || 'a' <= c <= 'f' || 'A' <= c <= 'F'
}

/// A character that may follow a backslash in a string to form an escape
/// of two characters.
pub open spec fn is_simple_escape(c: char) -> bool {
    c == '"' || c == '\\' || c == '/' || c == 'b' || c == 'f' || c == 'n' || c == 'r' || c == 't'
}

} // verus!
