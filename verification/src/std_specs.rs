//! What this library takes on trust from the standard library.
//!
//! Everything else in the crate is proved. The contracts here are believed:
//! they say of a few functions of `std` what their documentation says.
//! White space and alphanumeric characters are whatever `char` says they
//! are, so those two classes are only named, not defined.

use std::rc::Rc;
use vstd::prelude::*;

verus! {

/// The answer of `char::is_whitespace` for `c`: whether `c` has the Unicode
/// property `White_Space`.
pub uninterp spec fn unicode_whitespace(c: char) -> bool;

/// The answer of `char::is_alphanumeric` for `c`: whether `c` is alphabetic
/// or numeric in the sense of the Unicode character database.
pub uninterp spec fn unicode_alphanumeric(c: char) -> bool;

/// Trusted: `char::is_whitespace` depends on its argument alone, so its
/// result is `unicode_whitespace` of that argument. Nothing is claimed about
/// which characters are white space.
pub assume_specification[ char::is_whitespace ](c: char) -> (r: bool)
    ensures
        r == unicode_whitespace(c),
;

/// Trusted: `char::is_alphanumeric` depends on its argument alone, so its
/// result is `unicode_alphanumeric` of that argument. Nothing is claimed
/// about which characters are alphanumeric.
pub assume_specification[ char::is_alphanumeric ](c: char) -> (r: bool)
    ensures
        r == unicode_alphanumeric(c),
;

/// Trusted: `String::push` appends the given character to the end of the
/// string and changes nothing else.
pub assume_specification[ std::string::String::push ](s: &mut std::string::String, c: char)
    ensures
        final(s)@ == old(s)@.push(c),
;

/// Trusted: `Rc::clone` hands out another pointer to the same allocation,
/// so what the result points to is what `text` points to.
#[verifier::external_body]
pub(crate) fn share(text: &Rc<std::string::String>) -> (shared: Rc<std::string::String>)
    ensures
        shared == *text,
{
    Rc::clone(text)
}

} // verus!
