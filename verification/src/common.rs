//! Small value types shared by the scanner and its tokens.

use crate::std_specs::share;
use std::rc::Rc;
use vstd::prelude::*;

verus! {

/// A string that cannot be changed.
///
/// The text sits behind a reference count, so a clone shares it instead of
/// copying it. Its view is the sequence of its characters.
#[derive(Debug)]
pub struct ImmutableString {
    inner: Rc<String>,
}

impl View for ImmutableString {
    type V = Seq<char>;

    closed spec fn view(&self) -> Seq<char> {
        self.inner@
    }
}

impl ImmutableString {
    /// The text as a string slice.
    pub fn as_ref(&self) -> (text: &str)
        ensures
            text@ == self@,
    {
        self.inner.as_str()
    }

    /// Wraps an owned string.
    pub fn new(text: String) -> (s: ImmutableString)
        ensures
            s@ == text@,
    {
        ImmutableString { inner: Rc::new(text) }
    }

    /// Copies a string slice.
    pub fn from(text: &str) -> (s: ImmutableString)
        ensures
            s@ == text@,
    {
        ImmutableString { inner: Rc::new(text.to_owned()) }
    }
}

impl Clone for ImmutableString {
    /// Another handle on the same text. The text itself is not copied.
    fn clone(&self) -> (copy: ImmutableString)
        ensures
            copy@ == self@,
    {
        ImmutableString { inner: share(&self.inner) }
    }
}

impl PartialEq for ImmutableString {
    /// Two immutable strings are equal if they hold the same text, whether
    /// or not they share it.
    fn eq(&self, other: &ImmutableString) -> (equal: bool) {
        *self.inner == *other.inner
    }
}

impl vstd::std_specs::cmp::PartialEqSpecImpl for ImmutableString {
    open spec fn obeys_eq_spec() -> bool {
        true
    }

    open spec fn eq_spec(&self, other: &ImmutableString) -> bool {
        self@ == other@
    }
}

/// Positional information about a start and end point in the text.
#[derive(Debug, PartialEq, Eq, Structural)]
pub struct Range {
    /// Start position of the node in the text.
    pub start: usize,
    /// End position of the node in the text.
    pub end: usize,
    /// Line of the start position of the node in the text.
    pub start_line: usize,
    /// Line of the end position of the node in the text.
    pub end_line: usize,
}

impl Clone for Range {
    /// A range with the same positions and lines.
    fn clone(&self) -> (copy: Range)
        ensures
            copy == *self,
    {
        Range {
            start: self.start,
            end: self.end,
            start_line: self.start_line,
            end_line: self.end_line,
        }
    }
}

} // verus!
