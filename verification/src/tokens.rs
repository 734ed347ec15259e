//! The tokens that the scanner produces.

use crate::common::{ImmutableString, Range};
use vstd::prelude::*;

verus! {

/// A token found while scanning.
///
/// The text of a string, number or comment token is the text as it stands in
/// the input: escapes are not resolved, numbers are not evaluated.
#[derive(Debug)]
pub enum Token {
    OpenBrace,
    CloseBrace,
    OpenBracket,
    CloseBracket,
    Comma,
    Colon,
    String(ImmutableString),
    Boolean(bool),
    Number(ImmutableString),
    Null,
    CommentLine(ImmutableString),
    CommentBlock(ImmutableString),
}

/// The mathematical value of a [`Token`]: the same variants, with texts as
/// sequences of characters.
pub enum TokenView {
    OpenBrace,
    CloseBrace,
    OpenBracket,
    CloseBracket,
    Comma,
    Colon,
    String(Seq<char>),
    Boolean(bool),
    Number(Seq<char>),
    Null,
    CommentLine(Seq<char>),
    CommentBlock(Seq<char>),
}

impl View for Token {
    type V = TokenView;

    open spec fn view(&self) -> TokenView {
        match self {
            Token::OpenBrace => TokenView::OpenBrace,
            Token::CloseBrace => TokenView::CloseBrace,
            Token::OpenBracket => TokenView::OpenBracket,
            Token::CloseBracket => TokenView::CloseBracket,
            Token::Comma => TokenView::Comma,
            Token::Colon => TokenView::Colon,
            Token::String(text) => TokenView::String(text@),
            Token::Boolean(value) => TokenView::Boolean(*value),
            Token::Number(text) => TokenView::Number(text@),
            Token::Null => TokenView::Null,
            Token::CommentLine(text) => TokenView::CommentLine(text@),
            Token::CommentBlock(text) => TokenView::CommentBlock(text@),
        }
    }
}

impl PartialEq for Token {
    /// Two tokens are equal if they are of the same kind and hold the same
    /// text or value.
    fn eq(&self, other: &Token) -> (equal: bool) {
        match (self, other) {
            (Token::OpenBrace, Token::OpenBrace) => true,
            (Token::CloseBrace, Token::CloseBrace) => true,
            (Token::OpenBracket, Token::OpenBracket) => true,
            (Token::CloseBracket, Token::CloseBracket) => true,
            (Token::Comma, Token::Comma) => true,
            (Token::Colon, Token::Colon) => true,
            (Token::String(a), Token::String(b)) => a == b,
            (Token::Boolean(a), Token::Boolean(b)) => a == b,
            (Token::Number(a), Token::Number(b)) => a == b,
            (Token::Null, Token::Null) => true,
            (Token::CommentLine(a), Token::CommentLine(b)) => a == b,
            (Token::CommentBlock(a), Token::CommentBlock(b)) => a == b,
            _ => false,
        }
    }
}

impl vstd::std_specs::cmp::PartialEqSpecImpl for Token {
    open spec fn obeys_eq_spec() -> bool {
        true
    }

    open spec fn eq_spec(&self, other: &Token) -> bool {
        self@ == other@
    }
}

impl Clone for Token {
    /// A token of the same value. A text is shared, not copied.
    fn clone(&self) -> (copy: Token)
        ensures
            copy@ == self@,
    {
        match self {
            Token::OpenBrace => Token::OpenBrace,
            Token::CloseBrace => Token::CloseBrace,
            Token::OpenBracket => Token::OpenBracket,
            Token::CloseBracket => Token::CloseBracket,
            Token::Comma => Token::Comma,
            Token::Colon => Token::Colon,
            Token::String(text) => Token::String(text.clone()),
            Token::Boolean(value) => Token::Boolean(*value),
            Token::Number(text) => Token::Number(text.clone()),
            Token::Null => Token::Null,
            Token::CommentLine(text) => Token::CommentLine(text.clone()),
            Token::CommentBlock(text) => Token::CommentBlock(text.clone()),
        }
    }
}

impl TokenView {
    /// The input text that this token stands for, delimiters included.
    pub open spec fn source(self) -> Seq<char> {
        match self {
            TokenView::OpenBrace => seq!['{'],
            TokenView::CloseBrace => seq!['}'],
            TokenView::OpenBracket => seq!['['],
            TokenView::CloseBracket => seq![']'],
            TokenView::Comma => seq![','],
            TokenView::Colon => seq![':'],
            TokenView::String(text) => seq!['"'] + text + seq!['"'],
            TokenView::Boolean(value) => if value {
                "true"@
            } else {
                "false"@
            },
            TokenView::Number(text) => text,
            TokenView::Null => "null"@,
            TokenView::CommentLine(text) => seq!['/', '/'] + text,
            TokenView::CommentBlock(text) => seq!['/', '*'] + text + seq!['*', '/'],
        }
    }
}

/// A token with positional information.
pub struct TokenAndRange {
    pub range: Range,
    pub token: Token,
}

} // verus!
