//! The grammar of the scanner, as spec functions over the characters of the
//! input.
//!
//! Every rule takes the whole input and the position at which a token
//! starts, and says where the token ends and what it is, or where and why
//! the input is malformed. [`scan`] puts the rules together: it is what one
//! call of `Scanner::move_next` computes.

use crate::char_class::{is_digit, is_hex, is_simple_escape};
use crate::laws::lemma_scan_step;
use crate::std_specs::{unicode_alphanumeric, unicode_whitespace};
use crate::tokens::TokenView;
use vstd::prelude::*;

verus! {

/// The current character starts no token.
pub const UNEXPECTED_TOKEN: &'static str = "Unexpected token.";

/// The input ended inside a string.
pub const UNTERMINATED_STRING: &'static str = "Unterminated string literal";

/// A backslash in a string is followed by a character that is no escape code.
pub const INVALID_ESCAPE: &'static str = "Invalid escape.";

/// `\u` in a string is not followed by four hexadecimal digits.
pub const EXPECTED_HEX_DIGITS: &'static str = "Expected four hex digits.";

/// The input ended inside a block comment.
pub const UNTERMINATED_COMMENT_BLOCK: &'static str = "Unterminated comment block.";

/// A number does not start with a digit, with or without a sign before it.
pub const EXPECTED_DIGIT_AFTER_SIGN: &'static str = "Expected a digit to follow a negative sign.";

/// A decimal point or an exponent sign is not followed by a digit.
pub const EXPECTED_DIGIT: &'static str = "Expected a digit.";

/// An exponent marker is not followed by `+` or `-`.
pub const EXPECTED_EXPONENT_SIGN: &'static str =
    "Expected plus or minus symbol in number literal.";

/// A token together with the position just behind its text.
pub struct Lexeme {
    pub token: TokenView,
    pub end: int,
}

/// The mathematical value of a `TokenError`: a position in the input and a
/// message.
pub struct TokenErrorView {
    pub pos: int,
    pub message: Seq<char>,
}

/// The error with the given position and message.
pub open spec fn error_at(pos: int, message: &str) -> TokenErrorView {
    TokenErrorView { pos, message: message@ }
}

/// The character at position `i`, if the input reaches that far.
pub open spec fn char_at(chars: Seq<char>, i: int) -> Option<char> {
    if 0 <= i < chars.len() {
        Some(chars[i])
    } else {
        None
    }
}

/// Whether a decimal digit stands at position `i`.
pub open spec fn digit_at(chars: Seq<char>, i: int) -> bool {
    0 <= i < chars.len() && is_digit(chars[i])
}

/// The number of `\n` characters in `text`.
pub open spec fn count_newlines(text: Seq<char>) -> nat
    decreases text.len(),
{
    if text.len() == 0 {
        0
    } else {
        count_newlines(text.drop_last()) + if text.last() == '\n' {
            1nat
        } else {
            0nat
        }
    }
}

/// The line of position `pos`: the number of `\n` characters before it.
pub open spec fn line_of(chars: Seq<char>, pos: int) -> nat {
    count_newlines(chars.take(pos))
}

/// The first position at or after `pos` that holds no white space, or the
/// end of the input.
pub open spec fn whitespace_end(chars: Seq<char>, pos: int) -> int
    decreases chars.len() - pos,
{
    if 0 <= pos < chars.len() && unicode_whitespace(chars[pos]) {
        whitespace_end(chars, pos + 1)
    } else {
        pos
    }
}

/// The first position at or after `i` that holds no decimal digit, or the
/// end of the input.
pub open spec fn digits_end(chars: Seq<char>, i: int) -> int
    decreases chars.len() - i,
{
    if digit_at(chars, i) {
        digits_end(chars, i + 1)
    } else {
        i
    }
}

/// Where the fraction of a number ends whose integer part ends at `i`:
/// at `i` if no decimal point stands there, else behind the digits that
/// must follow the point.
pub open spec fn fraction_end(chars: Seq<char>, i: int) -> Result<int, TokenErrorView> {
    if char_at(chars, i) != Some('.') {
        Ok(i)
    } else if !digit_at(chars, i + 1) {
        Err(error_at(i + 1, EXPECTED_DIGIT))
    } else {
        Ok(digits_end(chars, i + 1))
    }
}

/// Where the exponent of a number ends whose fraction ends at `i`: at `i`
/// if neither `e` nor `E` stands there, else behind the digits that must
/// follow the marker and its sign. The sign is not optional.
pub open spec fn exponent_end(chars: Seq<char>, i: int) -> Result<int, TokenErrorView> {
    if char_at(chars, i) != Some('e') && char_at(chars, i) != Some('E') {
        Ok(i)
    } else if char_at(chars, i + 1) != Some('+') && char_at(chars, i + 1) != Some('-') {
        Err(error_at(i + 1, EXPECTED_EXPONENT_SIGN))
    } else if !digit_at(chars, i + 2) {
        Err(error_at(i + 2, EXPECTED_DIGIT))
    } else {
        Ok(digits_end(chars, i + 2))
    }
}

/// Where the integer part of a number starts that starts at `start`: behind
/// the minus sign, if there is one.
pub open spec fn integer_start(chars: Seq<char>, start: int) -> int {
    if char_at(chars, start) == Some('-') {
        start + 1
    } else {
        start
    }
}

/// Where the integer part ends that starts at `i` with a digit: a zero
/// stands alone, any other digit may be followed by more digits.
pub open spec fn integer_end(chars: Seq<char>, i: int) -> int {
    if char_at(chars, i) == Some('0') {
        i + 1
    } else {
        digits_end(chars, i)
    }
}

/// Where the mantissa of the number at `start` ends: its sign, its integer
/// part and its fraction. The integer part is taken to start with a digit.
pub open spec fn mantissa_end(chars: Seq<char>, start: int) -> Result<int, TokenErrorView> {
    fraction_end(chars, integer_end(chars, integer_start(chars, start)))
}

/// The number rule:
///
/// ```text
/// number := '-'? int frac? exp?
/// int    := '0' | [1-9] digit*
/// frac   := '.' digit+
/// exp    := ('e'|'E') ('+'|'-') digit+
/// ```
///
/// The token holds the text of the number as it stands in the input. An
/// error points at the position where a digit or a sign is missing.
pub open spec fn scan_number(chars: Seq<char>, start: int) -> Result<Lexeme, TokenErrorView> {
    let first = integer_start(chars, start);
    if !digit_at(chars, first) {
        Err(error_at(first, EXPECTED_DIGIT_AFTER_SIGN))
    } else {
        match mantissa_end(chars, start) {
            Err(e) => Err(e),
            Ok(mantissa_end) => match exponent_end(chars, mantissa_end) {
                Err(e) => Err(e),
                Ok(end) => Ok(
                    Lexeme { token: TokenView::Number(chars.subrange(start, end)), end },
                ),
            },
        }
    }
}

/// Whether four hexadecimal digits stand at positions `i` to `i + 3`.
pub open spec fn four_hex_at(chars: Seq<char>, i: int) -> bool {
    &&& 0 <= i
    &&& i + 4 <= chars.len()
    &&& is_hex(chars[i])
    &&& is_hex(chars[i + 1])
    &&& is_hex(chars[i + 2])
    &&& is_hex(chars[i + 3])
}

/// The position of the quote that closes the string opened at `start`,
/// looked for from position `i` on, where `i` is no second half of an
/// escape.
///
/// A backslash takes the next character with it: one of the escape codes,
/// or `u` and four hexadecimal digits. A missing closing quote and an
/// unknown escape code are reported at `start`, a malformed `\u` escape at
/// its `u`.
pub open spec fn string_close(chars: Seq<char>, start: int, i: int) -> Result<int, TokenErrorView>
    decreases chars.len() - i,
{
    if i < 0 || i >= chars.len() {
        Err(error_at(start, UNTERMINATED_STRING))
    } else if chars[i] == '"' {
        Ok(i)
    } else if chars[i] != '\\' {
        string_close(chars, start, i + 1)
    } else if i + 1 >= chars.len() {
        Err(error_at(start, UNTERMINATED_STRING))
    } else if is_simple_escape(chars[i + 1]) {
        string_close(chars, start, i + 2)
    } else if chars[i + 1] != 'u' {
        Err(error_at(start, INVALID_ESCAPE))
    } else if four_hex_at(chars, i + 2) {
        string_close(chars, start, i + 6)
    } else {
        Err(error_at(i + 1, EXPECTED_HEX_DIGITS))
    }
}

/// The string rule, for a string whose opening quote stands at `start`. The
/// token holds the text between the quotes as it stands in the input, with
/// its escapes unresolved.
pub open spec fn scan_string(chars: Seq<char>, start: int) -> Result<Lexeme, TokenErrorView> {
    match string_close(chars, start, start + 1) {
        Ok(close) => Ok(
            Lexeme { token: TokenView::String(chars.subrange(start + 1, close)), end: close + 1 },
        ),
        Err(e) => Err(e),
    }
}

/// Whether a line terminator starts at position `i`: `\n`, or `\r` with
/// `\n` right behind it.
pub open spec fn line_terminator_at(chars: Seq<char>, i: int) -> bool {
    char_at(chars, i) == Some('\n') || (char_at(chars, i) == Some('\r') && char_at(chars, i + 1)
        == Some('\n'))
}

/// The first position at or after `i` where a line terminator starts, or
/// the end of the input.
pub open spec fn line_end(chars: Seq<char>, i: int) -> int
    decreases chars.len() - i,
{
    if 0 <= i < chars.len() && !line_terminator_at(chars, i) {
        line_end(chars, i + 1)
    } else {
        i
    }
}

/// The line comment rule, for a comment whose `//` stands at `start`. The
/// token holds the text behind `//` up to the line terminator, which is not
/// part of the token. This rule cannot fail.
pub open spec fn scan_comment_line(chars: Seq<char>, start: int) -> Lexeme {
    let end = line_end(chars, start + 2);
    Lexeme { token: TokenView::CommentLine(chars.subrange(start + 2, end)), end }
}

/// Whether `*/` stands at position `i`.
pub open spec fn block_end_at(chars: Seq<char>, i: int) -> bool {
    char_at(chars, i) == Some('*') && char_at(chars, i + 1) == Some('/')
}

/// The first position at or after `i` where `*/` stands, if there is one.
pub open spec fn block_close(chars: Seq<char>, i: int) -> Option<int>
    decreases chars.len() - i,
{
    if i < 0 || i >= chars.len() {
        None
    } else if block_end_at(chars, i) {
        Some(i)
    } else {
        block_close(chars, i + 1)
    }
}

/// The block comment rule, for a comment whose `/*` stands at `start`. The
/// token holds the text between `/*` and the first `*/` behind it. A missing
/// `*/` is reported at `start`.
pub open spec fn scan_comment_block(chars: Seq<char>, start: int) -> Result<
    Lexeme,
    TokenErrorView,
> {
    match block_close(chars, start + 2) {
        Some(close) => Ok(
            Lexeme {
                token: TokenView::CommentBlock(chars.subrange(start + 2, close)),
                end: close + 2,
            },
        ),
        None => Err(error_at(start, UNTERMINATED_COMMENT_BLOCK)),
    }
}

/// Whether the characters of `word` stand at position `pos`.
pub open spec fn starts_with_at(chars: Seq<char>, pos: int, word: Seq<char>) -> bool {
    &&& 0 <= pos
    &&& pos + word.len() <= chars.len()
    &&& chars.subrange(pos, pos + word.len()) == word
}

/// Whether the character at position `i` would continue a word that ends
/// just before it: whether there is one and it is alphanumeric.
pub open spec fn continues_word(chars: Seq<char>, i: int) -> bool {
    0 <= i < chars.len() && unicode_alphanumeric(chars[i])
}

/// Whether `word` stands at position `pos` as a whole word: its characters
/// stand there and what follows does not continue it.
pub open spec fn word_at(chars: Seq<char>, pos: int, word: Seq<char>) -> bool {
    starts_with_at(chars, pos, word) && !continues_word(chars, pos + word.len())
}

/// The token of one character that starts at `start`.
pub open spec fn single(token: TokenView, start: int) -> Result<Lexeme, TokenErrorView> {
    Ok(Lexeme { token, end: start + 1 })
}

/// The token that stands for `word`, which starts at `start`.
pub open spec fn keyword(token: TokenView, start: int, word: &str) -> Result<
    Lexeme,
    TokenErrorView,
> {
    Ok(Lexeme { token, end: start + word@.len() })
}

/// The rule for a token that starts at `start`, chosen by the character
/// there. The first case that fits decides.
pub open spec fn token_at(chars: Seq<char>, start: int) -> Result<Lexeme, TokenErrorView>
    recommends
        0 <= start < chars.len(),
{
    let c = chars[start];
    if c == '{' {
        single(TokenView::OpenBrace, start)
    } else if c == '}' {
        single(TokenView::CloseBrace, start)
    } else if c == '[' {
        single(TokenView::OpenBracket, start)
    } else if c == ']' {
        single(TokenView::CloseBracket, start)
    } else if c == ',' {
        single(TokenView::Comma, start)
    } else if c == ':' {
        single(TokenView::Colon, start)
    } else if c == '"' {
        scan_string(chars, start)
    } else if c == '/' {
        if char_at(chars, start + 1) == Some('/') {
            Ok(scan_comment_line(chars, start))
        } else if char_at(chars, start + 1) == Some('*') {
            scan_comment_block(chars, start)
        } else {
            Err(error_at(start, UNEXPECTED_TOKEN))
        }
    } else if c == '-' || is_digit(c) {
        scan_number(chars, start)
    } else if word_at(chars, start, "true"@) {
        keyword(TokenView::Boolean(true), start, "true")
    } else if word_at(chars, start, "false"@) {
        keyword(TokenView::Boolean(false), start, "false")
    } else if word_at(chars, start, "null"@) {
        keyword(TokenView::Null, start, "null")
    } else {
        Err(error_at(start, UNEXPECTED_TOKEN))
    }
}

/// What stands at `start`, a position that holds no white space: nothing
/// if the input ends there, else the token that starts there.
pub open spec fn scan_token(chars: Seq<char>, start: int) -> Result<
    Option<Lexeme>,
    TokenErrorView,
> {
    if start >= chars.len() {
        Ok(None)
    } else {
        match token_at(chars, start) {
            Ok(lexeme) => Ok(Some(lexeme)),
            Err(e) => Err(e),
        }
    }
}

/// One step of the scanner from position `pos`: white space is skipped,
/// then comes the end of the input, a token or an error.
pub open spec fn scan(chars: Seq<char>, pos: int) -> Result<Option<Lexeme>, TokenErrorView> {
    scan_token(chars, whitespace_end(chars, pos))
}

/// All the tokens from `pos` to the end of the input, in the order in which
/// the scanner gives them, or the first error on the way.
pub open spec fn scan_all(chars: Seq<char>, pos: int) -> Result<Seq<TokenView>, TokenErrorView>
    decreases chars.len() - pos,
    when 0 <= pos <= chars.len()
    via scan_all_decreases
{
    match scan(chars, pos) {
        Err(e) => Err(e),
        Ok(None) => Ok(Seq::empty()),
        Ok(Some(lexeme)) => match scan_all(chars, lexeme.end) {
            Err(e) => Err(e),
            Ok(rest) => Ok(seq![lexeme.token] + rest),
        },
    }
}

/// `scan_all` comes to an end, because every step that gives a token moves
/// forward.
#[via_fn]
proof fn scan_all_decreases(chars: Seq<char>, pos: int) {
    lemma_scan_step(chars, pos);
}

/// What the scanner has seen of the input from `pos` on, put together
/// again: for each step the white space that it skips and the source text
/// of the token that it gives, up to the end of the input or the first
/// error.
pub open spec fn scanned_text(chars: Seq<char>, pos: int) -> Seq<char>
    decreases chars.len() - pos,
    when 0 <= pos <= chars.len()
    via scanned_text_decreases
{
    let skipped = chars.subrange(pos, whitespace_end(chars, pos));
    match scan(chars, pos) {
        Ok(Some(lexeme)) => skipped + lexeme.token.source() + scanned_text(chars, lexeme.end),
        _ => skipped,
    }
}

/// `scanned_text` comes to an end for the same reason.
#[via_fn]
proof fn scanned_text_decreases(chars: Seq<char>, pos: int) {
    lemma_scan_step(chars, pos);
}

} // verus!
