//! Facts about the grammar that hold of every input.
//!
//! The first part is about lines and about the runs that the rules are made
//! of: white space, digits, the rest of a line, the inside of a comment or
//! a string. The second part states what a user of the scanner may rely
//! on: that every token covers exactly its own source text, that a whole
//! input is accounted for character by character, and where the rules draw
//! their lines.

use crate::char_class::{is_digit, is_simple_escape};
use crate::grammar::{
    block_close, block_end_at, char_at, continues_word, digit_at, digits_end, error_at,
    four_hex_at, fraction_end, integer_end, integer_start, line_end, line_of, line_terminator_at,
    mantissa_end, scan, scan_all, scan_number, scan_string, scanned_text, starts_with_at,
    string_close, token_at, whitespace_end, Lexeme, TokenErrorView, EXPECTED_DIGIT,
    EXPECTED_EXPONENT_SIGN, EXPECTED_HEX_DIGITS, INVALID_ESCAPE, UNEXPECTED_TOKEN,
    UNTERMINATED_COMMENT_BLOCK, UNTERMINATED_STRING,
};
use crate::std_specs::unicode_whitespace;
use crate::tokens::TokenView;
use vstd::prelude::*;

verus! {

/// Moving over one character adds one to the line if that character is
/// `\n`, and nothing otherwise.
pub proof fn lemma_line_of_step(chars: Seq<char>, pos: int)
    requires
        0 <= pos < chars.len(),
    ensures
        line_of(chars, pos + 1) == line_of(chars, pos) + if chars[pos] == '\n' {
            1nat
        } else {
            0nat
        },
{
    assert(chars.take(pos + 1).drop_last() =~= chars.take(pos));
}

/// A position has at most as many `\n` characters before it as it has
/// characters before it.
pub proof fn lemma_line_of_bound(chars: Seq<char>, pos: int)
    requires
        0 <= pos <= chars.len(),
    ensures
        line_of(chars, pos) <= pos,
    decreases pos,
{
    if pos > 0 {
        lemma_line_of_bound(chars, pos - 1);
        lemma_line_of_step(chars, pos - 1);
    }
}

/// A later position is on the same line or on a later one.
pub proof fn lemma_line_of_monotonic(chars: Seq<char>, from: int, to: int)
    requires
        0 <= from <= to <= chars.len(),
    ensures
        line_of(chars, from) <= line_of(chars, to),
    decreases to - from,
{
    if from < to {
        lemma_line_of_monotonic(chars, from, to - 1);
        lemma_line_of_step(chars, to - 1);
    }
}

/// White space is skipped up to the first character that is none: nothing
/// but white space lies between a position and its `whitespace_end`, and
/// what stands there is no white space.
pub proof fn lemma_whitespace_end(chars: Seq<char>, pos: int)
    requires
        0 <= pos <= chars.len(),
    ensures
        pos <= whitespace_end(chars, pos) <= chars.len(),
        forall|j: int| pos <= j < whitespace_end(chars, pos) ==> unicode_whitespace(chars[j]),
        whitespace_end(chars, pos) < chars.len() ==> !unicode_whitespace(
            chars[whitespace_end(chars, pos)],
        ),
    decreases chars.len() - pos,
{
    if pos < chars.len() && unicode_whitespace(chars[pos]) {
        lemma_whitespace_end(chars, pos + 1);
    }
}

/// A run of digits ends in the input, behind nothing but digits and before
/// a character that is none.
pub proof fn lemma_digits_end(chars: Seq<char>, i: int)
    requires
        0 <= i <= chars.len(),
    ensures
        i <= digits_end(chars, i) <= chars.len(),
        forall|j: int| i <= j < digits_end(chars, i) ==> digit_at(chars, j),
        !digit_at(chars, digits_end(chars, i)),
    decreases chars.len() - i,
{
    if digit_at(chars, i) {
        lemma_digits_end(chars, i + 1);
    }
}

/// The text of a line comment ends at the first line terminator, or at the
/// end of the input if there is none.
pub proof fn lemma_line_end(chars: Seq<char>, i: int)
    requires
        0 <= i <= chars.len(),
    ensures
        i <= line_end(chars, i) <= chars.len(),
        forall|j: int| i <= j < line_end(chars, i) ==> !line_terminator_at(chars, j),
        line_end(chars, i) < chars.len() ==> line_terminator_at(chars, line_end(chars, i)),
    decreases chars.len() - i,
{
    if i < chars.len() && !line_terminator_at(chars, i) {
        lemma_line_end(chars, i + 1);
    }
}

/// A block comment closes at the first `*/` at or behind `i`, and does not
/// close if there is none.
pub proof fn lemma_block_close(chars: Seq<char>, i: int)
    requires
        0 <= i,
    ensures
        match block_close(chars, i) {
            Some(close) => {
                &&& i <= close
                &&& close + 2 <= chars.len()
                &&& block_end_at(chars, close)
                &&& forall|j: int| i <= j < close ==> !block_end_at(chars, j)
            },
            None => forall|j: int| i <= j ==> !block_end_at(chars, j),
        },
    decreases chars.len() - i,
{
    if i < chars.len() && !block_end_at(chars, i) {
        lemma_block_close(chars, i + 1);
    }
}

/// Where a string closes, a quote stands. Where it does not close, the
/// error is one of three: the input ended or an escape code is unknown,
/// both reported at the opening quote, or a `\u` is malformed, reported at
/// its `u`.
pub proof fn lemma_string_close(chars: Seq<char>, start: int, i: int)
    requires
        0 <= start < i,
    ensures
        match string_close(chars, start, i) {
            Ok(close) => i <= close < chars.len() && chars[close] == '"',
            Err(e) => e == error_at(start, UNTERMINATED_STRING) || e == error_at(
                start,
                INVALID_ESCAPE,
            ) || (e == error_at(e.pos, EXPECTED_HEX_DIGITS) && i < e.pos < chars.len()
                && chars[e.pos - 1] == '\\' && chars[e.pos] == 'u'),
        },
    decreases chars.len() - i,
{
    if i < chars.len() && chars[i] != '"' {
        if chars[i] != '\\' {
            lemma_string_close(chars, start, i + 1);
        } else if i + 1 < chars.len() {
            if is_simple_escape(chars[i + 1]) {
                lemma_string_close(chars, start, i + 2);
            } else if four_hex_at(chars, i + 2) {
                lemma_string_close(chars, start, i + 6);
            }
        }
    }
}

/// A number covers its own source text: where the number rule gives a
/// token, the token ends in the input, behind at least one character, and
/// its text is the input from the start of the number to its end. An error
/// points into the input or at its end, not before the number.
pub proof fn lemma_number_span(chars: Seq<char>, start: int)
    requires
        0 <= start < chars.len(),
    ensures
        match scan_number(chars, start) {
            Ok(lexeme) => start < lexeme.end <= chars.len() && lexeme.token == TokenView::Number(
                chars.subrange(start, lexeme.end),
            ),
            Err(e) => start <= e.pos <= chars.len(),
        },
{
    let first = integer_start(chars, start);
    if digit_at(chars, first) {
        lemma_digits_end(chars, first);
        let int_end = integer_end(chars, first);
        if digit_at(chars, int_end + 1) {
            lemma_digits_end(chars, int_end + 1);
        }
        if let Ok(m) = fraction_end(chars, int_end) {
            if digit_at(chars, m + 2) {
                lemma_digits_end(chars, m + 2);
            }
        }
    }
}

/// A string keeps its text as it is written: where the string rule gives a
/// token, the token ends behind a closing quote, and its text is what
/// stands between the two quotes, character for character. No escape is
/// resolved.
pub proof fn lemma_string_span(chars: Seq<char>, start: int)
    requires
        0 <= start < chars.len(),
    ensures
        match scan_string(chars, start) {
            Ok(lexeme) => start + 2 <= lexeme.end <= chars.len() && chars[lexeme.end - 1] == '"'
                && lexeme.token == TokenView::String(chars.subrange(start + 1, lexeme.end - 1)),
            Err(e) => start <= e.pos < chars.len(),
        },
{
    lemma_string_close(chars, start, start + 1);
}

/// Every token covers its own source text: where a rule gives a token at
/// `start`, the token ends in the input, behind at least one character,
/// and the characters from `start` to its end are the source text of the
/// token. An error points into the input or at its end, not before `start`.
pub proof fn lemma_token_span(chars: Seq<char>, start: int)
    requires
        0 <= start < chars.len(),
    ensures
        match token_at(chars, start) {
            Ok(lexeme) => start < lexeme.end <= chars.len() && chars.subrange(start, lexeme.end)
                == lexeme.token.source(),
            Err(e) => start <= e.pos <= chars.len(),
        },
{
    reveal_strlit("true");
    reveal_strlit("false");
    reveal_strlit("null");
    let c = chars[start];
    if c == '"' {
        lemma_string_span(chars, start);
    } else if c == '/' {
        if char_at(chars, start + 1) == Some('/') {
            lemma_line_end(chars, start + 2);
        } else if char_at(chars, start + 1) == Some('*') {
            lemma_block_close(chars, start + 2);
        }
    } else if c == '-' || is_digit(c) {
        lemma_number_span(chars, start);
    }
    if let Ok(lexeme) = token_at(chars, start) {
        assert(chars.subrange(start, lexeme.end) =~= lexeme.token.source());
    }
}

/// One step of the scanner accounts for every character it passes: from
/// `pos` to the token start there is nothing but white space, the token
/// covers its own source text, and the step ends without a token only at
/// the end of the input. A step that gives a token moves forward, so
/// scanning comes to an end.
pub proof fn lemma_scan_step(chars: Seq<char>, pos: int)
    requires
        0 <= pos <= chars.len(),
    ensures
        pos <= whitespace_end(chars, pos) <= chars.len(),
        forall|j: int| pos <= j < whitespace_end(chars, pos) ==> unicode_whitespace(chars[j]),
        match scan(chars, pos) {
            Ok(Some(lexeme)) => whitespace_end(chars, pos) < lexeme.end <= chars.len()
                && chars.subrange(whitespace_end(chars, pos), lexeme.end)
                == lexeme.token.source(),
            Ok(None) => whitespace_end(chars, pos) == chars.len(),
            Err(e) => whitespace_end(chars, pos) <= e.pos <= chars.len(),
        },
{
    lemma_whitespace_end(chars, pos);
    if whitespace_end(chars, pos) < chars.len() {
        lemma_token_span(chars, whitespace_end(chars, pos));
    }
}

/// The end of the input is final: a step from there gives no token and no
/// error, however often it is taken.
pub proof fn lemma_end_is_final(chars: Seq<char>)
    ensures
        scan(chars, chars.len() as int) == Ok::<Option<Lexeme>, TokenErrorView>(None),
{
}

/// Nothing of a well-formed input is dropped: where the scanner gets from
/// `pos` to the end of the input without an error, the white space that it
/// skips and the source texts of the tokens that it gives, put together in
/// order, are the input from `pos` on, character for character.
pub proof fn lemma_scan_reconstructs_input(chars: Seq<char>, pos: int)
    requires
        0 <= pos <= chars.len(),
        scan_all(chars, pos) is Ok,
    ensures
        scanned_text(chars, pos) == chars.subrange(pos, chars.len() as int),
    decreases chars.len() - pos,
{
    lemma_scan_step(chars, pos);
    let start = whitespace_end(chars, pos);
    match scan(chars, pos) {
        Ok(Some(lexeme)) => {
            lemma_scan_reconstructs_input(chars, lexeme.end);
            assert(chars.subrange(pos, start) + chars.subrange(start, lexeme.end) + chars.subrange(
                lexeme.end,
                chars.len() as int,
            ) =~= chars.subrange(pos, chars.len() as int));
        },
        _ => {},
    }
}

/// The whole of a well-formed input is accounted for: the law above, from
/// the start of the input.
pub proof fn lemma_scan_reconstructs_whole_input(chars: Seq<char>)
    requires
        scan_all(chars, 0) is Ok,
    ensures
        scanned_text(chars, 0) == chars,
{
    lemma_scan_reconstructs_input(chars, 0);
    assert(chars.subrange(0, chars.len() as int) =~= chars);
}

/// Keywords are whole words: where the characters of `true`, `false` or
/// `null` stand at `start`, they are a token if and only if no
/// alphanumeric character follows them. Where one follows, all of it is
/// unexpected: no keyword is split off from the front of a longer word.
pub proof fn lemma_keyword_is_whole_word(chars: Seq<char>, start: int, word: Seq<char>)
    requires
        word == "true"@ || word == "false"@ || word == "null"@,
        starts_with_at(chars, start, word),
    ensures
        continues_word(chars, start + word.len()) ==> token_at(chars, start) == Err::<
            Lexeme,
            TokenErrorView,
        >(error_at(start, UNEXPECTED_TOKEN)),
        !continues_word(chars, start + word.len()) ==> (token_at(chars, start) matches Ok(lexeme)
            && lexeme.end == start + word.len() && lexeme.token.source() == word),
{
    reveal_strlit("true");
    reveal_strlit("false");
    reveal_strlit("null");
    assert(chars.subrange(start, start + word.len())[0] == chars[start]);
    assert(!starts_with_at(chars, start, "true"@) || word == "true"@) by {
        if starts_with_at(chars, start, "true"@) {
            assert(chars.subrange(start, start + 4)[0] == chars[start]);
        }
    }
    assert(!starts_with_at(chars, start, "false"@) || word == "false"@) by {
        if starts_with_at(chars, start, "false"@) {
            assert(chars.subrange(start, start + 5)[0] == chars[start]);
        }
    }
}

/// An exponent needs its sign: behind a mantissa that ends at `m` with `e`
/// or `E` behind it, a number goes on only over `+` or `-` and at least one
/// digit. Anything else behind the marker, a digit too, is an error at
/// that position.
pub proof fn lemma_exponent_needs_sign(chars: Seq<char>, start: int, m: int)
    requires
        digit_at(chars, integer_start(chars, start)),
        mantissa_end(chars, start) == Ok::<int, TokenErrorView>(m),
        char_at(chars, m) == Some('e') || char_at(chars, m) == Some('E'),
    ensures
        scan_number(chars, start) == if char_at(chars, m + 1) != Some('+') && char_at(chars, m + 1)
            != Some('-') {
            Err::<Lexeme, TokenErrorView>(error_at(m + 1, EXPECTED_EXPONENT_SIGN))
        } else if !digit_at(chars, m + 2) {
            Err(error_at(m + 2, EXPECTED_DIGIT))
        } else {
            Ok(
                Lexeme {
                    token: TokenView::Number(chars.subrange(start, digits_end(chars, m + 2))),
                    end: digits_end(chars, m + 2),
                },
            )
        },
{
}

/// An unterminated string or block comment is reported where it starts, at
/// its opening quote or at its `/*`, not where the input ends.
pub proof fn lemma_unterminated_reports_start(chars: Seq<char>, start: int)
    requires
        0 <= start < chars.len(),
    ensures
        token_at(chars, start) matches Err(e) ==> (e.message == UNTERMINATED_STRING@ ==> e.pos
            == start && chars[start] == '"'),
        token_at(chars, start) matches Err(e) ==> (e.message == UNTERMINATED_COMMENT_BLOCK@
            ==> e.pos == start && chars[start] == '/' && char_at(chars, start + 1) == Some('*')),
{
    reveal_strlit("Unexpected token.");
    reveal_strlit("Unterminated string literal");
    reveal_strlit("Invalid escape.");
    reveal_strlit("Expected four hex digits.");
    reveal_strlit("Unterminated comment block.");
    reveal_strlit("Expected a digit to follow a negative sign.");
    reveal_strlit("Expected a digit.");
    reveal_strlit("Expected plus or minus symbol in number literal.");
    assert(UNTERMINATED_STRING@[13] != UNTERMINATED_COMMENT_BLOCK@[13]);
    if chars[start] == '"' {
        lemma_string_close(chars, start, start + 1);
    }
}

/// A string with neither a quote nor a backslash behind its opening quote
/// is unterminated, and reported at the opening quote.
pub proof fn lemma_unterminated_string(chars: Seq<char>, start: int)
    requires
        0 <= start < chars.len(),
        chars[start] == '"',
        forall|j: int| start < j < chars.len() ==> chars[j] != '"' && chars[j] != '\\',
    ensures
        token_at(chars, start) == Err::<Lexeme, TokenErrorView>(
            error_at(start, UNTERMINATED_STRING),
        ),
{
    lemma_no_quote_no_close(chars, start, start + 1);
}

/// The step of the law above: without a quote or a backslash from `i` on,
/// the string opened at `start` does not close.
proof fn lemma_no_quote_no_close(chars: Seq<char>, start: int, i: int)
    requires
        0 <= start < i,
        forall|j: int| i <= j < chars.len() ==> chars[j] != '"' && chars[j] != '\\',
    ensures
        string_close(chars, start, i) == Err::<int, TokenErrorView>(
            error_at(start, UNTERMINATED_STRING),
        ),
    decreases chars.len() - i,
{
    if i < chars.len() {
        lemma_no_quote_no_close(chars, start, i + 1);
    }
}

/// A block comment is unterminated exactly if no `*/` stands behind its
/// `/*`. The `*` of the opening `/*` closes nothing.
pub proof fn lemma_unterminated_comment_block(chars: Seq<char>, start: int)
    requires
        0 <= start,
        char_at(chars, start) == Some('/'),
        char_at(chars, start + 1) == Some('*'),
    ensures
        token_at(chars, start) == Err::<Lexeme, TokenErrorView>(
            error_at(start, UNTERMINATED_COMMENT_BLOCK),
        ) <==> forall|j: int| start + 2 <= j ==> !block_end_at(chars, j),
{
    lemma_block_close(chars, start + 2);
}

} // verus!
