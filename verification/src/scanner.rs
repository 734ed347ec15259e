//! The scanner: a cursor over the characters of a text that hands out one
//! token per call.
//!
//! Every function here is held to the grammar in [`crate::grammar`]: its
//! contract names the spec function that it computes. The scanner keeps its
//! own invariant, so none of its functions asks the caller for anything but
//! what the function itself is about.

use crate::char_class;
use crate::common::ImmutableString;
use crate::grammar::{
    block_close, block_end_at, char_at, digit_at, digits_end, exponent_end, four_hex_at,
    integer_end, integer_start, line_end, line_of, line_terminator_at, mantissa_end, scan,
    scan_comment_block, scan_comment_line, scan_number, scan_string, scan_token, starts_with_at,
    string_close, whitespace_end, word_at, TokenErrorView, EXPECTED_DIGIT,
    EXPECTED_DIGIT_AFTER_SIGN, EXPECTED_EXPONENT_SIGN, EXPECTED_HEX_DIGITS, INVALID_ESCAPE,
    UNEXPECTED_TOKEN, UNTERMINATED_COMMENT_BLOCK, UNTERMINATED_STRING,
};
use crate::laws::{lemma_line_of_bound, lemma_line_of_monotonic, lemma_line_of_step};
use crate::tokens::Token;
use vstd::prelude::*;

verus! {

/// A malformed piece of input: where it is and what is wrong with it.
///
/// The position counts characters from the start of the text. No scanning
/// goes on past an error.
#[derive(Debug)]
pub struct TokenError {
    pub pos: usize,
    pub message: String,
}

impl View for TokenError {
    type V = TokenErrorView;

    open spec fn view(&self) -> TokenErrorView {
        TokenErrorView { pos: self.pos as int, message: self.message@ }
    }
}

impl TokenError {
    /// The error at `pos` with a copy of `message`.
    pub fn new(pos: usize, message: &str) -> (e: TokenError)
        ensures
            e@ == (TokenErrorView { pos: pos as int, message: message@ }),
    {
        TokenError { pos, message: message.to_owned() }
    }
}

/// A position in the text together with its line.
#[derive(Clone, Copy)]
struct Cursor {
    pos: usize,
    line: usize,
}

/// A scanner over a text.
///
/// It owns the characters of the text, the position of the next unread
/// character with its line, and the position and line at which the last
/// token was looked for. The cursor only ever moves forward.
pub struct Scanner {
    cursor: Cursor,
    token_start: Cursor,
    chars: Vec<char>,
}

/// The mathematical value of a [`Scanner`]: the characters of its text, the
/// position of its cursor and the position at which the last token was
/// looked for. Lines are not part of it: they follow from the positions.
pub struct ScannerView {
    pub chars: Seq<char>,
    pub pos: int,
    pub token_start: int,
}

impl ScannerView {
    /// The positions lie in the text, the token start not behind the cursor.
    /// This holds of every scanner.
    pub open spec fn wf(self) -> bool {
        0 <= self.token_start <= self.pos <= self.chars.len()
    }

    /// The character under the cursor, if the input has not ended.
    pub open spec fn current(self) -> Option<char> {
        char_at(self.chars, self.pos)
    }

    /// The character behind the one under the cursor, if there is one.
    pub open spec fn peek(self) -> Option<char> {
        char_at(self.chars, self.pos + 1)
    }

    /// The line of the cursor: the number of `\n` characters before it.
    pub open spec fn line_number(self) -> nat {
        line_of(self.chars, self.pos)
    }

    /// The line of the token start.
    pub open spec fn token_start_line(self) -> nat {
        line_of(self.chars, self.token_start)
    }

    /// The same scanner with its cursor at `pos`.
    pub open spec fn at(self, pos: int) -> ScannerView {
        ScannerView { pos, ..self }
    }

    /// The same scanner with its cursor one character further, or unchanged
    /// at the end of the input.
    pub open spec fn step(self) -> ScannerView {
        if self.pos < self.chars.len() {
            self.at(self.pos + 1)
        } else {
            self
        }
    }

    /// Whether `after` is this scanner with its cursor where it was or
    /// further on: the text and the token start are the same, and the cursor
    /// has not moved back.
    pub open spec fn followed_by(self, after: ScannerView) -> bool {
        &&& after.chars == self.chars
        &&& after.token_start == self.token_start
        &&& self.pos <= after.pos
        &&& after.wf()
    }
}

impl View for Scanner {
    type V = ScannerView;

    closed spec fn view(&self) -> ScannerView {
        ScannerView {
            chars: self.chars@,
            pos: self.cursor.pos as int,
            token_start: self.token_start.pos as int,
        }
    }
}

impl Scanner {
    /// Both positions lie in the text, the token start not behind the
    /// cursor, and each carries the line that belongs to it.
    #[verifier::type_invariant]
    spec fn inv(self) -> bool {
        &&& self.token_start.pos <= self.cursor.pos <= self.chars.len()
        &&& self.cursor.line == line_of(self.chars@, self.cursor.pos as int)
        &&& self.token_start.line == line_of(self.chars@, self.token_start.pos as int)
    }

    /// A scanner at the start of `text`.
    pub fn new(text: &str) -> (scanner: Scanner)
        ensures
            scanner@ == (ScannerView { chars: text@, pos: 0, token_start: 0 }),
    {
        let mut chars: Vec<char> = Vec::new();
        for c in it: text.chars()
            invariant
                chars@ == it.seq().take(it.index() as int),
        {
            chars.push(c);
        }
        assert(chars@ =~= text@);
        assert(chars@.take(0) =~= Seq::<char>::empty());
        Scanner {
            cursor: Cursor { pos: 0, line: 0 },
            token_start: Cursor { pos: 0, line: 0 },
            chars,
        }
    }

    /// Skips white space, then reads the next token.
    ///
    /// Returns `Ok(None)` when only white space was left, and does so again
    /// on every later call. Otherwise returns the token that starts behind
    /// the white space and leaves the cursor right behind its text, or
    /// returns the error that the grammar gives for what stands there. After
    /// an error the cursor has not moved back, but where it stands is left
    /// open.
    ///
    /// What is returned is [`scan`] of the text and the cursor.
    pub fn move_next(&mut self) -> (result: Result<Option<Token>, TokenError>)
        ensures
            final(self)@.chars == old(self)@.chars,
            final(self)@.token_start == whitespace_end(old(self)@.chars, old(self)@.pos),
            old(self)@.pos <= final(self)@.token_start,
            final(self)@.wf(),
            match scan(old(self)@.chars, old(self)@.pos) {
                Ok(Some(lexeme)) => result matches Ok(Some(token)) && token@ == lexeme.token
                    && final(self)@.pos == lexeme.end,
                Ok(None) => result matches Ok(None) && final(self)@.pos == old(self)@.chars.len(),
                Err(e) => result matches Err(err) && err@ == e,
            },
    {
        self.skip_whitespace();
        self.scan_token()
    }

    /// Reads the token that starts under the cursor, without skipping white
    /// space first.
    ///
    /// Records the cursor as the token start. Returns `Ok(None)` at the end
    /// of the input. Otherwise the character under the cursor chooses the
    /// rule: a structural character is a token by itself, `"` opens a
    /// string, `//` and `/*` open comments, `-` and digits open a number,
    /// and anything else must be one of the words `true`, `false` and
    /// `null`.
    ///
    /// What is returned is [`scan_token`] of the text and the cursor.
    pub fn scan_token(&mut self) -> (result: Result<Option<Token>, TokenError>)
        ensures
            final(self)@.chars == old(self)@.chars,
            final(self)@.token_start == old(self)@.pos,
            final(self)@.wf(),
            match scan_token(old(self)@.chars, old(self)@.pos) {
                Ok(Some(lexeme)) => result matches Ok(Some(token)) && token@ == lexeme.token
                    && final(self)@.pos == lexeme.end,
                Ok(None) => result matches Ok(None) && final(self)@.pos == old(self)@.pos,
                Err(e) => result matches Err(err) && err@ == e,
            },
    {
        proof {
            use_type_invariant(&*self);
        }
        self.token_start = self.cursor;
        if let Some(current_char) = self.current_char() {
            let token_result = match current_char {
                '{' => {
                    self.move_next_char();
                    Ok(Token::OpenBrace)
                },
                '}' => {
                    self.move_next_char();
                    Ok(Token::CloseBrace)
                },
                '[' => {
                    self.move_next_char();
                    Ok(Token::OpenBracket)
                },
                ']' => {
                    self.move_next_char();
                    Ok(Token::CloseBracket)
                },
                ',' => {
                    self.move_next_char();
                    Ok(Token::Comma)
                },
                ':' => {
                    self.move_next_char();
                    Ok(Token::Colon)
                },
                '"' => self.parse_string(),
                '/' => {
                    match self.peek_char() {
                        Some('/') => Ok(self.parse_comment_line()),
                        Some('*') => self.parse_comment_block(),
                        _ => Err(TokenError::new(self.token_start.pos, UNEXPECTED_TOKEN)),
                    }
                },
                _ => {
                    if current_char == '-' || self.is_digit() {
                        self.parse_number()
                    } else if self.try_move_word("true") {
                        Ok(Token::Boolean(true))
                    } else if self.try_move_word("false") {
                        Ok(Token::Boolean(false))
                    } else if self.try_move_word("null") {
                        Ok(Token::Null)
                    } else {
                        Err(TokenError::new(self.token_start.pos, UNEXPECTED_TOKEN))
                    }
                },
            };
            match token_result {
                Ok(token) => Ok(Some(token)),
                Err(err) => Err(err),
            }
        } else {
            Ok(None)
        }
    }

    /// Reads the string whose opening quote is under the cursor: the string
    /// rule of the grammar. On success the cursor stands behind the closing
    /// quote, and the token holds the text between the quotes as it stands
    /// in the input.
    pub fn parse_string(&mut self) -> (result: Result<Token, TokenError>)
        requires
            old(self)@.current() == Some('"'),
        ensures
            old(self)@.followed_by(final(self)@),
            match scan_string(old(self)@.chars, old(self)@.pos) {
                Ok(lexeme) => result matches Ok(token) && token@ == lexeme.token && final(self)@.pos
                    == lexeme.end,
                Err(e) => result matches Err(err) && err@ == e,
            },
    {
        let ghost chars = self@.chars;
        let ghost whole = string_close(chars, self@.pos, self@.pos + 1);
        let start_pos = self.pos();
        let mut text = String::new();
        let mut last_was_backslash = false;
        self.assert_then_move_char('"');
        assert(text@ =~= chars.subrange(start_pos + 1, self@.pos));

        loop
            invariant
                self@ == old(self)@.at(self@.pos),
                self@.wf(),
                chars == old(self)@.chars,
                start_pos == old(self)@.pos,
                whole == string_close(chars, start_pos as int, start_pos + 1),
                start_pos < self@.pos,
                text@ == chars.subrange(start_pos + 1, self@.pos),
                last_was_backslash ==> start_pos + 1 < self@.pos && chars[self@.pos - 1] == '\\'
                    && string_close(chars, start_pos as int, self@.pos - 1) == whole,
                !last_was_backslash ==> string_close(chars, start_pos as int, self@.pos) == whole,
            decreases self@.chars.len() - self@.pos,
        {
            let ghost pos = self@.pos;
            match self.current_char() {
                None => {
                    return Err(TokenError::new(start_pos, UNTERMINATED_STRING));
                },
                Some(current_char) => {
                    if last_was_backslash {
                        match current_char {
                            '"' | '\\' | '/' | 'b' | 'f' | 'n' | 'r' | 't' => {
                                self.take_char(&mut text);
                            },
                            'u' => {
                                let hex_start_pos = self.pos();
                                self.take_char(&mut text);
                                // expect four hex values
                                for i in 0..4usize
                                    invariant
                                        self@ == old(self)@.at(pos + 1 + i),
                                        self@.wf(),
                                        chars == old(self)@.chars,
                                        hex_start_pos == pos,
                                        start_pos == old(self)@.pos,
                                        start_pos + 1 < pos < chars.len(),
                                        chars[pos - 1] == '\\',
                                        chars[pos] == 'u',
                                        whole == string_close(
                                            chars,
                                            start_pos as int,
                                            start_pos + 1,
                                        ),
                                        string_close(chars, start_pos as int, pos - 1) == whole,
                                        text@ == chars.subrange(start_pos + 1, pos + 1 + i),
                                        forall|j: int|
                                            pos < j <= pos + i ==> char_class::is_hex(
                                                #[trigger] chars[j],
                                            ),
                                {
                                    if !self.is_hex() {
                                        return Err(
                                            TokenError::new(hex_start_pos, EXPECTED_HEX_DIGITS),
                                        );
                                    }
                                    self.take_char(&mut text);
                                    assert(text@ =~= chars.subrange(start_pos + 1, pos + 2 + i));
                                }
                                assert(four_hex_at(chars, pos + 1));
                            },
                            _ => {
                                return Err(TokenError::new(start_pos, INVALID_ESCAPE));
                            },
                        }
                        last_was_backslash = false;
                    } else if current_char == '"' {
                        self.move_next_char();
                        return Ok(Token::String(ImmutableString::new(text)));
                    } else {
                        last_was_backslash = current_char == '\\';
                        self.take_char(&mut text);
                    }
                },
            }
            assert(text@ =~= chars.subrange(start_pos + 1, self@.pos));
        }
    }

    /// Reads the number that starts under the cursor: the number rule of
    /// the grammar. On success the cursor stands behind the number, and the
    /// token holds its text as it stands in the input.
    pub fn parse_number(&mut self) -> (result: Result<Token, TokenError>)
        ensures
            old(self)@.followed_by(final(self)@),
            match scan_number(old(self)@.chars, old(self)@.pos) {
                Ok(lexeme) => result matches Ok(token) && token@ == lexeme.token && final(self)@.pos
                    == lexeme.end,
                Err(e) => result matches Err(err) && err@ == e,
            },
    {
        let ghost chars = self@.chars;
        let ghost start = self@.pos;
        let mut text = String::new();

        if self.is_negative_sign() {
            self.take_char(&mut text);
        }
        let ghost first = self@.pos;
        assert(first == integer_start(chars, start));
        assert(text@ =~= chars.subrange(start, first));

        if self.is_zero() {
            self.take_char(&mut text);
        } else if self.is_one_nine() {
            self.take_digits(&mut text);
        } else {
            return Err(TokenError::new(self.pos(), EXPECTED_DIGIT_AFTER_SIGN));
        }
        assert(self@.pos == integer_end(chars, first));
        assert(text@ =~= chars.subrange(start, self@.pos));

        if self.is_decimal_point() {
            self.take_char(&mut text);
            if !self.is_digit() {
                return Err(TokenError::new(self.pos(), EXPECTED_DIGIT));
            }
            self.take_digits(&mut text);
        }
        let ghost mantissa = self@.pos;
        assert(mantissa_end(chars, start) == Ok::<int, TokenErrorView>(mantissa));
        assert(text@ =~= chars.subrange(start, mantissa));

        match self.current_char() {
            Some('e') | Some('E') => {
                self.take_char(&mut text);
                match self.current_char() {
                    Some('-') | Some('+') => {
                        self.take_char(&mut text);
                        if !self.is_digit() {
                            return Err(TokenError::new(self.pos(), EXPECTED_DIGIT));
                        }
                        self.take_digits(&mut text);
                    },
                    _ => {
                        return Err(TokenError::new(self.pos(), EXPECTED_EXPONENT_SIGN));
                    },
                }
            },
            _ => {},
        }
        assert(exponent_end(chars, mantissa) == Ok::<int, TokenErrorView>(self@.pos));
        assert(text@ =~= chars.subrange(start, self@.pos));

        Ok(Token::Number(ImmutableString::new(text)))
    }

    /// Reads the line comment whose `//` is under the cursor: the line
    /// comment rule of the grammar. The cursor then stands at the line
    /// terminator or at the end of the input.
    pub fn parse_comment_line(&mut self) -> (token: Token)
        requires
            old(self)@.current() == Some('/'),
            old(self)@.peek() == Some('/'),
        ensures
            old(self)@.followed_by(final(self)@),
            token@ == scan_comment_line(old(self)@.chars, old(self)@.pos).token,
            final(self)@.pos == scan_comment_line(old(self)@.chars, old(self)@.pos).end,
    {
        let ghost chars = self@.chars;
        let ghost start = self@.pos;
        let mut text = String::new();
        self.assert_then_move_char('/');
        self.assert_then_move_char('/');
        assert(text@ =~= chars.subrange(start + 2, self@.pos));

        while self.current_char().is_some() && !self.is_new_line()
            invariant
                self@ == old(self)@.at(self@.pos),
                self@.wf(),
                chars == old(self)@.chars,
                start == old(self)@.pos,
                start + 2 <= self@.pos,
                line_end(chars, self@.pos) == line_end(chars, start + 2),
                text@ == chars.subrange(start + 2, self@.pos),
            decreases self@.chars.len() - self@.pos,
        {
            let ghost pos = self@.pos;
            self.take_char(&mut text);
            assert(text@ =~= chars.subrange(start + 2, pos + 1));
        }

        Token::CommentLine(ImmutableString::new(text))
    }

    /// Reads the block comment whose `/*` is under the cursor: the block
    /// comment rule of the grammar. On success the cursor stands behind the
    /// closing `*/`.
    pub fn parse_comment_block(&mut self) -> (result: Result<Token, TokenError>)
        requires
            old(self)@.current() == Some('/'),
            old(self)@.peek() == Some('*'),
        ensures
            old(self)@.followed_by(final(self)@),
            match scan_comment_block(old(self)@.chars, old(self)@.pos) {
                Ok(lexeme) => result matches Ok(token) && token@ == lexeme.token && final(self)@.pos
                    == lexeme.end,
                Err(e) => result matches Err(err) && err@ == e,
            },
    {
        let ghost chars = self@.chars;
        let token_start = self.pos();
        let mut text = String::new();
        self.assert_then_move_char('/');
        self.assert_then_move_char('*');
        assert(text@ =~= chars.subrange(token_start + 2, self@.pos));
        let mut found_end = false;

        while self.current_char().is_some()
            invariant_except_break
                !found_end,
                block_close(chars, self@.pos) == block_close(chars, token_start + 2),
            invariant
                self@ == old(self)@.at(self@.pos),
                self@.wf(),
                chars == old(self)@.chars,
                token_start == old(self)@.pos,
                token_start + 2 <= self@.pos,
                text@ == chars.subrange(token_start + 2, self@.pos),
            ensures
                found_end ==> block_close(chars, token_start + 2) == Some(self@.pos),
                found_end ==> block_end_at(chars, self@.pos),
                !found_end ==> block_close(chars, token_start + 2) is None,
            decreases self@.chars.len() - self@.pos,
        {
            let ghost pos = self@.pos;
            if self.current_char() == Some('*') && self.peek_char() == Some('/') {
                found_end = true;
                break ;
            }
            self.take_char(&mut text);
            assert(text@ =~= chars.subrange(token_start + 2, pos + 1));
        }

        if found_end {
            self.assert_then_move_char('*');
            self.assert_then_move_char('/');
            Ok(Token::CommentBlock(ImmutableString::new(text)))
        } else {
            Err(TokenError::new(token_start, UNTERMINATED_COMMENT_BLOCK))
        }
    }

    /// Moves the cursor over the white space under and behind it.
    pub fn skip_whitespace(&mut self)
        ensures
            final(self)@ == old(self)@.at(whitespace_end(old(self)@.chars, old(self)@.pos)),
            old(self)@.followed_by(final(self)@),
    {
        proof {
            use_type_invariant(&*self);
        }
        loop
            invariant
                self@ == old(self)@.at(self@.pos),
                self@.wf(),
                old(self)@.pos <= self@.pos,
                whitespace_end(self@.chars, self@.pos) == whitespace_end(
                    old(self)@.chars,
                    old(self)@.pos,
                ),
            ensures
                self@.pos == whitespace_end(old(self)@.chars, old(self)@.pos),
            decreases self@.chars.len() - self@.pos,
        {
            match self.current_char() {
                Some(current_char) => {
                    if current_char.is_whitespace() {
                        self.move_next_char();
                    } else {
                        break ;
                    }
                },
                None => {
                    break ;
                },
            }
        }
    }

    /// Moves the cursor over `text` if it stands under the cursor as a
    /// whole word: if its characters stand there and no alphanumeric
    /// character follows them. Returns whether the cursor has moved.
    pub fn try_move_word(&mut self, text: &str) -> (moved: bool)
        ensures
            moved == word_at(old(self)@.chars, old(self)@.pos, text@),
            final(self)@ == if moved {
                old(self)@.at(old(self)@.pos + text@.len())
            } else {
                old(self)@
            },
            old(self)@.followed_by(final(self)@),
    {
        proof {
            use_type_invariant(&*self);
        }
        let len = text.unicode_len();
        let word_continues = len < self.chars.len() - self.cursor.pos && self.chars[self.cursor.pos
            + len].is_alphanumeric();
        self.accept_word(text, word_continues)
    }

    /// Moves the cursor over the characters of `text` if they stand under
    /// and behind it, unless `word_continues` says that the word goes on
    /// behind them. Returns whether the cursor has moved.
    pub fn accept_word(&mut self, text: &str, word_continues: bool) -> (moved: bool)
        ensures
            moved == (starts_with_at(old(self)@.chars, old(self)@.pos, text@) && !word_continues),
            final(self)@ == if moved {
                old(self)@.at(old(self)@.pos + text@.len())
            } else {
                old(self)@
            },
            old(self)@.followed_by(final(self)@),
    {
        proof {
            use_type_invariant(&*self);
        }
        let ghost chars = self@.chars;
        let ghost pos = self@.pos;
        let mut i = self.cursor.pos;
        let mut line = self.cursor.line;
        for c in it: text.chars()
            invariant
                self@ == old(self)@,
                self@.wf(),
                chars == self.chars@,
                pos == self.cursor.pos,
                it.seq() == text@,
                i == pos + it.index(),
                i <= chars.len(),
                line == line_of(chars, i as int),
                forall|j: int| 0 <= j < it.index() ==> chars[pos + j] == #[trigger] text@[j],
        {
            if i >= self.chars.len() || self.chars[i] != c {
                proof {
                    let k = i - pos;
                    if starts_with_at(chars, pos, text@) {
                        assert(chars.subrange(pos, pos + text@.len())[k] == chars[pos + k]);
                    }
                }
                return false;
            }
            proof {
                lemma_line_of_step(chars, i as int);
                lemma_line_of_bound(chars, i as int);
            }
            if c == '\n' {
                line += 1;
            }
            i += 1;
        }
        assert(chars.subrange(pos, pos + text@.len()) =~= text@);
        if word_continues {
            return false;
        }
        self.cursor = Cursor { pos: i, line };
        true
    }

    /// Moves the cursor over `character`, which is known to be under it.
    fn assert_then_move_char(&mut self, character: char)
        requires
            old(self)@.current() == Some(character),
        ensures
            final(self)@ == old(self)@.at(old(self)@.pos + 1),
            final(self)@.wf(),
    {
        self.move_next_char();
    }

    /// Appends the character under the cursor to `text` and moves over it.
    fn take_char(&mut self, text: &mut String)
        requires
            old(self)@.current() is Some,
        ensures
            final(self)@ == old(self)@.at(old(self)@.pos + 1),
            final(self)@.wf(),
            final(text)@ == old(text)@.push(old(self)@.chars[old(self)@.pos]),
    {
        text.push(self.current_char().unwrap());
        self.move_next_char();
    }

    /// Appends the decimal digits under and behind the cursor to `text` and
    /// moves over them.
    fn take_digits(&mut self, text: &mut String)
        ensures
            final(self)@ == old(self)@.at(digits_end(old(self)@.chars, old(self)@.pos)),
            final(self)@.wf(),
            old(self)@.pos <= final(self)@.pos,
            final(text)@ == old(text)@ + old(self)@.chars.subrange(
                old(self)@.pos,
                final(self)@.pos,
            ),
    {
        proof {
            use_type_invariant(&*self);
        }
        let ghost chars = self@.chars;
        let ghost start = self@.pos;
        assert(text@ =~= old(text)@ + chars.subrange(start, start));
        while self.is_digit()
            invariant
                self@ == old(self)@.at(self@.pos),
                self@.wf(),
                chars == old(self)@.chars,
                start == old(self)@.pos,
                start <= self@.pos,
                digits_end(chars, self@.pos) == digits_end(chars, start),
                text@ == old(text)@ + chars.subrange(start, self@.pos),
            decreases self@.chars.len() - self@.pos,
        {
            let ghost pos = self@.pos;
            self.take_char(text);
            assert(text@ =~= old(text)@ + chars.subrange(start, pos + 1));
        }
    }

    /// Moves the cursor over one character, and over nothing at the end of
    /// the input. Returns the character that is then under the cursor.
    pub fn move_next_char(&mut self) -> (c: Option<char>)
        ensures
            final(self)@ == old(self)@.step(),
            final(self)@.wf(),
            c == final(self)@.current(),
    {
        proof {
            use_type_invariant(&*self);
        }
        if self.cursor.pos < self.chars.len() {
            proof {
                lemma_line_of_step(self.chars@, self.cursor.pos as int);
                lemma_line_of_bound(self.chars@, self.cursor.pos as int);
            }
            let line = if self.chars[self.cursor.pos] == '\n' {
                self.cursor.line + 1
            } else {
                self.cursor.line
            };
            self.cursor = Cursor { pos: self.cursor.pos + 1, line };
        }
        self.current_char()
    }

    /// The character behind the one under the cursor, if there is one.
    pub fn peek_char(&self) -> (c: Option<char>)
        ensures
            c == self@.peek(),
            self@.wf(),
    {
        proof {
            use_type_invariant(self);
        }
        if self.cursor.pos < self.chars.len() && self.cursor.pos + 1 < self.chars.len() {
            Some(self.chars[self.cursor.pos + 1])
        } else {
            None
        }
    }

    /// The character under the cursor, if the input has not ended.
    pub fn current_char(&self) -> (c: Option<char>)
        ensures
            c == self@.current(),
            self@.wf(),
    {
        proof {
            use_type_invariant(self);
        }
        if self.cursor.pos < self.chars.len() {
            Some(self.chars[self.cursor.pos])
        } else {
            None
        }
    }

    /// Whether a line terminator starts under the cursor: `\n`, or `\r` with
    /// `\n` right behind it.
    pub fn is_new_line(&self) -> (r: bool)
        ensures
            r == line_terminator_at(self@.chars, self@.pos),
            self@.wf(),
    {
        match self.current_char() {
            Some('\n') => true,
            Some('\r') => self.peek_char() == Some('\n'),
            _ => false,
        }
    }

    /// Whether a hexadecimal digit is under the cursor.
    pub fn is_hex(&self) -> (r: bool)
        ensures
            r == (self@.current() matches Some(c) && char_class::is_hex(c)),
            self@.wf(),
    {
        self.is_digit() || match self.current_char() {
            Some(current_char) => current_char >= 'a' && current_char <= 'f' || current_char >= 'A'
                && current_char <= 'F',
            _ => false,
        }
    }

    /// Whether a decimal digit is under the cursor.
    pub fn is_digit(&self) -> (r: bool)
        ensures
            r == digit_at(self@.chars, self@.pos),
            self@.wf(),
    {
        self.is_one_nine() || self.is_zero()
    }

    /// Whether the digit `0` is under the cursor.
    pub fn is_zero(&self) -> (r: bool)
        ensures
            r == (self@.current() == Some('0')),
            self@.wf(),
    {
        self.current_char() == Some('0')
    }

    /// Whether one of the digits `1` to `9` is under the cursor.
    pub fn is_one_nine(&self) -> (r: bool)
        ensures
            r == (self@.current() matches Some(c) && char_class::is_one_nine(c)),
            self@.wf(),
    {
        match self.current_char() {
            Some(current_char) => current_char >= '1' && current_char <= '9',
            _ => false,
        }
    }

    /// Whether a minus sign is under the cursor.
    pub fn is_negative_sign(&self) -> (r: bool)
        ensures
            r == (self@.current() == Some('-')),
            self@.wf(),
    {
        self.current_char() == Some('-')
    }

    /// Whether a decimal point is under the cursor.
    pub fn is_decimal_point(&self) -> (r: bool)
        ensures
            r == (self@.current() == Some('.')),
            self@.wf(),
    {
        self.current_char() == Some('.')
    }

    /// The position of the cursor, in characters from the start of the text.
    pub fn pos(&self) -> (pos: usize)
        ensures
            pos == self@.pos,
            self@.wf(),
    {
        proof {
            use_type_invariant(self);
        }
        self.cursor.pos
    }

    /// The line of the cursor: the number of `\n` characters before it.
    pub fn line_number(&self) -> (line: usize)
        ensures
            line == self@.line_number(),
            self@.wf(),
    {
        proof {
            use_type_invariant(self);
        }
        self.cursor.line
    }

    /// The position at which the last token was looked for: the position
    /// behind the white space that the last call of
    /// [`move_next`](Scanner::move_next) skipped.
    pub fn token_start(&self) -> (pos: usize)
        ensures
            pos == self@.token_start,
            self@.wf(),
    {
        proof {
            use_type_invariant(self);
        }
        self.token_start.pos
    }

    /// The line of the token start. Together with
    /// [`token_start`](Scanner::token_start), [`pos`](Scanner::pos) and
    /// [`line_number`](Scanner::line_number) this is what a caller needs to
    /// say where the last token stands: it reaches from the token start to
    /// the cursor.
    pub fn token_start_line(&self) -> (line: usize)
        ensures
            line == self@.token_start_line(),
            line <= self@.line_number(),
            self@.wf(),
    {
        proof {
            use_type_invariant(self);
            lemma_line_of_monotonic(self@.chars, self@.token_start, self@.pos);
        }
        self.token_start.line
    }
}

} // verus!
