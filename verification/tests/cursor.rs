use jsonc_scanner::common::{ImmutableString, Range};
use jsonc_scanner::scanner::{Scanner, TokenError};
use jsonc_scanner::tokens::{Token, TokenAndRange};

fn text(value: &str) -> ImmutableString {
    ImmutableString::from(value)
}

/// The range of the last token, as a caller puts it together.
fn token_range(scanner: &Scanner) -> Range {
    Range {
        start: scanner.token_start(),
        end: scanner.pos(),
        start_line: scanner.token_start_line(),
        end_line: scanner.line_number(),
    }
}

#[test]
fn new_scanner_stands_at_the_start() {
    let scanner = Scanner::new("\n{}");
    assert_eq!(scanner.pos(), 0);
    assert_eq!(scanner.line_number(), 0);
    assert_eq!(scanner.token_start(), 0);
    assert_eq!(scanner.token_start_line(), 0);
    assert_eq!(scanner.current_char(), Some('\n'));
    assert_eq!(scanner.peek_char(), Some('{'));
    assert_eq!(
        token_range(&scanner),
        Range { start: 0, end: 0, start_line: 0, end_line: 0 }
    );
}

#[test]
fn positions_count_characters_not_bytes() {
    let mut scanner = Scanner::new("\"\u{e9}\u{1F600}\" ,");
    assert_eq!(
        scanner.move_next().unwrap(),
        Some(Token::String(text("\u{e9}\u{1F600}")))
    );
    assert_eq!(scanner.pos(), 4);
    assert_eq!(scanner.move_next().unwrap(), Some(Token::Comma));
    assert_eq!(scanner.token_start(), 5);
    assert_eq!(scanner.pos(), 6);
}

#[test]
fn move_next_char_walks_to_the_end_and_stays_there() {
    let mut scanner = Scanner::new("a\nb");
    assert_eq!(scanner.current_char(), Some('a'));
    assert_eq!(scanner.peek_char(), Some('\n'));
    assert_eq!(scanner.move_next_char(), Some('\n'));
    assert_eq!(scanner.pos(), 1);
    assert_eq!(scanner.line_number(), 0);
    assert_eq!(scanner.move_next_char(), Some('b'));
    assert_eq!(scanner.pos(), 2);
    assert_eq!(scanner.line_number(), 1);
    assert_eq!(scanner.peek_char(), None);
    assert_eq!(scanner.move_next_char(), None);
    assert_eq!(scanner.pos(), 3);
    assert_eq!(scanner.current_char(), None);
    assert_eq!(scanner.peek_char(), None);
    assert_eq!(scanner.move_next_char(), None);
    assert_eq!(scanner.pos(), 3);
    assert_eq!(scanner.line_number(), 1);
}

#[test]
fn line_number_counts_newlines_before_the_cursor() {
    let mut scanner = Scanner::new("\n\n1 \r\n /*\n\n*/ \"a\nb\" true\n");
    assert_eq!(scanner.move_next().unwrap(), Some(Token::Number(text("1"))));
    assert_eq!(
        token_range(&scanner),
        Range { start: 2, end: 3, start_line: 2, end_line: 2 }
    );
    assert_eq!(
        scanner.move_next().unwrap(),
        Some(Token::CommentBlock(text("\n\n")))
    );
    assert_eq!(
        token_range(&scanner),
        Range { start: 7, end: 13, start_line: 3, end_line: 5 }
    );
    assert_eq!(
        scanner.move_next().unwrap(),
        Some(Token::String(text("a\nb")))
    );
    assert_eq!(
        token_range(&scanner),
        Range { start: 14, end: 19, start_line: 5, end_line: 6 }
    );
    assert_eq!(scanner.move_next().unwrap(), Some(Token::Boolean(true)));
    assert_eq!(
        token_range(&scanner),
        Range { start: 20, end: 24, start_line: 6, end_line: 6 }
    );
    assert_eq!(scanner.line_number(), 6);
    assert_eq!(scanner.move_next().unwrap(), None);
    assert_eq!(scanner.line_number(), 7);
    assert_eq!(
        token_range(&scanner),
        Range { start: 25, end: 25, start_line: 7, end_line: 7 }
    );
}

#[test]
fn newline_at_the_very_start_is_counted() {
    let mut scanner = Scanner::new("\n,");
    assert_eq!(scanner.move_next().unwrap(), Some(Token::Comma));
    assert_eq!(scanner.line_number(), 1);
    assert_eq!(
        token_range(&scanner),
        Range { start: 1, end: 2, start_line: 1, end_line: 1 }
    );
}

#[test]
fn newline_behind_a_keyword_is_counted() {
    let mut scanner = Scanner::new("true\nnull");
    assert_eq!(scanner.move_next().unwrap(), Some(Token::Boolean(true)));
    assert_eq!(scanner.line_number(), 0);
    assert_eq!(scanner.move_next().unwrap(), Some(Token::Null));
    assert_eq!(scanner.line_number(), 1);
    assert_eq!(
        token_range(&scanner),
        Range { start: 5, end: 9, start_line: 1, end_line: 1 }
    );
}

#[test]
fn token_and_range_holds_what_the_scanner_reports() {
    let mut scanner = Scanner::new(" [");
    let token = scanner.move_next().unwrap().unwrap();
    let both = TokenAndRange { range: token_range(&scanner), token };
    assert_eq!(both.token, Token::OpenBracket);
    assert_eq!(both.range.start, 1);
    assert_eq!(both.range.end, 2);
    assert_eq!(both.range.start_line, 0);
    assert_eq!(both.range.end_line, 0);
    let copy = both.range.clone();
    assert_eq!(copy, both.range);
    assert_ne!(copy, Range { start: 1, end: 2, start_line: 0, end_line: 1 });
}

#[test]
fn skip_whitespace_stops_at_the_first_other_character() {
    let mut scanner = Scanner::new(" \t\r\n\u{a0}\u{3000}x y");
    scanner.skip_whitespace();
    assert_eq!(scanner.pos(), 6);
    assert_eq!(scanner.current_char(), Some('x'));
    assert_eq!(scanner.line_number(), 1);
    scanner.skip_whitespace();
    assert_eq!(scanner.pos(), 6);
}

#[test]
fn scan_token_skips_no_white_space() {
    let mut scanner = Scanner::new(" ,");
    let err = scanner.scan_token().unwrap_err();
    assert_eq!(err.pos, 0);
    assert_eq!(err.message, "Unexpected token.");
    assert_eq!(scanner.token_start(), 0);

    let mut scanner = Scanner::new(", ");
    assert_eq!(scanner.scan_token().unwrap(), Some(Token::Comma));
    assert_eq!(scanner.token_start(), 0);
    assert_eq!(scanner.pos(), 1);

    let mut scanner = Scanner::new("");
    assert_eq!(scanner.scan_token().unwrap(), None);
}

#[test]
fn accept_word_moves_only_over_the_word_itself() {
    let mut scanner = Scanner::new("nullify");
    assert!(!scanner.accept_word("null", true));
    assert_eq!(scanner.pos(), 0);
    assert!(!scanner.accept_word("nil", false));
    assert_eq!(scanner.pos(), 0);
    assert!(!scanner.accept_word("nullifying", false));
    assert_eq!(scanner.pos(), 0);
    assert!(scanner.accept_word("null", false));
    assert_eq!(scanner.pos(), 4);
    assert!(scanner.accept_word("", false));
    assert_eq!(scanner.pos(), 4);
    assert!(scanner.accept_word("ify", false));
    assert_eq!(scanner.pos(), 7);
    assert!(!scanner.accept_word("x", false));
    assert!(scanner.accept_word("", false));
    assert_eq!(scanner.pos(), 7);
}

#[test]
fn accept_word_counts_the_newlines_it_moves_over() {
    let mut scanner = Scanner::new("a\nb\nc");
    assert!(scanner.accept_word("a\nb\n", false));
    assert_eq!(scanner.pos(), 4);
    assert_eq!(scanner.line_number(), 2);
}

#[test]
fn try_move_word_looks_at_the_character_behind_the_word() {
    let mut scanner = Scanner::new("true1-");
    assert!(!scanner.try_move_word("true"));
    assert!(!scanner.try_move_word("tru"));
    assert_eq!(scanner.pos(), 0);
    assert!(scanner.try_move_word("true1"));
    assert_eq!(scanner.pos(), 5);

    let mut scanner = Scanner::new("true,");
    assert!(!scanner.try_move_word("tru"));
    assert!(scanner.try_move_word("true"));
    assert_eq!(scanner.pos(), 4);
    assert!(!scanner.try_move_word("true"));
    assert!(scanner.try_move_word(","));
    assert_eq!(scanner.pos(), 5);
    assert!(!scanner.try_move_word(","));

    let mut scanner = Scanner::new("true");
    assert!(!scanner.try_move_word("true1"));
    assert!(scanner.try_move_word("true"));
    assert_eq!(scanner.pos(), 4);
}

#[test]
fn character_tests_look_at_the_character_under_the_cursor() {
    let mut scanner = Scanner::new("0a9G-.f\n\r\r\n");
    assert!(scanner.is_zero() && scanner.is_digit() && scanner.is_hex());
    assert!(!scanner.is_one_nine() && !scanner.is_negative_sign());
    scanner.move_next_char();
    assert!(scanner.is_hex() && !scanner.is_digit() && !scanner.is_zero());
    scanner.move_next_char();
    assert!(scanner.is_one_nine() && scanner.is_digit() && scanner.is_hex());
    assert!(!scanner.is_zero());
    scanner.move_next_char();
    assert!(!scanner.is_hex() && !scanner.is_digit());
    scanner.move_next_char();
    assert!(scanner.is_negative_sign() && !scanner.is_decimal_point());
    scanner.move_next_char();
    assert!(scanner.is_decimal_point() && !scanner.is_negative_sign());
    scanner.move_next_char();
    assert!(scanner.is_hex() && !scanner.is_new_line());
    scanner.move_next_char();
    assert!(scanner.is_new_line());
    scanner.move_next_char();
    assert!(!scanner.is_new_line());
    scanner.move_next_char();
    assert!(scanner.is_new_line());
    scanner.move_next_char();
    assert!(scanner.is_new_line());
    scanner.move_next_char();
    assert!(!scanner.is_new_line() && !scanner.is_digit() && !scanner.is_hex());
    assert!(!scanner.is_zero() && !scanner.is_one_nine());
    assert!(!scanner.is_negative_sign() && !scanner.is_decimal_point());
}

#[test]
fn hex_digits_are_the_sixteen_and_their_capitals() {
    for c in (0u8..128).map(|b| b as char) {
        let expected = c.is_ascii_hexdigit();
        let scanner = Scanner::new(&c.to_string());
        assert_eq!(scanner.is_hex(), expected, "{:?}", c);
        assert_eq!(scanner.is_digit(), c.is_ascii_digit(), "{:?}", c);
    }
    assert!(!Scanner::new("\u{ff11}").is_digit());
    assert!(!Scanner::new("\u{ff21}").is_hex());
}

#[test]
fn parse_number_reads_from_the_cursor() {
    let mut scanner = Scanner::new("-12.50e-3]");
    assert_eq!(
        scanner.parse_number().unwrap(),
        Token::Number(text("-12.50e-3"))
    );
    assert_eq!(scanner.pos(), 9);
    let err = scanner.parse_number().unwrap_err();
    assert_eq!(err.pos, 9);
    assert_eq!(err.message, "Expected a digit to follow a negative sign.");
    assert_eq!(scanner.pos(), 9);
}

#[test]
fn parse_string_reads_from_the_opening_quote() {
    let mut scanner = Scanner::new("\"a\\u0041\"\"");
    assert_eq!(
        scanner.parse_string().unwrap(),
        Token::String(text("a\\u0041"))
    );
    assert_eq!(scanner.pos(), 9);
    let err = scanner.parse_string().unwrap_err();
    assert_eq!(err.pos, 9);
    assert_eq!(err.message, "Unterminated string literal");
}

#[test]
fn parse_comments_read_from_the_first_slash() {
    let mut scanner = Scanner::new("/*a*///b");
    assert_eq!(
        scanner.parse_comment_block().unwrap(),
        Token::CommentBlock(text("a"))
    );
    assert_eq!(scanner.pos(), 5);
    assert_eq!(scanner.parse_comment_line(), Token::CommentLine(text("b")));
    assert_eq!(scanner.pos(), 8);

    let mut scanner = Scanner::new("/*a");
    let err = scanner.parse_comment_block().unwrap_err();
    assert_eq!(err.pos, 0);
    assert_eq!(err.message, "Unterminated comment block.");
}

#[test]
fn token_error_keeps_position_and_message() {
    let err = TokenError::new(7, "Invalid escape.");
    assert_eq!(err.pos, 7);
    assert_eq!(err.message, "Invalid escape.");
    assert_eq!(err.message, jsonc_scanner::grammar::INVALID_ESCAPE);
}

#[test]
fn error_messages_are_spelled_as_documented() {
    assert_eq!(jsonc_scanner::grammar::UNEXPECTED_TOKEN, "Unexpected token.");
    assert_eq!(
        jsonc_scanner::grammar::UNTERMINATED_STRING,
        "Unterminated string literal"
    );
    assert_eq!(jsonc_scanner::grammar::INVALID_ESCAPE, "Invalid escape.");
    assert_eq!(
        jsonc_scanner::grammar::EXPECTED_HEX_DIGITS,
        "Expected four hex digits."
    );
    assert_eq!(
        jsonc_scanner::grammar::UNTERMINATED_COMMENT_BLOCK,
        "Unterminated comment block."
    );
    assert_eq!(
        jsonc_scanner::grammar::EXPECTED_DIGIT_AFTER_SIGN,
        "Expected a digit to follow a negative sign."
    );
    assert_eq!(jsonc_scanner::grammar::EXPECTED_DIGIT, "Expected a digit.");
    assert_eq!(
        jsonc_scanner::grammar::EXPECTED_EXPONENT_SIGN,
        "Expected plus or minus symbol in number literal."
    );
}

#[test]
fn immutable_string_keeps_its_text() {
    let from_slice = ImmutableString::from("a\\nb");
    let from_owned = ImmutableString::new(String::from("a\\nb"));
    assert_eq!(from_slice.as_ref(), "a\\nb");
    assert_eq!(from_owned.as_ref(), "a\\nb");
    assert_eq!(from_slice, from_owned);
    let copy = from_slice.clone();
    assert_eq!(copy.as_ref(), "a\\nb");
    assert_eq!(copy, from_slice);
    assert_ne!(from_slice, ImmutableString::from("a\nb"));
    assert_eq!(ImmutableString::from("").as_ref(), "");
}

#[test]
fn cloned_token_is_equal_to_its_origin() {
    let token = Token::CommentLine(text("x"));
    assert_eq!(token.clone(), token);
    assert_ne!(token, Token::CommentBlock(text("x")));
    assert_ne!(Token::String(text("1")), Token::Number(text("1")));
    assert_ne!(Token::Boolean(true), Token::Boolean(false));
}
