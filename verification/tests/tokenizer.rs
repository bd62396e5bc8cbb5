use plugin_selector_parser::tokenizer::{ErrorKind, Token, TokenType, TokenizeError, Tokenizer};

fn scan(input: &str) -> Result<Vec<Token>, TokenizeError> {
    Tokenizer::new(input, None).tokenize()
}

fn kinds(tokens: &[Token]) -> Vec<TokenType> {
    tokens.iter().map(|t| t.ty).collect()
}

fn ranges(tokens: &[Token]) -> Vec<(usize, usize)> {
    tokens.iter().map(|t| t.pos).collect()
}

fn rebuilt(input: &str, tokens: &[Token]) -> Vec<u8> {
    let mut out = Vec::new();
    for t in tokens {
        out.extend_from_slice(&input.as_bytes()[t.pos.0..t.pos.1]);
    }
    out
}

fn token(ty: TokenType, line: (usize, usize), col: (usize, usize), pos: (usize, usize)) -> Token {
    Token { ty, line, col, pos }
}

const SAMPLES: [&str; 12] = [
    "",
    "a",
    "::v-deep( .foo > #foo div )",
    "a    b",
    "a >>~ b",
    "'a\\'b'",
    "a /*\nx\n*/ b",
    "a\\41 b c",
    " \n\t\r\n x",
    "a/b/*c*/d",
    "@media [href=\"x y\"]",
    "é > ü",
];

#[test]
fn empty_input_has_no_tokens() {
    assert_eq!(scan(""), Ok(vec![]));
}

#[test]
fn lexemes_rebuild_the_input() {
    for input in SAMPLES {
        let tokens = scan(input).unwrap();
        assert_eq!(rebuilt(input, &tokens), input.as_bytes().to_vec());
    }
}

#[test]
fn tokens_lie_end_to_end() {
    for input in SAMPLES {
        let tokens = scan(input).unwrap();
        let mut at = 0;
        for t in &tokens {
            assert_eq!(t.pos.0, at);
            assert!(t.pos.0 < t.pos.1);
            at = t.pos.1;
        }
        assert_eq!(at, input.len());
    }
}

#[test]
fn rescanning_the_lexemes_gives_the_same_stream() {
    for input in SAMPLES {
        let tokens = scan(input).unwrap();
        let again = String::from_utf8(rebuilt(input, &tokens)).unwrap();
        let second = scan(&again).unwrap();
        assert_eq!(kinds(&second), kinds(&tokens));
        assert_eq!(ranges(&second), ranges(&tokens));
        assert_eq!(second, tokens);
    }
}

#[test]
fn whitespace_run_is_one_space() {
    let tokens = scan("a    b").unwrap();
    assert_eq!(
        tokens,
        vec![
            token(TokenType::Word, (0, 0), (0, 0), (0, 1)),
            token(TokenType::Space, (0, 0), (1, 4), (1, 5)),
            token(TokenType::Word, (0, 0), (5, 5), (5, 6)),
        ]
    );
}

#[test]
fn mixed_whitespace_is_one_space() {
    let tokens = scan("a \t\r\x0c b").unwrap();
    assert_eq!(kinds(&tokens), vec![TokenType::Word, TokenType::Space, TokenType::Word]);
    assert_eq!(ranges(&tokens), vec![(0, 1), (1, 6), (6, 7)]);
}

#[test]
fn combinator_run_is_one_combinator() {
    let tokens = scan("a >>~ b").unwrap();
    assert_eq!(
        tokens,
        vec![
            token(TokenType::Word, (0, 0), (0, 0), (0, 1)),
            token(TokenType::Space, (0, 0), (1, 1), (1, 2)),
            token(TokenType::Combinator, (0, 0), (2, 2), (2, 5)),
            token(TokenType::Space, (0, 0), (5, 5), (5, 6)),
            token(TokenType::Word, (0, 0), (6, 6), (6, 7)),
        ]
    );
}

#[test]
fn space_ends_a_combinator_run() {
    let tokens = scan("+ |").unwrap();
    assert_eq!(
        kinds(&tokens),
        vec![TokenType::Combinator, TokenType::Space, TokenType::Combinator]
    );
    assert_eq!(ranges(&tokens), vec![(0, 1), (1, 2), (2, 3)]);
}

#[test]
fn combinator_run_at_the_end() {
    let tokens = scan("a>+").unwrap();
    assert_eq!(kinds(&tokens), vec![TokenType::Word, TokenType::Combinator]);
    assert_eq!(ranges(&tokens), vec![(0, 1), (1, 3)]);
}

#[test]
fn escaped_quote_does_not_close() {
    let tokens = scan("'a\\'b'").unwrap();
    assert_eq!(tokens, vec![token(TokenType::SingleQuote, (0, 0), (0, 0), (0, 6))]);
}

#[test]
fn even_backslashes_do_not_escape() {
    let tokens = scan("'a\\\\'b").unwrap();
    assert_eq!(kinds(&tokens), vec![TokenType::SingleQuote, TokenType::Word]);
    assert_eq!(ranges(&tokens), vec![(0, 5), (5, 6)]);
}

#[test]
fn double_quotes_hold_single_quotes() {
    let tokens = scan("\"it's\" x").unwrap();
    assert_eq!(
        kinds(&tokens),
        vec![TokenType::SingleQuote, TokenType::Space, TokenType::Word]
    );
    assert_eq!(ranges(&tokens), vec![(0, 6), (6, 7), (7, 8)]);
}

#[test]
fn unclosed_quote_is_an_error() {
    assert_eq!(
        scan("'abc"),
        Err(TokenizeError { kind: ErrorKind::UnclosedQuote, line: 0, column: 0, offset: 0 })
    );
}

#[test]
fn quote_closed_only_by_escaped_quote_is_an_error() {
    assert_eq!(
        scan("a\n \"b\\\""),
        Err(TokenizeError { kind: ErrorKind::UnclosedQuote, line: 1, column: 2, offset: 3 })
    );
}

#[test]
fn comment_counts_its_lines() {
    let tokens = scan("a /*\nx\n*/ b").unwrap();
    assert_eq!(
        tokens,
        vec![
            token(TokenType::Word, (0, 0), (0, 0), (0, 1)),
            token(TokenType::Space, (0, 0), (1, 1), (1, 2)),
            token(TokenType::Comment, (0, 2), (2, 1), (2, 9)),
            token(TokenType::Space, (2, 2), (2, 2), (9, 10)),
            token(TokenType::Word, (2, 2), (3, 3), (10, 11)),
        ]
    );
    assert_eq!(tokens[2].line.1, tokens[2].line.0 + 2);
}

#[test]
fn comment_on_one_line_keeps_the_line_start() {
    let tokens = scan("a/*b*/c").unwrap();
    assert_eq!(
        tokens,
        vec![
            token(TokenType::Word, (0, 0), (0, 0), (0, 1)),
            token(TokenType::Comment, (0, 0), (1, 5), (1, 6)),
            token(TokenType::Word, (0, 0), (6, 6), (6, 7)),
        ]
    );
}

#[test]
fn comment_closes_at_the_first_terminator() {
    let tokens = scan("/* a * / **/*/").unwrap();
    assert_eq!(
        kinds(&tokens),
        vec![TokenType::Comment, TokenType::Asterisk, TokenType::Slash]
    );
    assert_eq!(ranges(&tokens), vec![(0, 12), (12, 13), (13, 14)]);
}

#[test]
fn unclosed_comment_is_an_error() {
    assert_eq!(
        scan("ab /* c"),
        Err(TokenizeError { kind: ErrorKind::UnclosedComment, line: 0, column: 3, offset: 3 })
    );
}

#[test]
fn opening_star_does_not_close_the_comment() {
    assert_eq!(
        scan("/*/"),
        Err(TokenizeError { kind: ErrorKind::UnclosedComment, line: 0, column: 0, offset: 0 })
    );
}

#[test]
fn bare_slash_is_a_slash() {
    let tokens = scan("a/b/").unwrap();
    assert_eq!(
        tokens,
        vec![
            token(TokenType::Word, (0, 0), (0, 0), (0, 1)),
            token(TokenType::Slash, (0, 0), (1, 1), (1, 2)),
            token(TokenType::Word, (0, 0), (2, 2), (2, 3)),
            token(TokenType::Slash, (0, 0), (3, 3), (3, 4)),
        ]
    );
}

#[test]
fn punctuation_makes_tokens_of_one_byte() {
    let tokens = scan("*&!,=$^[]:;()").unwrap();
    assert_eq!(
        kinds(&tokens),
        vec![
            TokenType::Asterisk,
            TokenType::Ampersand,
            TokenType::Bang,
            TokenType::Comma,
            TokenType::Equals,
            TokenType::Dollar,
            TokenType::Caret,
            TokenType::OpenSquare,
            TokenType::CloseSquare,
            TokenType::Colon,
            TokenType::Semicolon,
            TokenType::OpenParenthesis,
            TokenType::CloseParenthesis,
        ]
    );
    for (i, t) in tokens.iter().enumerate() {
        assert_eq!(t.pos, (i, i + 1));
        assert_eq!(t.col, (i, i));
    }
}

#[test]
fn hex_escape_takes_its_trailing_space() {
    let tokens = scan("a\\41 b c").unwrap();
    assert_eq!(
        tokens,
        vec![
            token(TokenType::Word, (0, 0), (0, 5), (0, 6)),
            token(TokenType::Space, (0, 0), (6, 6), (6, 7)),
            token(TokenType::Word, (0, 0), (7, 7), (7, 8)),
        ]
    );
}

#[test]
fn six_digit_escape_leaves_the_space() {
    let tokens = scan("\\123456 x").unwrap();
    assert_eq!(kinds(&tokens), vec![TokenType::Word, TokenType::Space, TokenType::Word]);
    assert_eq!(ranges(&tokens), vec![(0, 7), (7, 8), (8, 9)]);
}

#[test]
fn escaped_delimiter_stays_in_the_word() {
    let tokens = scan("a\\:b:c").unwrap();
    assert_eq!(kinds(&tokens), vec![TokenType::Word, TokenType::Colon, TokenType::Word]);
    assert_eq!(ranges(&tokens), vec![(0, 4), (4, 5), (5, 6)]);
}

#[test]
fn escaped_line_feed_stays_in_the_word() {
    let tokens = scan("a\\\nb c").unwrap();
    assert_eq!(
        tokens,
        vec![
            token(TokenType::Word, (0, 0), (0, 3), (0, 4)),
            token(TokenType::Space, (0, 0), (4, 4), (4, 5)),
            token(TokenType::Word, (0, 0), (5, 5), (5, 6)),
        ]
    );
}

#[test]
fn trailing_backslash_is_an_error() {
    assert_eq!(
        scan("ab\\"),
        Err(TokenizeError { kind: ErrorKind::MalformedEscape, line: 0, column: 2, offset: 2 })
    );
    assert_eq!(
        scan("x\ny \\41\\"),
        Err(TokenizeError { kind: ErrorKind::MalformedEscape, line: 1, column: 6, offset: 7 })
    );
}

#[test]
fn hex_escape_at_the_end() {
    let tokens = scan("\\41").unwrap();
    assert_eq!(tokens, vec![token(TokenType::Word, (0, 0), (0, 2), (0, 3))]);
}

#[test]
fn at_sign_and_dots_belong_to_words() {
    let tokens = scan("@a.b-c#d").unwrap();
    assert_eq!(tokens, vec![token(TokenType::Word, (0, 0), (0, 7), (0, 8))]);
}

#[test]
fn line_feed_starts_a_line() {
    let tokens = scan("a\n b").unwrap();
    assert_eq!(
        tokens,
        vec![
            token(TokenType::Word, (0, 0), (0, 0), (0, 1)),
            token(TokenType::Space, (1, 1), (0, 1), (1, 3)),
            token(TokenType::Word, (1, 1), (2, 2), (3, 4)),
        ]
    );
}

#[test]
fn space_run_counts_every_line_feed() {
    let tokens = scan("a \n\n b").unwrap();
    assert_eq!(
        tokens,
        vec![
            token(TokenType::Word, (0, 0), (0, 0), (0, 1)),
            token(TokenType::Space, (0, 2), (1, 1), (1, 5)),
            token(TokenType::Word, (2, 2), (2, 2), (5, 6)),
        ]
    );
}

#[test]
fn whitespace_at_the_end() {
    let tokens = scan("a \n").unwrap();
    assert_eq!(
        tokens,
        vec![
            token(TokenType::Word, (0, 0), (0, 0), (0, 1)),
            token(TokenType::Space, (0, 1), (1, 0), (1, 3)),
        ]
    );
}

#[test]
fn columns_count_bytes() {
    let tokens = scan("é b").unwrap();
    assert_eq!(
        tokens,
        vec![
            token(TokenType::Word, (0, 0), (0, 1), (0, 2)),
            token(TokenType::Space, (0, 0), (2, 2), (2, 3)),
            token(TokenType::Word, (0, 0), (3, 3), (3, 4)),
        ]
    );
}

#[test]
fn deep_selector() {
    let tokens = scan("::v-deep( .foo > #foo div )").unwrap();
    assert_eq!(
        kinds(&tokens),
        vec![
            TokenType::Colon,
            TokenType::Colon,
            TokenType::Word,
            TokenType::OpenParenthesis,
            TokenType::Space,
            TokenType::Word,
            TokenType::Space,
            TokenType::Combinator,
            TokenType::Space,
            TokenType::Word,
            TokenType::Space,
            TokenType::Word,
            TokenType::Space,
            TokenType::CloseParenthesis,
        ]
    );
    assert_eq!(
        ranges(&tokens),
        vec![
            (0, 1),
            (1, 2),
            (2, 8),
            (8, 9),
            (9, 10),
            (10, 14),
            (14, 15),
            (15, 16),
            (16, 17),
            (17, 21),
            (21, 22),
            (22, 25),
            (25, 26),
            (26, 27),
        ]
    );
}

#[test]
fn safe_flag_is_ignored() {
    assert_eq!(Tokenizer::new("'abc", Some(true)).tokenize(), scan("'abc"));
    assert_eq!(Tokenizer::new("a b", Some(true)).tokenize(), scan("a b"));
}

#[test]
fn next_token_goes_one_token_at_a_time() {
    let mut t = Tokenizer::new("a b", None);
    assert!(!t.is_done());
    assert_eq!(t.next_token(), Ok(token(TokenType::Word, (0, 0), (0, 0), (0, 1))));
    assert_eq!(t.next_token(), Ok(token(TokenType::Space, (0, 0), (1, 1), (1, 2))));
    assert!(!t.is_done());
    assert_eq!(t.next_token(), Ok(token(TokenType::Word, (0, 0), (2, 2), (2, 3))));
    assert!(t.is_done());
    assert_eq!(t.tokenize(), Ok(vec![]));
}

#[test]
fn failure_leaves_the_cursor_at_the_failing_token() {
    let mut t = Tokenizer::new("a 'b", None);
    let expected =
        TokenizeError { kind: ErrorKind::UnclosedQuote, line: 0, column: 2, offset: 2 };
    assert_eq!(t.tokenize(), Err(expected));
    assert_eq!(t.unclosed(ErrorKind::UnclosedQuote), expected);
    assert_eq!(t.next_token(), Err(expected));
}

#[test]
fn failure_as_a_message() {
    assert_eq!(scan("'abc").unwrap_err().message(), "Unclosed quote. 0 0 0");
    assert_eq!(scan("a\n\n  /* b").unwrap_err().message(), "Unclosed comment. 2 3 5");
    assert_eq!(scan("x\ny \\41\\").unwrap_err().message(), "Malformed escape. 1 6 7");
}
