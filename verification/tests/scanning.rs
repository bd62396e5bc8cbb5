use plugin_selector_parser::chars::{
    is_char_valid_token, is_combinator, is_hex, is_quote, is_single, is_unescapable,
    is_whitespace, is_word_delimiter, TokenType,
};
use plugin_selector_parser::parser::Parser;
use plugin_selector_parser::search::find_str;
use plugin_selector_parser::tokenizer::{ErrorKind, TokenizeError};
use plugin_selector_parser::words::{consume_escape, consume_word};

#[test]
fn test_find_str() {
    let x = "xxhhwwbb";
    assert_eq!(find_str(x.as_bytes(), 2, "wb"), Some(3))
}

#[test]
fn find_str_is_leftmost() {
    assert_eq!(find_str(b"abcabc", 0, "bc"), Some(1));
    assert_eq!(find_str(b"abcabc", 2, "bc"), Some(2));
    assert_eq!(find_str(b"abcabc", 5, "bc"), None);
    assert_eq!(find_str(b"abcabc", 6, "bc"), None);
    assert_eq!(find_str(b"aaab", 0, "aab"), Some(1));
    assert_eq!(find_str(b"a*x*y**/", 0, "*/"), Some(6));
    assert_eq!(find_str(b"abc", 0, "abcd"), None);
    assert_eq!(find_str(b"abc", 0, "c"), Some(2));
    assert_eq!(find_str(b"abc", 0, "abc"), Some(0));
    assert_eq!(find_str(b"xxab", 1, "b"), Some(2));
}

#[test]
fn find_str_at_the_edges() {
    assert_eq!(find_str(b"abc", 3, "c"), None);
    assert_eq!(find_str(b"abc", 4, "c"), None);
    assert_eq!(find_str(b"abc", 1, ""), Some(0));
    assert_eq!(find_str(b"abc", 3, ""), Some(0));
    assert_eq!(find_str(b"abc", 4, ""), None);
    assert_eq!(find_str(b"", 0, "a"), None);
}

#[test]
fn find_str_does_not_hand_back_its_start() {
    assert_eq!(find_str(b"0123456789", 4, "89"), Some(4));
    assert_eq!(find_str(b"0123456789", 4, "9"), Some(5));
    assert_eq!(find_str(b"0123456789", 4, "3"), None);
}

#[test]
fn bytes_and_categories_agree() {
    let mut recognised = 0;
    for b in 0..=255u8 {
        match TokenType::from_byte(b) {
            Some(t) => {
                recognised += 1;
                assert_eq!(t.to_byte(), Some(b));
                assert!(is_char_valid_token(b));
            }
            None => assert!(!is_char_valid_token(b)),
        }
    }
    assert_eq!(recognised, 27);
    assert_eq!(TokenType::from_byte(b'&'), Some(TokenType::Ampersand));
    assert_eq!(TokenType::from_byte(b'@'), Some(TokenType::At));
    assert_eq!(TokenType::from_byte(b'\\'), Some(TokenType::Backslash));
    assert_eq!(TokenType::from_byte(0x0c), Some(TokenType::Feed));
    assert_eq!(TokenType::from_byte(b'a'), None);
    assert_eq!(TokenType::from_byte(255), None);
    assert_eq!(TokenType::Space.to_byte(), Some(b' '));
    assert_eq!(TokenType::Tilde.to_byte(), Some(b'~'));
    assert_eq!(TokenType::Comment.to_byte(), None);
    assert_eq!(TokenType::Word.to_byte(), None);
    assert_eq!(TokenType::Combinator.to_byte(), None);
}

#[test]
fn byte_predicates() {
    for b in 0..=255u8 {
        assert_eq!(is_whitespace(b), b" \t\n\r\x0c".contains(&b));
        assert_eq!(is_unescapable(b), b"\t\n\r\x0c".contains(&b));
        assert_eq!(is_combinator(b), b"+>~|".contains(&b));
        assert_eq!(is_single(b), b"*&!,=$^[]:;()".contains(&b));
        assert_eq!(is_quote(b), b"'\"".contains(&b));
        assert_eq!(is_hex(b), b"0123456789abcdefABCDEF".contains(&b));
        assert_eq!(
            is_word_delimiter(b),
            b" \t\n\r\x0c&*!,:;()[]'\"+|~>=$^/".contains(&b)
        );
    }
    assert!(!is_word_delimiter(b'\\'));
    assert!(!is_word_delimiter(b'@'));
}

#[test]
fn escape_of_one_byte() {
    assert_eq!(consume_escape(b"\\:x", 0), 1);
    assert_eq!(consume_escape(b"\\g", 0), 1);
    assert_eq!(consume_escape(b"\\\nx", 0), 1);
    assert_eq!(consume_escape(b"\\\tx", 0), 1);
    assert_eq!(consume_escape(b"\\\\ ", 0), 1);
    assert_eq!(consume_escape(b"ab\\ c", 2), 3);
}

#[test]
fn escape_of_hex_digits() {
    assert_eq!(consume_escape(b"\\41 b", 0), 3);
    assert_eq!(consume_escape(b"\\41b", 0), 3);
    assert_eq!(consume_escape(b"\\41", 0), 2);
    assert_eq!(consume_escape(b"\\41g", 0), 2);
    assert_eq!(consume_escape(b"\\4 ", 0), 2);
    assert_eq!(consume_escape(b"\\12345 x", 0), 6);
    assert_eq!(consume_escape(b"\\123456 x", 0), 6);
    assert_eq!(consume_escape(b"\\1234567", 0), 6);
    assert_eq!(consume_escape(b"\\aF09  ", 0), 5);
    assert_eq!(consume_escape(b"x\\41\tb", 1), 3);
}

#[test]
fn word_ends_before_a_delimiter() {
    assert_eq!(consume_word(b"abc def", 0), Some(2));
    assert_eq!(consume_word(b"abc", 0), Some(2));
    assert_eq!(consume_word(b"abc", 1), Some(2));
    assert_eq!(consume_word(b"a", 0), Some(0));
    assert_eq!(consume_word(b".a-b#c>d", 0), Some(5));
    assert_eq!(consume_word(b"a\\41 b c", 0), Some(5));
    assert_eq!(consume_word(b"a\\ b c", 0), Some(3));
    assert_eq!(consume_word(b"\\(x)", 0), Some(2));
    assert_eq!(consume_word(b"a\\\\ b", 0), Some(2));
}

#[test]
fn word_with_nothing_to_escape() {
    assert_eq!(consume_word(b"\\", 0), None);
    assert_eq!(consume_word(b"abc\\", 0), None);
    assert_eq!(consume_word(b"a\\\\\\", 0), None);
    assert_eq!(consume_word(b"a\\\\", 0), Some(2));
}

#[test]
fn parser_holds_the_token_stream() {
    let p = Parser::new("a > b", true).unwrap();
    assert_eq!(p.css(), "a > b");
    assert_eq!(p.position(), 0);
    assert!(p.lossy());
    let kinds: Vec<TokenType> = p.tokens().iter().map(|t| t.ty).collect();
    assert_eq!(
        kinds,
        vec![
            TokenType::Word,
            TokenType::Space,
            TokenType::Combinator,
            TokenType::Space,
            TokenType::Word,
        ]
    );
    assert!(!Parser::new("", false).unwrap().lossy());
    assert_eq!(Parser::new("", false).unwrap().tokens().len(), 0);
}

#[test]
fn parser_gives_the_scan_error() {
    let e = Parser::new("a /* b", false).err();
    assert_eq!(
        e,
        Some(TokenizeError { kind: ErrorKind::UnclosedComment, line: 0, column: 2, offset: 2 })
    );
}
