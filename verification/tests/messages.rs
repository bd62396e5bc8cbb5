use plugin_selector_parser::util::{decimal_string, expected, is_vowel};

#[test]
fn decimal_digits() {
    assert_eq!(decimal_string(0), "0");
    assert_eq!(decimal_string(7), "7");
    assert_eq!(decimal_string(10), "10");
    assert_eq!(decimal_string(1234567890), "1234567890");
    assert_eq!(decimal_string(usize::MAX), usize::MAX.to_string());
}

#[test]
fn vowels_take_an() {
    for c in ['a', 'e', 'i', 'o', 'u'] {
        assert!(is_vowel(c));
    }
    for c in ['b', 'y', 'A', ' ', '0'] {
        assert!(!is_vowel(c));
    }
}

#[test]
fn expected_names_the_alternatives() {
    assert_eq!(
        expected(vec!["attribute", "id"], 12, Some("x")),
        "Expected an attribute or id, found \"x\" instead. At #12"
    );
    assert_eq!(expected(vec!["a", "b", "c"], 0, None), "Expected an a, b or c. At #0");
    assert_eq!(
        expected(vec!["word", "comma", "space", "colon"], 305, None),
        "Expected a word, comma, space or colon. At #305"
    );
}

#[test]
fn expected_with_one_alternative() {
    assert_eq!(
        expected(vec!["opening parenthesis"], 5, None),
        "Expected a  or opening parenthesis. At #5"
    );
}

#[test]
fn expected_with_no_alternative() {
    assert_eq!(expected(vec![], 9, None), "Expected a  or . At #9");
    assert_eq!(expected(vec![], 9, Some("")), "Expected a  or , found \"\" instead. At #9");
}
