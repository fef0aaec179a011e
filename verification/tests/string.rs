use rxpect::expectations::string::{of_kind, CharKind};
use rxpect::expectations::StringExpectations;
use rxpect::{expect, CheckResult, RootExpectations};
use std::fmt::Debug;

fn passes<T: Debug>(expectations: RootExpectations<'_, T>) -> bool {
    matches!(expectations.check(), CheckResult::Pass)
}

fn report<T: Debug>(expectations: RootExpectations<'_, T>) -> String {
    match expectations.check() {
        CheckResult::Fail(message) => message,
        CheckResult::Pass => panic!("Result was a pass when failure was expected"),
    }
}

#[test]
fn that_to_contain_passes_when_string_contains_the_substring() {
    for (actual, substring) in [("", ""), ("foobar", "foo"), ("foobar", "bar"), ("foobar", "oob"), ("foobar", "")] {
        assert!(passes(expect(actual).to_contain(substring)));
        assert!(!passes(expect(actual).to_not_contain(substring)));
    }
}

#[test]
fn that_to_contain_does_not_pass_when_string_does_not_contain_the_substring() {
    for (actual, substring) in [("", "foo"), ("foobar", "rab"), ("foobar", "oof"), ("foobar", "boo")] {
        assert!(!passes(expect(actual).to_contain(substring)));
        assert!(passes(expect(actual).to_not_contain(substring)));
    }
}

#[test]
fn that_to_contain_reports_the_string_and_the_substring() {
    assert_eq!(report(expect("foobar").to_contain("rab")), "Expected \"foobar\" to contain \"rab\"");
    assert_eq!(
        report(expect("foobar").to_not_contain("oob")),
        "Expected \"foobar\" to not contain \"oob\""
    );
}

#[test]
fn that_to_contain_works_on_owned_strings() {
    assert!(passes(expect("Hello, world!".to_string()).to_contain("world")));
    assert!(!passes(expect("Hello, world!".to_string()).to_contain("World")));
}

#[test]
fn that_to_have_length_passes_when_string_has_expected_length() {
    for (actual, length) in [("", 0), ("a", 1), ("ab", 2), ("abc", 3), ("abcd", 4)] {
        assert!(passes(expect(actual).to_have_length(length)));
    }
}

#[test]
fn that_to_have_length_does_not_pass_when_string_does_not_have_expected_length() {
    for (actual, length) in [("", 1), ("a", 0), ("ab", 3), ("abc", 2), ("abcd", 5)] {
        assert!(!passes(expect(actual).to_have_length(length)));
    }
}

#[test]
fn that_to_have_length_counts_bytes_and_reports_both_lengths() {
    assert!(passes(expect("абв").to_have_length(6)));
    assert_eq!(
        report(expect("Hello").to_have_length(120)),
        "Expected \"Hello\" to have length 120, but it has length 5"
    );
    assert_eq!(
        report(expect("").to_have_length(7)),
        "Expected \"\" to have length 7, but it has length 0"
    );
    assert_eq!(
        report(expect("0123456789").to_have_length(18446744073709551615)),
        "Expected \"0123456789\" to have length 18446744073709551615, but it has length 10"
    );
}

#[test]
fn that_to_start_with_passes_when_string_starts_with_prefix() {
    for (actual, prefix) in [("", ""), ("foobar", "foo"), ("foobar", "f"), ("foobar", "")] {
        assert!(passes(expect(actual).to_start_with(prefix)));
    }
}

#[test]
fn that_to_start_with_does_not_pass_when_string_does_not_start_with_prefix() {
    for (actual, prefix) in [("", "foo"), ("foobar", "bar"), ("foobar", "oo"), ("foobar", "foobar1")] {
        assert!(!passes(expect(actual).to_start_with(prefix)));
    }
    assert_eq!(
        report(expect("foobar").to_start_with("bar")),
        "Expected \"foobar\" to start with \"bar\""
    );
}

#[test]
fn that_to_end_with_passes_when_string_ends_with_suffix() {
    for (actual, suffix) in [("", ""), ("foobar", "bar"), ("foobar", "r"), ("foobar", "")] {
        assert!(passes(expect(actual).to_end_with(suffix)));
    }
}

#[test]
fn that_to_end_with_does_not_pass_when_string_does_not_end_with_suffix() {
    for (actual, suffix) in [("", "foo"), ("foobar", "foo"), ("foobar", "ba"), ("foobar", "1foobar")] {
        assert!(!passes(expect(actual).to_end_with(suffix)));
    }
    assert_eq!(
        report(expect("foobar").to_end_with("foo")),
        "Expected \"foobar\" to end with \"foo\""
    );
}

#[test]
fn that_to_be_empty_passes_when_string_is_empty() {
    assert!(passes(expect("").to_be_empty()));
}

#[test]
fn that_to_be_empty_does_not_pass_when_string_is_not_empty() {
    for actual in ["a", "foo", " "] {
        assert!(!passes(expect(actual).to_be_empty()));
    }
    assert_eq!(report(expect("foo").to_be_empty()), "Expected \"foo\" to be empty");
}

#[test]
fn that_to_be_all_whitespace_passes_when_string_is_all_whitespace() {
    for actual in ["", " ", "  ", "\t", "\n", " \t\n\r", "\u{a0}\u{2003}\u{3000}"] {
        assert!(passes(expect(actual).to_be_all_whitespace()));
    }
}

#[test]
fn that_to_be_all_whitespace_does_not_pass_when_string_is_not_all_whitespace() {
    for actual in ["a", "foo", " a", "a ", " a ", "\u{200b}"] {
        assert!(!passes(expect(actual).to_be_all_whitespace()));
    }
    assert_eq!(report(expect("a").to_be_all_whitespace()), "Expected \"a\" to be all whitespace");
}

#[test]
fn that_white_space_is_what_the_standard_library_says() {
    for code in 0..=0x3100u32 {
        if let Some(c) = char::from_u32(code) {
            let text = c.to_string();
            assert_eq!(passes(expect(text).to_be_all_whitespace()), c.is_whitespace());
        }
    }
}

#[test]
fn that_to_be_alphabetic_passes_when_string_is_alphabetic() {
    for actual in ["a", "abc", "Abc", "ABC", "абв"] {
        assert!(passes(expect(actual).to_be_alphabetic()));
    }
}

#[test]
fn that_to_be_alphabetic_does_not_pass_when_string_is_not_alphabetic() {
    for actual in ["", "123", "a1", "1a", "a b", "a-b"] {
        assert!(!passes(expect(actual).to_be_alphabetic()));
    }
    assert_eq!(report(expect("a1").to_be_alphabetic()), "Expected \"a1\" to be alphabetic");
}

#[test]
fn that_to_be_numeric_passes_when_string_is_numeric() {
    for actual in ["0", "123", "١٢٣"] {
        assert!(passes(expect(actual).to_be_numeric()));
    }
}

#[test]
fn that_to_be_numeric_does_not_pass_when_string_is_not_numeric() {
    for actual in ["", "abc", "1a", "a1", "1 2", "1-2"] {
        assert!(!passes(expect(actual).to_be_numeric()));
    }
    assert_eq!(report(expect("1a").to_be_numeric()), "Expected \"1a\" to be numeric");
}

#[test]
fn that_to_be_alphanumeric_passes_when_string_is_alphanumeric() {
    for actual in ["a", "1", "abc123", "ABC123", "абв١٢٣"] {
        assert!(passes(expect(actual).to_be_alphanumeric()));
    }
}

#[test]
fn that_to_be_alphanumeric_does_not_pass_when_string_is_not_alphanumeric() {
    for actual in ["", "a b", "a-b", "a_b", "a.b"] {
        assert!(!passes(expect(actual).to_be_alphanumeric()));
    }
    assert_eq!(report(expect("a b").to_be_alphanumeric()), "Expected \"a b\" to be alphanumeric");
}

#[test]
fn that_character_kinds_are_what_the_standard_library_says() {
    for code in 0..=0x10ffffu32 {
        if let Some(c) = char::from_u32(code) {
            assert_eq!(of_kind(&CharKind::Whitespace, c), c.is_whitespace());
            assert_eq!(of_kind(&CharKind::Alphabetic, c), c.is_alphabetic());
            assert_eq!(of_kind(&CharKind::Numeric, c), c.is_numeric());
            assert_eq!(of_kind(&CharKind::Alphanumeric, c), c.is_alphabetic() || c.is_numeric());
        }
    }
}
