use rxpect::text::{
    chars_of, indent, is_whitespace, join_failures, push_decimal, text_of, trim_end,
};

#[test]
fn that_white_space_is_the_unicode_property() {
    for code in 0..=0x10ffffu32 {
        if let Some(c) = char::from_u32(code) {
            assert_eq!(is_whitespace(c), c.is_whitespace(), "U+{:04X}", code);
        }
    }
}

#[test]
fn that_characters_and_text_convert_both_ways() {
    let chars = chars_of("aß語\n ");
    assert_eq!(chars, vec!['a', 'ß', '語', '\n', ' ']);
    assert_eq!(text_of(&chars), "aß語\n ");
    assert_eq!(chars_of(""), vec![]);
    assert_eq!(text_of(&vec![]), "");
}

#[test]
fn that_trim_end_removes_trailing_white_space_only() {
    let mut chars = chars_of(" \ta b \n\u{2003}\r\n");
    trim_end(&mut chars);
    assert_eq!(text_of(&chars), " \ta b");

    let mut blank = chars_of(" \n\t");
    trim_end(&mut blank);
    assert_eq!(text_of(&blank), "");
}

#[test]
fn that_join_puts_one_line_feed_between_messages() {
    let messages = vec!["first".to_string(), "second\nline".to_string(), "third".to_string()];
    assert_eq!(join_failures(&messages), "first\nsecond\nline\nthird");
    assert_eq!(join_failures(&vec!["only".to_string()]), "only");
    assert_eq!(join_failures(&vec![]), "");
    assert_eq!(join_failures(&vec!["  kept".to_string(), "cut  ".to_string()]), "  kept\ncut");
}

#[test]
fn that_indent_puts_two_spaces_before_every_line() {
    assert_eq!(
        indent("this\nis\na\nmultiline\nmessage"),
        "  this\n  is\n  a\n  multiline\n  message"
    );
    assert_eq!(indent("one"), "  one");
    assert_eq!(indent(&indent("a\nb")), "    a\n    b");
}

#[test]
fn that_indent_handles_line_endings_and_empty_lines() {
    assert_eq!(indent(""), "");
    assert_eq!(indent("a\n"), "  a");
    assert_eq!(indent("a\r\nb"), "  a\n  b");
    assert_eq!(indent("a\rb"), "  a\rb");
    assert_eq!(indent("a\r"), "  a");
    assert_eq!(indent("a\n\nb"), "  a\n  \n  b");
    assert_eq!(indent("\n"), "");
    assert_eq!(indent("a\r\r\nb"), "  a\r\n  b");
}

#[test]
fn that_indent_splits_lines_as_the_standard_library_does() {
    let samples = [
        "",
        "a",
        "a\nb",
        "a\n",
        "\na",
        "\n\n",
        "a\r\nb\r\n",
        "a\rb\r",
        "\r\n",
        "\r",
        "a\r\r\nb",
        "  already\n\tindented \n",
        "ends in spaces   ",
        "语\n\u{2003}\nß",
    ];
    for sample in samples {
        let expected = sample
            .lines()
            .map(|line| "  ".to_string() + line)
            .fold(String::new(), |a, b| a + &b + "\n")
            .trim_end()
            .to_owned();
        assert_eq!(indent(sample), expected, "{:?}", sample);
    }
}

#[test]
fn that_numbers_are_written_in_decimal() {
    for n in [0usize, 1, 9, 10, 11, 99, 100, 101, 1234567890, usize::MAX] {
        let mut out = String::from("n=");
        push_decimal(&mut out, n);
        assert_eq!(out, format!("n={}", n));
    }
}
