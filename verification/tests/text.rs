use unix_mode::text::{chars_of, is_space, octal_string, octal_string_padded, trim};

#[test]
fn white_space_is_what_std_calls_white_space() {
    for n in 0..=0x10FFFFu32 {
        if let Some(c) = char::from_u32(n) {
            assert_eq!(is_space(c), c.is_whitespace(), "U+{:04X}", n);
        }
    }
}

#[test]
fn trim_agrees_with_std() {
    let samples = [
        "",
        " ",
        "   \t\n",
        "755",
        " 755",
        "755 ",
        "  7 5 5  ",
        "\u{3000}rwx\u{a0}\u{2009}",
        "\u{200b} x \u{200b}",
        "a",
        " a",
        "a ",
        "\r\n\u{85}abc\u{c}\u{b}",
    ];
    for sample in samples {
        let chars: Vec<char> = sample.chars().collect();
        let expected: Vec<char> = sample.trim().chars().collect();
        assert_eq!(trim(&chars), &expected[..], "{:?}", sample);
    }
}

#[test]
fn chars_of_lists_the_characters() {
    assert_eq!(chars_of(""), Vec::<char>::new());
    assert_eq!(chars_of("755"), vec!['7', '5', '5']);
    assert_eq!(chars_of("r\u{e9}\u{3000}x"), vec!['r', '\u{e9}', '\u{3000}', 'x']);
}

#[test]
fn octal_string_writes_base_eight() {
    assert_eq!(octal_string(0), "0");
    assert_eq!(octal_string(7), "7");
    assert_eq!(octal_string(8), "10");
    assert_eq!(octal_string(0o755), "755");
    assert_eq!(octal_string(0o1712), "1712");
    for v in (0..5000usize).chain([usize::MAX, usize::MAX - 1, 1 << 20]) {
        assert_eq!(octal_string(v), format!("{:o}", v));
    }
}

#[test]
fn octal_string_padded_has_three_digits_or_more() {
    assert_eq!(octal_string_padded(0), "000");
    assert_eq!(octal_string_padded(5), "005");
    assert_eq!(octal_string_padded(0o10), "010");
    assert_eq!(octal_string_padded(0o77), "077");
    assert_eq!(octal_string_padded(0o100), "100");
    assert_eq!(octal_string_padded(0o7777), "7777");
    assert_eq!(octal_string_padded(0o12345), "12345");
}
