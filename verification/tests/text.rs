use zeroclaw_api::text::{
    chars_of, contains, decimal_text, find_from, is_white_space, starts_with, trim,
};

#[test]
fn white_space_is_that_of_char_for_every_character() {
    for n in 0..=0x10ffffu32 {
        if let Some(c) = char::from_u32(n) {
            assert_eq!(is_white_space(c), c.is_whitespace(), "U+{n:04X}");
        }
    }
}

const SAMPLES: [&str; 14] = [
    "", " ", "\n\t", "a", " a", "a ", " a b ", "\u{85}x\u{a0}", "\u{3000}你好\u{2028}", "aab", "aaab",
    "abab", "<<think>", "x\u{200b}",
];

#[test]
fn trimming_agrees_with_str() {
    for sample in SAMPLES {
        assert_eq!(trim(sample), sample.trim());
        assert_eq!(trim(trim(sample)), trim(sample));
    }
}

#[test]
fn searching_agrees_with_str() {
    for text in SAMPLES {
        for pattern in SAMPLES {
            assert_eq!(starts_with(text, pattern), text.starts_with(pattern));
            assert_eq!(contains(text, pattern), text.contains(pattern));
        }
    }
}

#[test]
fn finding_counts_characters() {
    let text = chars_of("äbäb");
    assert_eq!(find_from(&text, &chars_of("b"), 0), Some(1));
    assert_eq!(find_from(&text, &chars_of("b"), 2), Some(3));
    assert_eq!(find_from(&text, &chars_of("b"), 4), None);
    assert_eq!(find_from(&text, &chars_of(""), 4), Some(4));
    assert_eq!(find_from(&text, &chars_of("bb"), 0), None);
}

#[test]
fn decimal_notation_is_exact() {
    for n in [0, 1, 9, 10, 11, 99, 100, 101, 1000, 65_535, usize::MAX] {
        assert_eq!(decimal_text(n), n.to_string());
        assert_eq!(decimal_text(n).parse::<usize>(), Ok(n));
    }
}
