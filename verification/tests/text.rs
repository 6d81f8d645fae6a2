use bestmatch::text::{decimal_string, push_decimal, push_signed_decimal, same_text};
use bestmatch::whitespace::{is_whitespace_char, whitespace_tokens};

#[test]
fn numerals_of_unsigned_integers() {
    assert_eq!(decimal_string(0), "0");
    assert_eq!(decimal_string(7), "7");
    assert_eq!(decimal_string(10), "10");
    assert_eq!(decimal_string(109), "109");
    assert_eq!(decimal_string(1000), "1000");
    assert_eq!(decimal_string(4294967296), "4294967296");
    assert_eq!(decimal_string(u64::MAX), "18446744073709551615");
}

#[test]
fn numerals_agree_with_the_standard_rendering() {
    let samples: Vec<u64> = vec![0, 1, 9, 10, 11, 99, 100, 101, 12345, 99999, 1 << 32, u64::MAX - 1];
    for n in samples {
        assert_eq!(decimal_string(n), n.to_string());
    }
}

#[test]
fn numerals_are_appended_to_what_is_there() {
    let mut out = String::from("x=");
    push_decimal(&mut out, 42);
    out.push(',');
    push_decimal(&mut out, 0);
    assert_eq!(out, "x=42,0");
}

#[test]
fn numerals_of_signed_integers() {
    let cases: Vec<(i64, &str)> = vec![
        (0, "0"),
        (5, "5"),
        (-5, "-5"),
        (-10, "-10"),
        (2147483647, "2147483647"),
        (-2147483648, "-2147483648"),
        (i64::MAX, "9223372036854775807"),
        (i64::MIN, "-9223372036854775808"),
    ];
    for (n, expected) in cases {
        let mut out = String::new();
        push_signed_decimal(&mut out, n);
        assert_eq!(out, expected);
    }
}

#[test]
fn same_text_compares_character_by_character() {
    assert!(same_text("", ""));
    assert!(same_text("hf", "hf"));
    assert!(same_text("秋季", "秋季"));
    assert!(!same_text("hf", "h"));
    assert!(!same_text("h", "hf"));
    assert!(!same_text("", "hf"));
    assert!(!same_text("hf", ""));
    assert!(!same_text("hf", "hg"));
    assert!(!same_text("hf", "HF"));
    assert!(!same_text("pgvector", "pgvecto.rs"));
}

#[test]
fn whitespace_is_the_unicode_property() {
    let spaces: Vec<char> = vec![
        '\t', '\n', '\u{000B}', '\u{000C}', '\r', ' ', '\u{0085}', '\u{00A0}', '\u{1680}',
        '\u{2000}', '\u{2005}', '\u{200A}', '\u{2028}', '\u{2029}', '\u{202F}', '\u{205F}',
        '\u{3000}',
    ];
    for c in spaces {
        assert!(is_whitespace_char(c));
    }
    let others: Vec<char> = vec![
        'a', '0', '\u{0008}', '\u{000E}', '\u{001F}', '\u{0084}', '\u{0086}', '\u{1FFF}',
        '\u{200B}', '\u{2027}', '\u{202A}', '\u{2060}', '\u{2FFF}', '\u{3001}', '\u{FEFF}', '。',
    ];
    for c in others {
        assert!(!is_whitespace_char(c));
    }
}

#[test]
fn whitespace_agrees_with_the_standard_library_everywhere() {
    let mut code: u32 = 0;
    while code <= 0x10FFFF {
        if let Some(c) = char::from_u32(code) {
            assert_eq!(is_whitespace_char(c), c.is_whitespace());
        }
        code += 1;
    }
}

#[test]
fn splitting_keeps_the_words_in_order() {
    assert_eq!(whitespace_tokens("i have an apple"), vec!["i", "have", "an", "apple"]);
    assert_eq!(whitespace_tokens("apple"), vec!["apple"]);
    assert_eq!(whitespace_tokens("a a b a"), vec!["a", "a", "b", "a"]);
}

#[test]
fn splitting_drops_every_run_of_whitespace() {
    assert_eq!(whitespace_tokens(""), Vec::<String>::new());
    assert_eq!(whitespace_tokens("   "), Vec::<String>::new());
    assert_eq!(whitespace_tokens("  lead"), vec!["lead"]);
    assert_eq!(whitespace_tokens("trail \n"), vec!["trail"]);
    assert_eq!(whitespace_tokens("a \t\r\n b"), vec!["a", "b"]);
    assert_eq!(whitespace_tokens("\u{3000}測試\u{2003}版本\u{00A0}"), vec!["測試", "版本"]);
    // A zero-width space is no whitespace.
    assert_eq!(whitespace_tokens("a\u{200B}b"), vec!["a\u{200B}b"]);
}

#[test]
fn splitting_agrees_with_the_standard_library() {
    let samples: Vec<&str> = vec![
        "",
        " ",
        "one",
        " one two  three ",
        "tab\tseparated\tvalues",
        "line\nbreaks\r\nand\u{2028}more",
        "mixed \u{1680}ogham\u{205F}math\u{202F}narrow",
        "no-break\u{00A0}space and next\u{0085}line",
    ];
    for text in samples {
        let expected: Vec<String> = text.split_whitespace().map(|w| w.to_string()).collect();
        assert_eq!(whitespace_tokens(text), expected);
    }
}
