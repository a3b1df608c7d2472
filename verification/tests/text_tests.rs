use markus::text::{
    chars_equal, chars_of, contains_chars, find_char, is_whitespace, parse_hex_u8, parse_u64, parse_usize, push_decimal,
    rfind_char, starts_with, strip_cr_chars, trim_chars, with_decimal,
};

fn cs(s: &str) -> Vec<char> {
    s.chars().collect()
}

#[test]
fn chars_of_keeps_every_character() {
    assert_eq!(chars_of("añ€😀"), vec!['a', 'ñ', '€', '😀']);
    assert!(chars_of("").is_empty());
}

#[test]
fn decimal_spelling_matches_display() {
    for n in [0u64, 7, 10, 99, 100, 12345, u64::MAX] {
        assert_eq!(with_decimal("n=", n), format!("n={}", n));
        let mut v = cs("x");
        push_decimal(&mut v, n);
        assert_eq!(v.iter().collect::<String>(), format!("x{}", n));
    }
}

#[test]
fn parse_u64_agrees_with_std() {
    let samples = [
        "0", "7", "+7", "007", "18446744073709551615", "18446744073709551616", "99999999999999999999", "", "+",
        "-0", "-1", " 1", "1 ", "1a", "٣", "+-1", "++1", "12345678901234567890",
    ];
    for s in samples {
        assert_eq!(parse_u64(&cs(s)), s.parse::<u64>().ok(), "input {:?}", s);
        assert_eq!(parse_usize(&cs(s)), s.parse::<usize>().ok(), "input {:?}", s);
    }
}

#[test]
fn parse_reads_back_every_decimal() {
    for n in [0u64, 1, 9, 10, 4096, 1 << 33, u64::MAX] {
        let text = with_decimal("", n);
        assert_eq!(parse_u64(&cs(&text)), Some(n));
    }
}

#[test]
fn parse_hex_agrees_with_std() {
    let samples = ["00", "7f", "7F", "ff", "FF", "100", "", "+1", "-1", "g", "0x1", "1"];
    for s in samples {
        assert_eq!(parse_hex_u8(&cs(s)), u8::from_str_radix(s, 16).ok(), "input {:?}", s);
    }
}

#[test]
fn trim_agrees_with_std() {
    let samples = ["  a b  ", "\t\n x\r\n", "", "   ", "\u{3000}y\u{85}", "z", " \u{200B}w "];
    for s in samples {
        let t: String = trim_chars(&cs(s)).iter().collect();
        assert_eq!(t, s.trim(), "input {:?}", s);
    }
}

#[test]
fn whitespace_agrees_with_std() {
    for c in ['\t', '\n', '\u{b}', '\u{c}', '\r', ' ', '\u{85}', '\u{a0}', '\u{1680}', '\u{2000}', '\u{200a}', '\u{2028}',
        '\u{2029}', '\u{202f}', '\u{205f}', '\u{3000}', 'a', '\u{200b}', '\u{1c}', '_'] {
        assert_eq!(is_whitespace(c), c.is_whitespace(), "char {:?}", c);
    }
}

#[test]
fn searching() {
    let s = cs("a/b/c?d");
    assert_eq!(find_char(&s, '/'), Some(1));
    assert_eq!(rfind_char(&s, '/'), Some(3));
    assert_eq!(find_char(&s, 'z'), None);
    assert_eq!(rfind_char(&s, 'z'), None);
    assert!(starts_with(&s, &cs("a/")));
    assert!(!starts_with(&s, &cs("b")));
    assert!(chars_equal(&cs("abc"), &cs("abc")));
    assert!(!chars_equal(&cs("abc"), &cs("abd")));
    assert!(contains_chars(&cs("llama-server"), &cs("server")));
    assert!(contains_chars(&cs("x"), &cs("")));
    assert!(!contains_chars(&cs("lla"), &cs("llama")));
}

#[test]
fn strip_cr_removes_one_final_carriage_return() {
    assert_eq!(strip_cr_chars(&cs("ab\r")), &cs("ab")[..]);
    assert_eq!(strip_cr_chars(&cs("ab\r\r")), &cs("ab\r")[..]);
    assert_eq!(strip_cr_chars(&cs("ab")), &cs("ab")[..]);
}
