use lesson_viewer::text::{
    chars_of, decimal_chars, find_chars, is_space_char, repeat_char, split_lines, trim_chars,
};

fn s(v: &[char]) -> String {
    v.iter().collect()
}

#[test]
fn lines_split_like_str_lines() {
    for text in ["", "a", "a\n", "a\r\nb", "a\n\nb\n", "x\r", "\n", "a\rb\n"] {
        let got: Vec<String> = split_lines(&chars_of(text)).iter().map(|l| s(l)).collect();
        let want: Vec<String> = text.lines().map(|l| l.to_string()).collect();
        assert_eq!(got, want, "for {:?}", text);
    }
}

#[test]
fn trim_like_str_trim() {
    for text in ["", "  a b  ", "\u{3000}x\u{a0}", "\t\n", "abc"] {
        assert_eq!(s(&trim_chars(&chars_of(text))), text.trim());
    }
}

#[test]
fn whitespace_like_char_is_whitespace() {
    for c in ['\t', '\n', ' ', '\u{85}', '\u{a0}', '\u{2003}', '\u{3000}', 'a', '_', '\u{200b}'] {
        assert_eq!(is_space_char(c), c.is_whitespace());
    }
}

#[test]
fn find_gives_first_match() {
    let t = chars_of("a](b](c");
    assert_eq!(find_chars(&t, &[']', '('], 0), Some(1));
    assert_eq!(find_chars(&t, &[']', '('], 2), Some(4));
    assert_eq!(find_chars(&t, &['x'], 0), None);
}

#[test]
fn decimal_digits() {
    assert_eq!(s(&decimal_chars(0)), "0");
    assert_eq!(s(&decimal_chars(907)), "907");
    assert_eq!(s(&decimal_chars(u64::MAX)), u64::MAX.to_string());
}

#[test]
fn repeat_and_build() {
    assert_eq!(s(&repeat_char('─', 3)), "───");
}
