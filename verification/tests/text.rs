use terminite::text::{
    agent_name_from_slug, chars_of, contains, has_prefix, is_blank, is_control, is_white, lines_of,
    pad, push_number, text_between, text_of, trim,
};

#[test]
fn names_come_from_slugs() {
    assert_eq!(agent_name_from_slug("codex-1"), "Codex");
    assert_eq!(agent_name_from_slug("qwen-gut-red"), "Qwen");
    assert_eq!(agent_name_from_slug("kimi"), "Kimi");
    assert_eq!(agent_name_from_slug("-x"), "-x");
    assert_eq!(agent_name_from_slug(""), "");
    for c in 'a'..='z' {
        let capital = c.to_ascii_uppercase();
        assert_eq!(agent_name_from_slug(&format!("{c}x-1")), format!("{capital}x"));
    }
    // One character can have an upper-case form of two.
    assert_eq!(agent_name_from_slug("ßa-1"), "SSa");
}

#[test]
fn white_space_is_that_of_std() {
    for n in 0..=0x10ffffu32 {
        if let Some(c) = char::from_u32(n) {
            assert_eq!(is_white(c), c.is_whitespace(), "{n:x}");
        }
    }
}

#[test]
fn control_codes_are_those_of_std() {
    for n in 0..=0x10ffffu32 {
        if let Some(c) = char::from_u32(n) {
            assert_eq!(is_control(c), c.is_control(), "{n:x}");
        }
    }
}

#[test]
fn trimming_is_that_of_std() {
    for s in ["", " ", "a", " a", "a ", " \t a b \n", "\u{3000}x\u{2003}", "ab", "\u{a0}"] {
        assert_eq!(trim(s), s.trim());
        assert_eq!(is_blank(s), s.trim().is_empty());
    }
}

#[test]
fn lines_are_those_of_std() {
    for s in ["", "a", "a\n", "a\nb", "a\r\nb\r\n", "\n", "\n\n", "a\r", "a\r\r\n", "x\n\ny"] {
        let want: Vec<String> = s.lines().map(String::from).collect();
        assert_eq!(lines_of(s), want, "{s:?}");
    }
}

#[test]
fn strings_and_characters_convert() {
    let v = chars_of("añ→");
    assert_eq!(v, vec!['a', 'ñ', '→']);
    assert_eq!(text_of(&v), "añ→");
    assert_eq!(text_between(&v, 1, 3), "ñ→");
    assert_eq!(text_between(&v, 2, 2), "");
}

#[test]
fn searching_in_strings() {
    assert!(contains("split right", "it r"));
    assert!(contains("abc", ""));
    assert!(!contains("ab", "abc"));
    assert!(!contains("aab", "abb"));
    assert!(has_prefix("https://x", "https://"));
    assert!(!has_prefix("http", "https"));
}

#[test]
fn numbers_in_decimal() {
    for n in [0u64, 7, 10, 99, 100, 12345, u64::MAX] {
        let mut s = String::from("n=");
        push_number(&mut s, n);
        assert_eq!(s, format!("n={n}"));
    }
}

#[test]
fn padding_is_that_of_format() {
    assert_eq!(pad("ab", 5), format!("{:<5}", "ab"));
    assert_eq!(pad("abcdef", 5), "abcdef");
    assert_eq!(pad("añ", 4), "añ  ");
}
