use xlm_ns::common::text::{
    char_is_white_space, char_utf8_width_exec, str_equals, str_is_blank, utf8_len_capped,
};

#[test]
fn white_space_matches_std_for_every_char() {
    for code in 0u32..=0x10ffff {
        if let Some(c) = char::from_u32(code) {
            assert_eq!(char_is_white_space(c), c.is_whitespace(), "{code:#x}");
            assert_eq!(char_utf8_width_exec(c), c.len_utf8(), "{code:#x}");
        }
    }
}

#[test]
fn blank_means_trimmed_empty() {
    for s in ["", " ", "\t\n", "\u{a0}\u{3000}", " a ", "a", "\u{200b}"] {
        assert_eq!(str_is_blank(s), s.trim().is_empty(), "{s:?}");
    }
}

#[test]
fn capped_length_counts_bytes() {
    assert_eq!(utf8_len_capped("abc", 10), 3);
    assert_eq!(utf8_len_capped("é€😀", 10), "é€😀".len());
    assert!(utf8_len_capped(&"x".repeat(100), 10) > 10);
    assert!(str_equals("abc", "abc"));
    assert!(!str_equals("abc", "abd"));
    assert!(!str_equals("abc", "ab"));
}
