use tripi_daemon::text::{chars_of, is_white_space, split_once_chars, string_of, trimmed};

#[test]
fn white_space_matches_char_is_whitespace_everywhere() {
    for u in 0u32..=0x10FFFF {
        if let Some(c) = char::from_u32(u) {
            assert_eq!(is_white_space(c), c.is_whitespace(), "disagree on U+{u:04X}");
        }
    }
}

#[test]
fn trimmed_matches_str_trim() {
    for s in ["", "  ", " a b ", "\u{3000}x\u{a0}", "\t\r\nk = v\r\n", "abc"] {
        assert_eq!(string_of(&trimmed(&chars_of(s))), s.trim());
    }
}

#[test]
fn split_once_chars_matches_str_split_once() {
    for s in ["a=b", "=b", "a=", "a", "a=b=c", ""] {
        let got = split_once_chars(&chars_of(s), '=')
            .map(|(a, b)| (string_of(&a), string_of(&b)));
        let want = s.split_once('=').map(|(a, b)| (a.to_string(), b.to_string()));
        assert_eq!(got, want);
    }
}
