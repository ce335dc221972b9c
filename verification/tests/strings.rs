use roc_reporting::strings::{char_is_white_space, decimal_string, line_is_blank, repeat_char, spaces_string};

#[test]
fn decimal_matches_to_string() {
    for n in [0u64, 1, 9, 10, 11, 99, 100, 4294967296, u64::MAX] {
        assert_eq!(decimal_string(n), n.to_string());
    }
}

#[test]
fn runs_of_characters() {
    assert_eq!(spaces_string(0), "");
    assert_eq!(spaces_string(3), "   ");
    assert_eq!(repeat_char("^", 4), "^^^^");
}

#[test]
fn white_space_matches_std() {
    for u in 0u32..0x3100 {
        if let Some(c) = char::from_u32(u) {
            assert_eq!(char_is_white_space(c), c.is_whitespace(), "{:x}", u);
        }
    }
}

#[test]
fn blank_lines() {
    assert!(line_is_blank(""));
    assert!(line_is_blank("  \t \u{3000}"));
    assert!(!line_is_blank("  x "));
    for line in ["", " ", "a", " \u{a0}b", "\u{2028}"] {
        assert_eq!(line_is_blank(line), line.trim().is_empty());
    }
}
