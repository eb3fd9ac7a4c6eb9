use git_notes::decimal::parse_size;
use git_notes::lines::{first_line_of, lines_of};
use git_notes::text::same_text;
use git_notes::words::{trimmed, white, words_of};

#[test]
fn white_space_is_unicode_white_space() {
    let mut v: u32 = 0;
    while v <= 0x10ffff {
        if let Some(c) = char::from_u32(v) {
            assert_eq!(white(c), c.is_whitespace(), "{:x}", v);
        }
        v += 1;
    }
}

#[test]
fn words_and_trimming_agree_with_std() {
    for s in ["", " ", "a", " a\u{2003}b\tc\u{85} ", "\u{a0}x y\n", "é  ü\r\n", "\u{200b} z"] {
        let ours: Vec<String> = words_of(s);
        let theirs: Vec<&str> = s.split_whitespace().collect();
        assert_eq!(ours, theirs);
        assert_eq!(trimmed(s), s.trim());
    }
}

const TEXTS: [&str; 14] = [
    "", "\n", "a", "a\n", "a\r\n", "a\r", "\r\n\r\n", "a\n\nb", "a\nb\n", "\n a", "a\r\r\n", "é\nü",
    "x\r\ny\r\n", "\u{2028}a\u{b}b",
];

#[test]
fn lines_agree_with_std() {
    for s in TEXTS {
        let theirs: Vec<&str> = s.lines().collect();
        assert_eq!(lines_of(s), theirs, "{:?}", s);
        assert_eq!(first_line_of(s), s.lines().next().unwrap_or(""), "{:?}", s);
    }
}

#[test]
fn sizes_agree_with_std() {
    for s in [
        "", "0", "7", "0042", "+5", "+", "-1", "-0", " 1", "1 ", "12a", "18446744073709551615",
        "18446744073709551616", "99999999999999999999999", "++1", "1_000", "\u{663}", "4294967296",
        "+00000000000000000000000000000000009",
    ] {
        assert_eq!(parse_size(s), s.parse::<usize>().ok(), "{:?}", s);
    }
}

#[test]
fn texts_are_told_apart() {
    assert!(same_text("", ""));
    assert!(same_text("é\n", "é\n"));
    assert!(!same_text("a", "ab"));
    assert!(!same_text("ab", "a"));
    assert!(!same_text("ab", "ac"));
}
