use openharness::boot::parse_url;
use openharness::stream::read_stream_lines;
use openharness::text::{
    chars_of, control, decimal_text, find_chars, has_text, joined, same_text, shortened,
    split_text, text_after, text_between, trimmed, trimmed_end, white_space, words_of,
};

#[test]
fn characters_are_classified_as_the_standard_library_does() {
    for code in 0..=0x3100u32 {
        if let Some(c) = char::from_u32(code) {
            assert_eq!(white_space(c), c.is_whitespace(), "{code:x}");
            assert_eq!(control(c), c.is_control(), "{code:x}");
        }
    }
    for c in ['\u{10ffff}', '\u{e000}', '\u{1f600}', '\u{feff}'] {
        assert_eq!(white_space(c), c.is_whitespace());
        assert_eq!(control(c), c.is_control());
    }
}

#[test]
fn texts_are_trimmed_and_trimming_again_changes_nothing() {
    for text in ["", "  ", " a b ", "\u{3000}x\r\n", "\n\t-\u{85}"] {
        assert_eq!(trimmed(text), text.trim());
        assert_eq!(trimmed_end(text), text.trim_end());
        assert_eq!(trimmed(&trimmed(text)), trimmed(text));
    }
}

#[test]
fn splitting_and_joining_undo_each_other() {
    for text in ["", "/", "a", "/a//b/", "a/b"] {
        let parts = split_text(text, '/');
        assert_eq!(parts, text.split('/').collect::<Vec<_>>());
        assert_eq!(joined(&parts, "/"), text);
    }
    let parts = vec!["x".to_string(), String::new(), "y".to_string()];
    assert_eq!(split_text(&joined(&parts, "."), '.'), parts);
    assert_eq!(joined(&Vec::new(), ", "), "");
}

#[test]
fn words_are_what_stands_between_white_space() {
    for text in ["", " ", "a", " a  bc\u{a0}d ", "\ta\n"] {
        assert_eq!(words_of(text), text.split_whitespace().collect::<Vec<_>>());
    }
}

#[test]
fn texts_are_searched() {
    assert_eq!(find_chars(&chars_of("aab"), "ab"), Some(1));
    assert_eq!(find_chars(&chars_of("aab"), "ba"), None);
    assert_eq!(find_chars(&chars_of("é=x"), "="), Some(1));
    assert_eq!(find_chars(&chars_of(""), ""), Some(0));
    assert!(has_text("xyz", "yz"));
    assert!(!has_text("xyz", "zy"));
    assert_eq!(text_after("session:a", "session:"), Some("a".to_string()));
    assert_eq!(text_after("session", "session:"), None);
    assert!(same_text("é", "é"));
    assert!(!same_text("e", "é"));
    assert_eq!(text_between(&chars_of("añb"), 1, 3), "ñb");
}

#[test]
fn texts_are_shortened_by_characters() {
    assert_eq!(shortened("ééé", 3, 1, "…"), "ééé");
    assert_eq!(shortened("éééé", 3, 1, "…"), "é…");
}

#[test]
fn numerals_are_decimal() {
    for number in [0, 9, 10, 105, u64::MAX] {
        assert_eq!(decimal_text(number), number.to_string());
    }
}

#[test]
fn lines_keep_the_stream() {
    for stream in ["", "a", "a\n", "\n", "a\n\nb", "\n\n"] {
        let mut kept = read_stream_lines(stream.as_bytes()).join("\n");
        if stream.ends_with('\n') {
            kept.push('\n');
        }
        assert_eq!(kept, stream);
    }
}

#[test]
fn white_space_behind_a_boot_line_does_not_matter() {
    let url = |line: &str| parse_url(line).map(|url| url.as_str().to_string());
    for line in ["dsh web: http://127.0.0.1:3080 \r", "dsh web: \t", "x "] {
        assert_eq!(url(&trimmed_end(line)), url(line));
    }
}
