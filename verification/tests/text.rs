use amdp::text::{
    cache_key, chars_of, is_whitespace, key_of_lowered, replace_all, string_of, trim, truncate,
    truncate_tray_label, urlencode,
};

#[test]
fn truncate_keeps_short_text() {
    assert_eq!(truncate("hello", 128), "hello");
    assert_eq!(truncate("hello", 5), "hello");
    assert_eq!(truncate("", 0), "");
}

#[test]
fn truncate_cuts_long_text() {
    assert_eq!(truncate("hello world", 5), "hello");
    assert_eq!(truncate("hello", 0), "");
}

#[test]
fn truncate_counts_characters_not_bytes() {
    assert_eq!(truncate("h\u{e9}llo", 3), "h\u{e9}l");
    let long: String = "\u{65e5}".repeat(200);
    let cut = truncate(&long, 128);
    assert_eq!(cut.chars().count(), 128);
    assert_eq!(cut.len(), 128 * 3);
    let fits: String = "\u{65e5}".repeat(100);
    assert_eq!(truncate(&fits, 128), fits);
}

#[test]
fn tray_label_that_fits_is_unchanged() {
    assert_eq!(truncate_tray_label("Song", 50), "Song");
    assert_eq!(truncate_tray_label("12345", 5), "12345");
    assert_eq!(truncate_tray_label("", 0), "");
}

#[test]
fn tray_label_is_shortened_with_ellipsis() {
    assert_eq!(truncate_tray_label("123456", 5), "1234\u{2026}");
    let long = "x".repeat(80);
    let label = truncate_tray_label(&long, 50);
    assert_eq!(label.chars().count(), 50);
    assert_eq!(label, format!("{}\u{2026}", "x".repeat(49)));
}

#[test]
fn tray_label_with_no_room_is_the_ellipsis() {
    assert_eq!(truncate_tray_label("abc", 0), "\u{2026}");
    assert_eq!(truncate_tray_label("abc", 1), "\u{2026}");
}

#[test]
fn urlencode_passes_unreserved_bytes() {
    assert_eq!(urlencode("AZaz09-_.~"), "AZaz09-_.~");
    assert_eq!(urlencode(""), "");
}

#[test]
fn urlencode_turns_space_into_plus() {
    assert_eq!(urlencode("Daft Punk"), "Daft+Punk");
}

#[test]
fn urlencode_escapes_reserved_bytes_in_upper_hex() {
    assert_eq!(urlencode("AC/DC"), "AC%2FDC");
    assert_eq!(urlencode("a+b&c=d"), "a%2Bb%26c%3Dd");
    assert_eq!(urlencode("\n"), "%0A");
    assert_eq!(urlencode("%"), "%25");
}

#[test]
fn urlencode_escapes_each_byte_of_a_character() {
    assert_eq!(urlencode("Beyonc\u{e9}"), "Beyonc%C3%A9");
    assert_eq!(urlencode("\u{65e5}"), "%E6%97%A5");
}

#[test]
fn urlencode_output_holds_only_query_characters() {
    let out = urlencode("Sigur R\u{f3}s / ( ) [ ] \u{1f3b5} ~");
    assert!(out
        .chars()
        .all(|c| c.is_ascii_alphanumeric() || "-_.~+%".contains(c)));
}

#[test]
fn trim_removes_white_space_at_both_ends() {
    assert_eq!(trim("  a b \n"), "a b");
    assert_eq!(trim("a"), "a");
    assert_eq!(trim("\u{a0}x\u{2003}"), "x");
}

#[test]
fn trim_of_blank_text_is_empty() {
    assert_eq!(trim(""), "");
    assert_eq!(trim(" \t\n "), "");
}

#[test]
fn cache_key_ignores_case_and_outer_white_space() {
    assert_eq!(cache_key("Muse", ""), cache_key(" muse ", ""));
    assert_eq!(cache_key("Muse", ""), "muse");
    assert_eq!(cache_key("muse ", ""), "muse");
}

#[test]
fn cache_key_joins_artist_and_album() {
    assert_eq!(cache_key("Muse", "Origin of Symmetry"), "muse::origin of symmetry");
    assert_eq!(cache_key(" MUSE", " Absolution "), "muse::absolution");
}

#[test]
fn cache_key_of_blank_album_is_the_artist() {
    assert_eq!(cache_key("Muse", "   "), "muse");
    assert_eq!(cache_key("", ""), "");
    assert_eq!(cache_key("", "X"), "::x");
}

#[test]
fn cache_key_lowercases_beyond_ascii() {
    assert_eq!(cache_key("BJ\u{d6}RK", "\u{c9}t\u{e9}"), "bj\u{f6}rk::\u{e9}t\u{e9}");
}

#[test]
fn replace_all_replaces_every_occurrence() {
    assert_eq!(replace_all("a-b-c", "-", "+"), "a+b+c");
    assert_eq!(replace_all("abc", "x", "y"), "abc");
    assert_eq!(replace_all("", "x", "y"), "");
    assert_eq!(replace_all("xx", "x", ""), "");
}

#[test]
fn replace_all_takes_occurrences_from_the_left() {
    assert_eq!(replace_all("aaa", "aa", "b"), "ba");
    assert_eq!(replace_all("abab", "ab", "abab"), "abababab");
}

#[test]
fn chars_and_back() {
    let chars = chars_of("h\u{e9}llo");
    assert_eq!(chars, vec!['h', '\u{e9}', 'l', 'l', 'o']);
    assert_eq!(string_of(&chars, 1, 4), "\u{e9}ll");
    assert_eq!(string_of(&chars, 2, 2), "");
}

#[test]
fn white_space_is_what_the_standard_library_takes_for_it() {
    for code in 0..=0x10ffffu32 {
        if let Some(c) = char::from_u32(code) {
            assert_eq!(is_whitespace(c), c.is_whitespace(), "U+{:04X}", code);
        }
    }
}

#[test]
fn white_space_characters() {
    for c in ['\t', '\n', '\u{b}', '\u{c}', '\r', ' ', '\u{85}', '\u{a0}', '\u{1680}'] {
        assert!(is_whitespace(c));
    }
    for c in ['\u{2000}', '\u{200a}', '\u{2028}', '\u{2029}', '\u{202f}', '\u{205f}', '\u{3000}'] {
        assert!(is_whitespace(c));
    }
    for c in ['a', '0', '\u{8}', '\u{e}', '\u{200b}', '\u{180e}', '\u{feff}', '\u{0}'] {
        assert!(!is_whitespace(c));
    }
}

#[test]
fn trim_agrees_with_the_standard_library() {
    for text in ["", " ", " a ", "\u{3000}a\u{a0}b\u{2009}", "\r\n x \t", "\u{200b} a", "a\u{85}"] {
        assert_eq!(trim(text), text.trim());
    }
}

#[test]
fn key_of_lowered_texts() {
    assert_eq!(key_of_lowered("muse", ""), "muse");
    assert_eq!(key_of_lowered(" muse ", ""), "muse");
    assert_eq!(key_of_lowered("muse", "origin of symmetry"), "muse::origin of symmetry");
    assert_eq!(key_of_lowered("muse", " \t"), "muse");
    assert_eq!(key_of_lowered("", " x "), "::x");
    assert_eq!(key_of_lowered("Muse", "X"), "Muse::X");
}
