use mc_launcher_core::text::{
    char_is_whitespace, chars_of, contains_str, replace_str, split_whitespace_words, u32_to_decimal,
};

#[test]
fn replace_matches_std_on_samples() {
    let cases = [
        ("a${x}b${x}", "${x}", "Q"),
        ("aaa", "aa", "b"),
        ("no placeholder", "${x}", "Q"),
        ("", "${x}", "Q"),
        ("${x}", "${x}", ""),
        ("$${x}}", "${x}", "{x"),
        ("ünïcödé ${x} ✓", "${x}", "ß"),
    ];
    for (s, p, r) in cases {
        assert_eq!(replace_str(s, p, r), s.replace(p, r), "case {:?}", (s, p, r));
    }
}

#[test]
fn replace_uses_replacement_text_once() {
    // Replaced text is never scanned again.
    assert_eq!(replace_str("${a}", "${a}", "${a}${a}"), "${a}${a}");
}

#[test]
fn contains_finds_substrings() {
    assert!(contains_str("-cp", "-cp"));
    assert!(contains_str("x-cpy", "-cp"));
    assert!(!contains_str("-c p", "-cp"));
    assert!(!contains_str("", "-cp"));
    assert!(contains_str("abc", ""));
}

#[test]
fn decimal_rendering() {
    assert_eq!(u32_to_decimal(0), "0");
    assert_eq!(u32_to_decimal(7), "7");
    assert_eq!(u32_to_decimal(256), "256");
    assert_eq!(u32_to_decimal(2048), "2048");
    assert_eq!(u32_to_decimal(u32::MAX), u32::MAX.to_string());
}

#[test]
fn split_whitespace_matches_std() {
    let samples = [
        "",
        "   ",
        "--username ${auth_player_name} --version ${version_name}",
        "  leading and trailing  ",
        "tab\tnew\nline\r\nend",
        "ideographic\u{3000}space\u{a0}nbsp\u{2028}sep",
        "x",
    ];
    for s in samples {
        let ours = split_whitespace_words(s);
        let std_words: Vec<String> = s.split_whitespace().map(|w| w.to_string()).collect();
        assert_eq!(ours, std_words, "sample {:?}", s);
    }
}

#[test]
fn words_are_never_empty() {
    for w in split_whitespace_words(" a  b\t\tc ") {
        assert!(!w.is_empty());
        assert!(!w.chars().any(|c| c.is_whitespace()));
    }
}

#[test]
fn chars_of_keeps_order() {
    assert_eq!(chars_of("héllo"), vec!['h', 'é', 'l', 'l', 'o']);
}

/// The Unicode `White_Space` code points, as the library's contract for
/// `char::is_whitespace` lists them.
fn listed_white_space(c: char) -> bool {
    let u = c as u32;
    (0x9..=0xd).contains(&u)
        || u == 0x20
        || u == 0x85
        || u == 0xa0
        || u == 0x1680
        || (0x2000..=0x200a).contains(&u)
        || u == 0x2028
        || u == 0x2029
        || u == 0x202f
        || u == 0x205f
        || u == 0x3000
}

#[test]
fn whitespace_list_matches_std_for_every_char() {
    for u in 0u32..=0x10ffff {
        if let Some(c) = char::from_u32(u) {
            assert_eq!(c.is_whitespace(), listed_white_space(c), "U+{:04X}", u);
        }
    }
}

#[test]
fn whitespace_decision_matches_std_for_every_char() {
    for u in 0u32..=0x10ffff {
        if let Some(c) = char::from_u32(u) {
            assert_eq!(char_is_whitespace(c), c.is_whitespace(), "U+{:04X}", u);
        }
    }
}
