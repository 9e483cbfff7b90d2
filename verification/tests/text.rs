use cargo_soteria::decimal::{decimal_text, parse_u64, signed_text};
use cargo_soteria::text::{
    chars_of, eq_ignore_ascii_case, find_char, has_prefix, has_suffix, is_white_space, join_texts, lines_of, same_text,
    split_text, string_of, trim,
};

const SAMPLES: [&str; 16] = [
    "",
    " ",
    "a",
    "\n",
    "a\n",
    "a\r\n",
    "a\r",
    "a\n\nb",
    "\na\n",
    "\r\n\r\n",
    "a\r\r\nb",
    " \u{3000}x y\t\u{85}",
    "é…\u{1F600}",
    "..a.b",
    "a.b.",
    "\u{feff} x",
];

#[test]
fn white_space_is_that_of_the_standard_library() {
    for c in '\0'..=char::MAX {
        assert_eq!(is_white_space(c), c.is_whitespace(), "{c:?}");
    }
}

#[test]
fn only_ascii_letters_are_lowered_to_yes() {
    // No other character turns into one of these when it is lowered.
    for c in '\0'..=char::MAX {
        for letter in ['y', 'e', 's'] {
            let lowered = c.to_lowercase().collect::<String>() == letter.to_string();
            let text = c.to_string();
            assert_eq!(eq_ignore_ascii_case(&text, &letter.to_string()), lowered, "{c:?}");
        }
    }
}

#[test]
fn pieces_are_those_of_the_standard_library() {
    for s in SAMPLES {
        assert_eq!(trim(s), s.trim());
        assert_eq!(lines_of(s), s.lines().collect::<Vec<_>>());
        assert_eq!(split_text(s, '.'), s.split('.').collect::<Vec<_>>());
        assert_eq!(chars_of(s), s.chars().collect::<Vec<_>>());
        assert_eq!(string_of(&chars_of(s)), s);
        assert_eq!(find_char(s, 'b'), s.chars().position(|c| c == 'b').unwrap_or(s.chars().count()));
        for t in SAMPLES {
            assert_eq!(has_prefix(s, t), s.starts_with(t), "{s:?} {t:?}");
            assert_eq!(has_suffix(s, t), s.ends_with(t), "{s:?} {t:?}");
            assert_eq!(same_text(s, t), s == t);
            assert_eq!(eq_ignore_ascii_case(s, t), s.eq_ignore_ascii_case(t));
        }
    }
    assert!(eq_ignore_ascii_case("NightLY", "nightly"));
    assert!(!eq_ignore_ascii_case("É", "é"));
}

#[test]
fn texts_are_joined_like_the_standard_library_does() {
    for parts in [vec![], vec![""], vec!["a"], vec!["a", "", "b"]] {
        let owned: Vec<String> = parts.iter().map(|s| s.to_string()).collect();
        assert_eq!(join_texts(&owned, ", "), parts.join(", "));
    }
}

#[test]
fn numbers_are_read_like_the_standard_library_does() {
    for s in [
        "",
        "0",
        "007",
        "+5",
        "-5",
        "-0",
        "+",
        "++1",
        " 1",
        "1 ",
        "1_000",
        "18446744073709551615",
        "18446744073709551616",
        "99999999999999999999999",
        "000000000000000000000000000001",
        "٣",
        "1a",
    ] {
        assert_eq!(parse_u64(s), s.parse::<u64>().ok(), "{s:?}");
    }
}

#[test]
fn numbers_are_written_like_the_standard_library_does() {
    for n in [0, 1, 9, 10, 99, 100, 1234567890, u64::MAX] {
        assert_eq!(decimal_text(n), n.to_string());
        assert_eq!(parse_u64(&decimal_text(n)), Some(n));
    }
    for n in [0, 1, -1, 10, -10, i32::MAX, i32::MIN] {
        assert_eq!(signed_text(n), n.to_string());
    }
}
