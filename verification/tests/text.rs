use tgstate::decimal::{decimal_i64, decimal_u64, parse_i64, parse_u32};
use tgstate::text::{
    byte_len, contains, ends_with, first_part, is_blank, lines, replace, split, split_once,
    starts_with, to_ascii_lowercase, trim, trim_end_matches, trim_start_matches,
};

const SAMPLES: [&str; 14] = [
    "",
    " ",
    "a",
    " a b ",
    "\u{3000}文\u{85}",
    "a,b,,c",
    ",",
    "a\nb\r\nc",
    "\n\n",
    "x\r",
    "aaaa",
    "ÄÖaZ@[",
    "a\u{200b}",
    "//a//",
];

#[test]
fn texts_agree_with_the_standard_library() {
    for s in SAMPLES {
        assert_eq!(trim(s), s.trim());
        assert_eq!(is_blank(s), s.trim().is_empty());
        assert_eq!(trim_end_matches(s, '/'), s.trim_end_matches('/'));
        assert_eq!(trim_start_matches(s, '/'), s.trim_start_matches('/'));
        assert_eq!(split(s, ','), s.split(',').collect::<Vec<_>>());
        assert_eq!(first_part(s, ','), s.split(',').next().unwrap());
        assert_eq!(
            split_once(s, ','),
            s.split_once(',').map(|(a, b)| (a.to_string(), b.to_string()))
        );
        assert_eq!(lines(s), s.lines().collect::<Vec<_>>());
        assert_eq!(to_ascii_lowercase(s), s.to_ascii_lowercase());
        assert_eq!(byte_len(s), s.len());
        for p in ["", "a", "aa", "/", "文", "a,b"] {
            assert_eq!(starts_with(s, p), s.starts_with(p));
            assert_eq!(ends_with(s, p), s.ends_with(p));
            assert_eq!(contains(s, p), s.contains(p));
            if !p.is_empty() {
                assert_eq!(replace(s, p, "<>"), s.replace(p, "<>"));
            }
        }
    }
}

#[test]
fn all_characters_are_trimmed_alike() {
    for n in 0..0x3100u32 {
        if let Some(c) = char::from_u32(n) {
            let s = format!("{}x{}", c, c);
            assert_eq!(trim(&s), s.trim(), "{:x}", n);
        }
    }
}

#[test]
fn numbers_agree_with_the_standard_library() {
    for n in [0, 1, 9, 10, 12345, u64::MAX] {
        assert_eq!(decimal_u64(n), n.to_string());
    }
    for n in [0, -1, 42, i64::MIN, i64::MAX] {
        assert_eq!(decimal_i64(n), n.to_string());
        assert_eq!(parse_i64(&n.to_string()), Some(n));
    }
    for s in [
        "", "+", "-", "+5", "-5", "005", " 5", "5 ", "5a", "--5", "+-5", "٣",
        "9223372036854775807", "9223372036854775808", "-9223372036854775808",
        "-9223372036854775809", "99999999999999999999999", "4294967295", "4294967296", "-0",
    ] {
        assert_eq!(parse_i64(s), s.parse::<i64>().ok(), "{}", s);
        assert_eq!(parse_u32(s), s.parse::<u32>().ok(), "{}", s);
    }
}
