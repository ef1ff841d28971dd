use pshred_router::text::{decimal_string, is_whitespace_char, pad_left_string, parse_u32, trim_str};

#[test]
fn decimal_matches_display() {
    for n in [0u64, 7, 10, 99, 100, 8001, 4294967295, u64::MAX] {
        assert_eq!(decimal_string(n), n.to_string());
    }
}

#[test]
fn parse_u32_matches_std() {
    let cases = [
        "", "+", "-", "0", "+0", "-0", "42", "+42", "007", "4294967295", "4294967296",
        "99999999999999999999", " 1", "1 ", "1a", "++1", "+-1", "\u{0664}", "12:3",
    ];
    for s in cases {
        assert_eq!(parse_u32(s), s.parse::<u32>().ok(), "input {:?}", s);
    }
}

#[test]
fn trim_matches_std() {
    let cases = [
        "", "   ", " 12\n", "\t\r\nabc \u{3000}", "\u{a0}x\u{2028}", "a b", "\u{200b}z",
        "\u{85}q\u{1680}",
    ];
    for s in cases {
        assert_eq!(trim_str(s), s.trim(), "input {:?}", s);
    }
}

#[test]
fn whitespace_matches_std() {
    for c in ['\t', '\n', '\u{b}', '\u{c}', '\r', ' ', 'a', '\u{85}', '\u{a0}', '\u{1680}',
        '\u{2000}', '\u{200a}', '\u{200b}', '\u{2028}', '\u{2029}', '\u{202f}', '\u{205f}',
        '\u{3000}', '\u{feff}', '0']
    {
        assert_eq!(is_whitespace_char(c), c.is_whitespace(), "char {:?}", c);
    }
}

#[test]
fn pad_left_matches_format() {
    for (s, w) in [("ab", 4usize), ("abcd", 4), ("abcdef", 4), ("", 3), ("x", 0)] {
        assert_eq!(pad_left_string(s, w), format!("{:>w$}", s, w = w));
    }
}

#[test]
fn decimal_rendering_parses_back() {
    for n in [0u32, 1, 9, 10, 31, 65535, 4294967295] {
        assert_eq!(parse_u32(&decimal_string(n as u64)), Some(n));
    }
}
