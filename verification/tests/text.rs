use redox_core::text::{
    is_space_exec, join_spaced, lines, push_hex_byte, split_str, to_num, to_num_signed,
    trim_start_str, trim_str,
};

fn strings(v: &[&str]) -> Vec<String> {
    v.iter().map(|s| s.to_string()).collect()
}

#[test]
fn split_keeps_empty_pieces() {
    assert_eq!(split_str("a b  c", ' '), strings(&["a", "b", "", "c"]));
    assert_eq!(split_str("", ' '), strings(&[""]));
    assert_eq!(split_str(" x ", ' '), strings(&["", "x", ""]));
    assert_eq!(split_str("one\ntwo\n", '\n'), strings(&["one", "two", ""]));
}

#[test]
fn split_agrees_with_std() {
    for s in ["", "a", "a b", "  lead", "trail  ", "é ü € x"] {
        let expected: Vec<String> = s.split(' ').map(|p| p.to_string()).collect();
        assert_eq!(split_str(s, ' '), expected);
    }
}

#[test]
fn trims_unicode_white_space() {
    assert_eq!(trim_str("  hi there \t\n"), "hi there");
    assert_eq!(trim_str("\u{3000}x\u{2009}"), "x");
    assert_eq!(trim_str("   "), "");
    assert_eq!(trim_start_str(" \t a b \r\n"), "a b \r\n");
    assert_eq!(trim_start_str(""), "");
}

#[test]
fn white_space_matches_std() {
    for c in ['\t', '\n', '\u{b}', '\u{c}', '\r', ' ', '\u{85}', '\u{a0}', '\u{1680}', '\u{2000}',
        '\u{200a}', '\u{2028}', '\u{2029}', '\u{202f}', '\u{205f}', '\u{3000}', 'a', '\u{200b}',
        '\u{180e}', '0', '\u{feff}'] {
        assert_eq!(is_space_exec(c), c.is_whitespace(), "{:?}", c);
    }
}

#[test]
fn join_spaced_prefixes_each_word() {
    let words = strings(&["cmd", "a", "b"]);
    assert_eq!(join_spaced(&words, 1), " a b");
    assert_eq!(join_spaced(&words, 0), " cmd a b");
    assert_eq!(join_spaced(&words, 3), "");
    assert_eq!(join_spaced(&words, 9), "");
}

#[test]
fn to_num_reads_leading_digits() {
    assert_eq!(to_num("1234"), 1234);
    assert_eq!(to_num("42abc"), 42);
    assert_eq!(to_num("abc"), 0);
    assert_eq!(to_num(""), 0);
    assert_eq!(to_num("-5"), 0);
    assert_eq!(to_num("007"), 7);
}

#[test]
fn to_num_wraps_on_overflow() {
    let big = "340282366920938463463374607431768211457"; // 2^128 + 1
    assert_eq!(to_num(big), 1);
    let max = usize::MAX.to_string();
    assert_eq!(to_num(&max), usize::MAX);
}

#[test]
fn to_num_signed_reads_sign() {
    assert_eq!(to_num_signed("-42"), -42);
    assert_eq!(to_num_signed("17"), 17);
    assert_eq!(to_num_signed("-"), 0);
    assert_eq!(to_num_signed("x"), 0);
    assert_eq!(to_num_signed("--3"), 0);
    let min = isize::MIN.to_string();
    assert_eq!(to_num_signed(&min), isize::MIN);
    let over = (isize::MAX as usize + 1).to_string();
    assert_eq!(to_num_signed(&over), isize::MIN);
}

#[test]
fn lines_follow_std() {
    for s in ["", "a", "a\n", "a\r\nb", "\n", "x\r", "a\n\nb\r\n", "one\ntwo\r\nthree\r"] {
        let expected: Vec<String> = s.lines().map(|l| l.to_string()).collect();
        assert_eq!(lines(s), expected, "{:?}", s);
    }
}

#[test]
fn hex_bytes_as_format_prints_them() {
    for b in [0u8, 1, 9, 10, 15, 16, 0x7f, 0xab, 0xff] {
        let mut s = String::from("<");
        push_hex_byte(&mut s, b);
        assert_eq!(s, format!("<{:X}", b));
    }
}
