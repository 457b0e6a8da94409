// SPDX-License-Identifier: GPL-3.0-or-later
//! Text and numbers.

use crosswire::number::{parse_number, push_decimal, push_signed};
use crosswire::text::{
    chars_of, contains, cut, find, is_whitespace, lines_of, pieces_of, reads, str_same,
    str_starts_with, string_of, trim, trim_end, trim_matches, words_of,
};

fn c(s: &str) -> Vec<char> {
    chars_of(s)
}

fn all(v: Vec<&[char]>) -> Vec<String> {
    v.into_iter().map(string_of).collect()
}

#[test]
fn white_space_is_what_unicode_says() {
    for u in 0u32..0x1_1000 {
        if let Some(ch) = char::from_u32(u) {
            assert_eq!(is_whitespace(ch), ch.is_whitespace(), "U+{u:04x}");
        }
    }
}

#[test]
fn text_functions_agree_with_the_standard_library() {
    for s in [
        "", " ", "a", " a b ", "\ta\r\nb\r\n\nc\r", "x=y=z", "..a..", "\u{3000}wide\u{a0}", "a,b,,c,",
        "\n\n", "äöü ß",
    ] {
        let v = c(s);
        assert_eq!(string_of(trim(&v)), s.trim());
        assert_eq!(string_of(trim_end(&v)), s.trim_end());
        assert_eq!(string_of(trim_matches(&v, '.')), s.trim_matches('.'));
        assert_eq!(all(lines_of(&v)), s.lines().collect::<Vec<_>>());
        assert_eq!(all(words_of(&v)), s.split_whitespace().collect::<Vec<_>>());
        assert_eq!(all(pieces_of(&v, ',')), s.split(',').collect::<Vec<_>>());
        assert_eq!(
            cut(&v, '=').map(|(a, b)| (string_of(a), string_of(b))),
            s.split_once('=').map(|(a, b)| (a.to_string(), b.to_string()))
        );
        for pat in ["", "a", "b,", "y=z", "zz"] {
            assert_eq!(contains(&v, pat), s.contains(pat));
            assert_eq!(str_starts_with(s, pat), s.starts_with(pat));
        }
    }
    assert_eq!(find(&c("abcabc"), &c("ca")), Some(2));
    assert_eq!(find(&c("abc"), &c("x")), None);
    assert!(reads(&c("x"), "x") && !reads(&c("x"), "y") && str_same("ab", "ab"));
}

#[test]
fn numbers_agree_with_the_standard_library() {
    for s in ["0", "443", "+443", "65535", "65536", "-1", "", "+", "12a", "007", " 1", "99999999999999999999"] {
        assert_eq!(parse_number(&c(s), 10, 65535).map(|v| v as u16), s.parse::<u16>().ok());
        assert_eq!(parse_number(&c(s), 10, u64::MAX), s.parse::<u64>().ok());
        assert_eq!(
            parse_number(&c(s), 16, u32::MAX as u64).map(|v| v as u32),
            u32::from_str_radix(s, 16).ok()
        );
    }
    assert_eq!(parse_number(&c("fE01a8C0"), 16, u32::MAX as u64), Some(0xfe01a8c0));
    for n in [0u64, 9, 10, 255, 1000, u64::MAX] {
        let mut s = String::new();
        push_decimal(&mut s, n);
        assert_eq!(s, n.to_string());
    }
    for n in [0i32, -1, i32::MIN, i32::MAX] {
        let mut s = String::from("n=");
        push_signed(&mut s, n);
        assert_eq!(s, format!("n={n}"));
    }
}
