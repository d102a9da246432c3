//! Texts.

use rapid_driver::text::{
    align_left, align_right, chars_of, contains, cut, decimal, ends_with, join, last_part, parse_number,
    repeat_char, signed_decimal, split_words, starts_with, str_eq, strip_prefix, text_of, trim, trim_end_char,
    utf8_len, write_in_base,
};

#[test]
fn texts_are_trimmed_and_split_as_strings_are() {
    for s in ["", " ", "a", "  a b\t", "\u{a0}x\u{2003}", "\n\r\u{b}\u{c}", "a\u{85}", "\u{3000}é "] {
        assert_eq!(trim(s), s.trim());
        let words: Vec<&str> = s.split_whitespace().collect();
        assert_eq!(split_words(s), words);
    }
}

#[test]
fn numbers_are_read_as_strings_are() {
    for s in ["0", "65535", "65536", "+7", "-1", "", "+", "1 ", "007", "1e3", "99999999999999999999"] {
        assert_eq!(parse_number(s, 65535), s.parse::<u16>().ok().map(|n| n as u64), "{:?}", s);
        assert_eq!(parse_number(s, u64::MAX), s.parse::<u64>().ok(), "{:?}", s);
    }
}

#[test]
fn numbers_are_written_as_format_does() {
    for n in [0, 1, 9, 10, 255, 256, u64::MAX] {
        assert_eq!(decimal(n), n.to_string());
        assert_eq!(write_in_base(n, 16), format!("{:x}", n));
        assert_eq!(write_in_base(n, 2), format!("{:b}", n));
        assert_eq!(align_right(&write_in_base(n, 16), 8, '0'), format!("{:08x}", n));
    }
    for n in [0, -1, i64::MIN, i64::MAX] {
        assert_eq!(signed_decimal(n), n.to_string());
    }
}

#[test]
fn texts_are_aligned_as_format_does() {
    for s in ["", "abc", "äöü", "0123456789"] {
        assert_eq!(align_left(s, 5), format!("{:<5}", s));
        assert_eq!(align_right(s, 5, ' '), format!("{:>5}", s));
    }
    assert_eq!(repeat_char('=', 4), "====");
}

#[test]
fn parts_of_texts_are_found() {
    assert!(starts_with("abc", "ab") && !starts_with("abc", "bc"));
    assert!(ends_with("abc", "bc") && !ends_with("abc", "ab"));
    assert!(contains("abcd", "bc") && !contains("abcd", "cb") && contains("", ""));
    assert_eq!(strip_prefix("--x=1", "--x="), Some("1".to_string()));
    assert_eq!(strip_prefix("x", "--"), None);
    assert_eq!(trim_end_char("a..", '.'), "a");
    assert_eq!(last_part("a:b:c", ':'), "c");
    assert_eq!(last_part("abc", ':'), "abc");
    assert_eq!(join(&vec!["a".to_string(), "b".to_string()], ", "), "a, b");
    assert_eq!(join(&vec![], ", "), "");
}

#[test]
fn characters_come_back_as_the_text() {
    let s = "aé漢🙂";
    let chars = chars_of(s);
    assert_eq!(chars, s.chars().collect::<Vec<char>>());
    assert_eq!(text_of(&chars), s);
    assert_eq!(utf8_len(&chars), s.len());
}

#[test]
fn texts_are_cut_between_characters_only() {
    let s = "aé漢🙂";
    for n in 0..=12 {
        let expected = if s.len() <= n { Some(s) } else { s.get(..n) };
        assert_eq!(cut(s, n).as_deref(), expected, "{}", n);
    }
    assert_eq!(cut("0123456789ab", 8), Some("01234567".to_string()));
}

#[test]
fn texts_are_compared() {
    let texts = ["", "a", "ab", "b", "ä", "a\u{308}"];
    for a in texts {
        for b in texts {
            assert_eq!(str_eq(a, b), a == b);
        }
    }
}
