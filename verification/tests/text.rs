use kalshi_bot::decimal::{parse_i64, parse_u32, push_decimal, push_signed_decimal};
use kalshi_bot::text::{
    chars_of, contains_chars, is_space_char, join_chars, same_chars, split_chars, split_lines,
    starts_with_chars, string_of, trim_chars,
};

fn cs(s: &str) -> Vec<char> {
    s.chars().collect()
}

fn strings(parts: &Vec<Vec<char>>) -> Vec<String> {
    parts.iter().map(|p| p.iter().collect()).collect()
}

#[test]
fn chars_and_strings_convert_both_ways() {
    assert_eq!(chars_of("a¢b"), vec!['a', '¢', 'b']);
    assert_eq!(string_of(&vec!['x', '—', 'y']), "x—y");
    assert_eq!(chars_of(""), Vec::<char>::new());
    assert_eq!(string_of(&vec![]), "");
}

#[test]
fn white_space_is_the_unicode_property() {
    for code in 0u32..0x3100 {
        if let Some(c) = char::from_u32(code) {
            assert_eq!(is_space_char(c), c.is_whitespace(), "U+{:04X}", code);
        }
    }
}

#[test]
fn trim_agrees_with_str_trim() {
    for s in ["", " ", "  a  ", "a", "\t a b \r\n", "\u{a0}x\u{3000}", " \u{200b} ", "   "] {
        assert_eq!(string_of(&trim_chars(&cs(s))), s.trim(), "{:?}", s);
    }
}

#[test]
fn split_agrees_with_str_split() {
    for s in ["", "|", "a|b", "|a||b|", "abc", "||"] {
        let want: Vec<String> = s.split('|').map(|p| p.to_string()).collect();
        assert_eq!(strings(&split_chars(&cs(s), '|')), want, "{:?}", s);
    }
}

#[test]
fn lines_agree_with_str_lines() {
    for s in ["", "\n", "a", "a\n", "a\nb", "a\r\nb\r\n", "a\r", "\r\n\r\n", "a\n\nb\n", "a\r\r\n", "x\n\r"] {
        let want: Vec<String> = s.lines().map(|p| p.to_string()).collect();
        assert_eq!(strings(&split_lines(&cs(s))), want, "{:?}", s);
    }
}

#[test]
fn join_agrees_with_slice_join() {
    for parts in [vec![], vec![""], vec!["a"], vec!["a", "b"], vec!["", "", ""], vec!["x", "", "yz"]] {
        let owned: Vec<Vec<char>> = parts.iter().map(|p| cs(p)).collect();
        assert_eq!(string_of(&join_chars(&owned, &cs(", "))), parts.join(", "));
    }
}

#[test]
fn search_agrees_with_str_search() {
    let hays = ["", "a", "abc", "| pending |", "x| pending |y", "| pending", "aaa", "---"];
    let needles = ["", "a", "bc", "| pending |", "aa", "aaaa", "--", "c"];
    for h in hays {
        for n in needles {
            assert_eq!(contains_chars(&cs(h), &cs(n)), h.contains(n), "{:?} {:?}", h, n);
            assert_eq!(starts_with_chars(&cs(h), &cs(n)), h.starts_with(n), "{:?} {:?}", h, n);
            assert_eq!(same_chars(&cs(h), &cs(n)), h == n, "{:?} {:?}", h, n);
        }
    }
}

#[test]
fn parse_u32_agrees_with_from_str() {
    for s in ["", "0", "7", "+7", "-7", "-0", "007", "4294967295", "4294967296", "99999999999999999999999", "+", "-", "1 ", " 1", "1a", "٣", "1_0", "++1", "+-1", "00000000000000000000000000000001"] {
        assert_eq!(parse_u32(&cs(s)), s.parse::<u32>().ok(), "{:?}", s);
    }
}

#[test]
fn parse_i64_agrees_with_from_str() {
    for s in ["", "0", "-0", "+0", "7", "+7", "-7", "9223372036854775807", "9223372036854775808", "-9223372036854775808", "-9223372036854775809", "+9223372036854775807", "-", "+", "--1", "1-", "12x", "-000000000000000000000000000012", "18446744073709551616"] {
        assert_eq!(parse_i64(&cs(s)), s.parse::<i64>().ok(), "{:?}", s);
    }
}

#[test]
fn decimals_are_written_as_display_writes_them() {
    for n in [0u64, 1, 9, 10, 11, 99, 100, 12345, u32::MAX as u64, u64::MAX] {
        let mut out = cs("n=");
        push_decimal(&mut out, n);
        assert_eq!(string_of(&out), format!("n={}", n));
    }
    for i in [0i64, 1, -1, 10, -10, 999, -1000, i64::MAX, i64::MIN, i64::MIN + 1] {
        let mut out = Vec::new();
        push_signed_decimal(&mut out, i);
        assert_eq!(string_of(&out), format!("{}", i));
    }
}
