use moreland::bytes::{be16, be32, be64, read_u16, read_u32, read_u64};
use moreland::number::{
    parse_i32, parse_u16, parse_u32, parse_unsigned, push_decimal, push_hex, push_signed, to_signed,
};
use moreland::text::{
    chars_of, contains, is_whitespace, join, lines, same_ignoring_case, same_str, split_on,
    split_whitespace, starts_with, string_of, to_lower, trim, trim_end_matches, trim_start_matches,
};

fn strings(v: Vec<Vec<char>>) -> Vec<String> {
    v.iter().map(|cs| cs.iter().collect()).collect()
}

const SAMPLES: [&str; 14] = [
    "",
    "\n",
    "\r\n",
    "a\r",
    "a\nb",
    "a\r\nb\r\n",
    "\n\nx\r\r\n",
    "  two words\t",
    "\u{2003}wide\u{3000}space\u{85}",
    "one:two::",
    ":",
    "x=y=z",
    "\u{feff}bom",
    "MiXeD \u{c9}",
];

#[test]
fn whitespace_is_that_of_unicode() {
    for n in 0..=0x10ffff {
        if let Some(c) = char::from_u32(n) {
            assert_eq!(is_whitespace(c), c.is_whitespace(), "U+{n:04X}");
        }
    }
}

#[test]
fn texts_are_taken_apart_as_usual() {
    for s in SAMPLES {
        let cs = chars_of(s);
        assert_eq!(strings(lines(&cs)), s.lines().collect::<Vec<_>>(), "{s:?}");
        assert_eq!(
            strings(split_whitespace(&cs)),
            s.split_whitespace().collect::<Vec<_>>(),
            "{s:?}"
        );
        assert_eq!(strings(split_on(&cs, ':')), s.split(':').collect::<Vec<_>>(), "{s:?}");
        assert_eq!(string_of(trim(&cs)), s.trim(), "{s:?}");
        assert_eq!(string_of(trim_end_matches(&cs, ':')), s.trim_end_matches(':'), "{s:?}");
        assert_eq!(string_of(&to_lower(&cs)), s.to_ascii_lowercase(), "{s:?}");
        for p in SAMPLES {
            let ps = chars_of(p);
            assert_eq!(contains(&cs, &ps), s.contains(p), "{s:?} {p:?}");
            assert_eq!(starts_with(&cs, &ps), s.starts_with(p), "{s:?} {p:?}");
            assert_eq!(same_str(s, p), s == p, "{s:?} {p:?}");
            assert_eq!(same_ignoring_case(&cs, p), s.eq_ignore_ascii_case(p), "{s:?} {p:?}");
        }
    }
    let cs = chars_of("ababa");
    assert_eq!(string_of(trim_start_matches(&cs, &chars_of("ab"))), "a");
    assert_eq!(join(&vec!["a".to_string(), "b".to_string()], ", "), "a, b");
    assert_eq!(join(&vec![], ", "), "");
}

#[test]
fn numbers_are_read_as_usual() {
    for s in [
        "", "+", "-", "0", "-0", "+7", "-7", "007", "1 ", "0x1", "65535", "65536", "2147483647",
        "2147483648", "-2147483648", "-2147483649", "4294967295", "4294967296", "\u{661}", "--1",
        "+-1",
    ] {
        let cs = chars_of(s);
        assert_eq!(parse_u16(&cs), s.parse::<u16>().ok(), "{s:?}");
        assert_eq!(parse_u32(&cs), s.parse::<u32>().ok(), "{s:?}");
        assert_eq!(parse_i32(&cs), s.parse::<i32>().ok(), "{s:?}");
        assert_eq!(parse_unsigned(&cs, 10, u64::MAX), s.parse::<u64>().ok(), "{s:?}");
    }
    for s in ["ff", "FF", "+fF", "g", "", "ffffffffffffffff", "10000000000000000"] {
        let cs = chars_of(s);
        assert_eq!(
            parse_unsigned(&cs, 16, u64::MAX),
            u64::from_str_radix(s, 16).ok(),
            "{s:?}"
        );
    }
}

#[test]
fn numbers_are_printed_as_usual() {
    for n in [0u64, 9, 10, 255, 65536, u64::MAX] {
        let mut out = String::from("n=");
        push_decimal(&mut out, n);
        assert_eq!(out, format!("n={n}"));
        let mut out = String::new();
        push_hex(&mut out, n, 4);
        assert_eq!(out, format!("{n:04x}"));
    }
    for n in [0i64, -1, 7, i64::MIN, i64::MAX] {
        let mut out = String::new();
        push_signed(&mut out, n);
        assert_eq!(out, format!("{n}"));
        assert_eq!(parse_i32(&chars_of(&out)), out.parse::<i32>().ok());
    }
    assert_eq!(to_signed(7), 7);
    assert_eq!(to_signed(u32::MAX), -1);
    assert_eq!(to_signed(1 << 31), i32::MIN);
}

#[test]
fn big_endian_bytes() {
    assert_eq!(be16(0x0102), 0x0102u16.to_be_bytes());
    assert_eq!(be32(0x0102_0304), 0x0102_0304u32.to_be_bytes());
    assert_eq!(be64(0x0102_0304_0506_0708), 0x0102_0304_0506_0708u64.to_be_bytes());
    let buf = [9, 1, 2, 3, 4, 5, 6, 7, 8];
    assert_eq!(read_u16(&buf, 1), 0x0102);
    assert_eq!(read_u32(&buf, 1), 0x0102_0304);
    assert_eq!(read_u64(&buf, 1), 0x0102_0304_0506_0708);
}
