use tectonic_api::text::{is_white_space_char, parse_u16, parse_u64, push_decimal, trim_end_slashes};

#[test]
fn white_space_is_the_unicode_property() {
    for u in 0u32..=0x10FFFF {
        if let Some(c) = char::from_u32(u) {
            assert_eq!(is_white_space_char(c), c.is_whitespace(), "U+{:04X}", u);
        }
    }
}

#[test]
fn unsigned_parsing_agrees_with_std() {
    let cases = [
        "", "0", "+0", "-0", "+", "-", "00042", "42", "4 2", " 42", "42 ", "١٢", "9",
        "18446744073709551615", "18446744073709551616", "99999999999999999999999",
        "65535", "65536", "+65535", "0x10", "1e3", "12a",
    ];
    for s in cases {
        assert_eq!(parse_u64(s), s.parse::<u64>().ok(), "{s:?}");
        assert_eq!(parse_u16(s), s.parse::<u16>().ok(), "{s:?}");
    }
}

#[test]
fn trailing_slashes_are_trimmed_like_std() {
    for s in ["", "/", "///", "http://consul:8500", "http://consul:8500/", "http://consul:8500///", "a/b/", "/a"] {
        assert_eq!(trim_end_slashes(s), s.trim_end_matches('/'));
    }
}

#[test]
fn decimals_are_written_like_format() {
    for n in [0u64, 7, 10, 443, 8500, 65535, u64::MAX] {
        let mut out = String::from("port:");
        push_decimal(&mut out, n);
        assert_eq!(out, format!("port:{n}"));
    }
}
