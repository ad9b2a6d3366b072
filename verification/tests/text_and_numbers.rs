use trusdx_bridge::number::{
    read_leading_digits, read_magnitude, read_unsigned, reads_nonzero, write_decimal,
    write_zero_padded,
};
use trusdx_bridge::text::{
    append, ascii_bytes, chars_of, contains, leading_word, spells, split_ascii, split_lines,
    string_of, trim,
};
use trusdx_bridge::utf8::is_utf8;

fn words(s: &str) -> Vec<String> {
    let chars = chars_of(s);
    split_ascii(&chars).iter().map(|w| string_of(w)).collect()
}

fn trimmed(s: &str) -> String {
    let chars = chars_of(s);
    string_of(trim(&chars))
}

#[test]
fn trim_removes_unicode_white_space() {
    assert_eq!(trimmed("  f \r\n"), "f");
    assert_eq!(trimmed("\u{3000}\u{a0}x y\u{2028}\u{b}"), "x y");
    assert_eq!(trimmed(" \t\n"), "");
    assert_eq!(trimmed("\u{200b}"), "\u{200b}");
    for n in 0u32..0x11_0000 {
        if let Some(c) = char::from_u32(n) {
            let s = format!("{c}a{c}");
            assert_eq!(trimmed(&s), s.trim());
        }
    }
}

#[test]
fn words_are_split_at_ascii_white_space_only() {
    assert_eq!(words("F  VFOA\t7074000"), ["F", "VFOA", "7074000"]);
    assert_eq!(words("a\u{b}b\u{a0}c d"), ["a\u{b}b\u{a0}c", "d"]);
    assert_eq!(words("\x0ca\rb"), ["a", "b"]);
    assert!(words("").is_empty());
}

#[test]
fn lines_and_first_words() {
    let chars = chars_of("one two\n\n three");
    let lines = split_lines(&chars);
    let lines: Vec<String> = lines.iter().map(|l| string_of(l)).collect();
    assert_eq!(lines, ["one two", "", " three"]);
    let chars = chars_of("\u{2003}12\tmodule");
    assert_eq!(string_of(leading_word(&chars)), "12");
    let chars = chars_of("ends\n");
    assert_eq!(split_lines(&chars).len(), 1);
}

#[test]
fn text_is_found_and_compared() {
    let chars = chars_of("xxTRUSDX.monitor");
    assert!(contains(&chars, "TRUSDX"));
    assert!(contains(&chars, ""));
    assert!(!contains(&chars, "TRUSDY"));
    assert!(!contains(&chars[..7], "TRUSDX"));
    assert!(spells(&chars[2..8], "TRUSDX"));
    assert!(!spells(&chars[2..8], "TRUSD"));
    let mut s = String::from("a");
    append(&mut s, "\u{e9}b");
    assert_eq!(s, "a\u{e9}b");
    assert_eq!(ascii_bytes("FA;"), b"FA;".to_vec());
}

#[test]
fn unsigned_numbers_are_read_like_std_does() {
    for s in [
        "0", "7", "007", "+5", "+", "-", "", "-1", "-0", "++1", "1 ", "14074000.0", "1e3",
        "18446744073709551615", "18446744073709551616", "+18446744073709551615",
        "99999999999999999999999", "\u{0663}",
    ] {
        let chars = chars_of(s);
        assert_eq!(read_unsigned(&chars, u64::MAX), s.parse::<u64>().ok());
        assert_eq!(
            read_unsigned(&chars, 0xffff_ffff),
            s.parse::<u32>().ok().map(u64::from)
        );
    }
}

#[test]
fn signed_numbers_are_read_like_std_does() {
    for s in [
        "0", "1", "-1", "+1", "-0", "+0", "-", "+", "", "x", "2147483647", "2147483648",
        "-2147483648", "-2147483649", "--1", "1.0",
    ] {
        let chars = chars_of(s);
        let expected = s.parse::<i32>().map(|n| n != 0).unwrap_or(false);
        assert_eq!(reads_nonzero(&chars), expected);
    }
}

#[test]
fn magnitudes_take_no_sign() {
    assert_eq!(read_magnitude(&chars_of("+5"), u64::MAX), None);
    assert_eq!(read_magnitude(&chars_of("5"), 4), None);
    assert_eq!(read_magnitude(&chars_of("5"), 5), Some(5));
    assert_eq!(read_magnitude(&chars_of("000"), 0), Some(0));
    let chars = chars_of("0123;4");
    assert_eq!(string_of(read_leading_digits(&chars)), "0123");
}

#[test]
fn what_is_written_reads_back() {
    for n in [0, 1, 9, 10, 14_074_000, u64::MAX] {
        assert_eq!(write_decimal(n), n.to_string());
        assert_eq!(write_zero_padded(n, 11), format!("{:011}", n));
        assert_eq!(read_unsigned(&chars_of(&write_decimal(n)), u64::MAX), Some(n));
        assert_eq!(read_magnitude(&chars_of(&write_zero_padded(n, 11)), u64::MAX), Some(n));
    }
}

#[test]
fn utf8_is_told_from_other_bytes() {
    let cases: [&[u8]; 14] = [
        b"",
        b"FA00007074000;",
        "\u{e9}\u{20ac}\u{1f4fb}".as_bytes(),
        &[0x80],
        &[0xc0, 0x80],
        &[0xc3],
        &[0xc3, 0x28],
        &[0xe2, 0x82],
        &[0xe0, 0x80, 0x80],
        &[0xed, 0xa0, 0x80],
        &[0xf0, 0x80, 0x80, 0x80],
        &[0xf4, 0x90, 0x80, 0x80],
        &[0xf4, 0x8f, 0xbf, 0xbf],
        &[0xff],
    ];
    for bytes in cases {
        assert_eq!(is_utf8(bytes), std::str::from_utf8(bytes).is_ok());
    }
    for a in 0u8..=255 {
        for b in 0u8..=255 {
            let bytes = [a, b, 0x80, 0x80];
            for n in 0..=4 {
                assert_eq!(is_utf8(&bytes[..n]), std::str::from_utf8(&bytes[..n]).is_ok());
            }
        }
    }
}
