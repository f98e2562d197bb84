use s3_share::hex::{hex_decode, hex_decode_lossy, hex_encode, HexRead};
use s3_share::number::{i64_text, parse_i64, parse_u16, parse_u64, parse_usize, u64_text};
use s3_share::text::{
    contains_char, ends_with, same, split, starts_with, strip_prefix, strip_suffix, take_chars,
    trim,
};

fn bytes(r: HexRead) -> Option<Vec<u8>> {
    match r {
        HexRead::Bytes(b) => Some(b),
        _ => None,
    }
}

#[test]
fn white_space_is_trimmed_at_both_ends() {
    assert_eq!(trim("  a b \t\n"), "a b");
    assert_eq!(trim("\u{3000}\u{a0}x\u{2028}"), "x");
    assert_eq!(trim(" \t "), "");
    assert_eq!(trim(""), "");
    assert_eq!(trim("abc"), "abc");
}

#[test]
fn white_space_is_a_fixed_set_of_characters() {
    let mut found = Vec::new();
    for n in 0u32..=0x10ffff {
        if let Some(c) = char::from_u32(n) {
            if c.is_whitespace() {
                found.push(n);
            }
        }
    }
    let mut listed: Vec<u32> = (0x9..=0xd).collect();
    listed.extend([0x20, 0x85, 0xa0, 0x1680]);
    listed.extend(0x2000..=0x200a);
    listed.extend([0x2028, 0x2029, 0x202f, 0x205f, 0x3000]);
    assert_eq!(found, listed);
}

#[test]
fn ascii_letters_and_digits_are_alphanumeric() {
    for n in 0u32..0x80 {
        let c = char::from_u32(n).unwrap();
        assert_eq!(c.is_alphanumeric(), c.is_ascii_alphanumeric());
    }
}

#[test]
fn beginnings_and_ends() {
    assert_eq!(strip_prefix("Bearer x", "Bearer "), Some("x".to_string()));
    assert_eq!(strip_prefix("bearer x", "Bearer "), None);
    assert_eq!(strip_prefix("ab", ""), Some("ab".to_string()));
    assert_eq!(strip_suffix("a.json", ".json"), Some("a".to_string()));
    assert_eq!(strip_suffix("json", ".json"), None);
    assert!(starts_with("uploads/x", "uploads/"));
    assert!(!starts_with("up", "uploads/"));
    assert!(ends_with("x/owner.txt", "/owner.txt"));
    assert!(!ends_with("owner.txt", "/owner.txt"));
}

#[test]
fn splitting_keeps_empty_pieces() {
    assert_eq!(split("a-b-c", '-'), vec!["a", "b", "c"]);
    assert_eq!(split("", '-'), vec![""]);
    assert_eq!(split("-", '-'), vec!["", ""]);
    assert_eq!(split("ab", '-'), vec!["ab"]);
    assert!(contains_char("a,b", ','));
    assert!(!contains_char("ab", ','));
}

#[test]
fn first_characters() {
    assert_eq!(take_chars("äöü", 2), "äö");
    assert_eq!(take_chars("ab", 5), "ab");
    assert_eq!(take_chars("", 5), "");
    assert!(same("äb", "äb"));
    assert!(!same("a", "b"));
}

#[test]
fn numbers_are_read_as_the_standard_library_reads_them() {
    let texts = [
        "0", "-0", "+0", "7", "+7", "-7", "007", "", "+", "-", "+-1", " 1", "1 ", "1a", "９",
        "9223372036854775807", "9223372036854775808", "-9223372036854775808",
        "-9223372036854775809", "18446744073709551615", "18446744073709551616", "65535", "65536",
        "99999999999999999999999999999999999999999999",
    ];
    for t in texts {
        assert_eq!(parse_i64(t), t.parse::<i64>().ok(), "{}", t);
        assert_eq!(parse_u64(t), t.parse::<u64>().ok(), "{}", t);
        assert_eq!(parse_usize(t), t.parse::<usize>().ok(), "{}", t);
        assert_eq!(parse_u16(t), t.parse::<u16>().ok(), "{}", t);
    }
}

#[test]
fn numbers_are_written_as_the_standard_library_writes_them() {
    for n in [0i64, 1, -1, 9, 10, -10, 1234567890, i64::MAX, i64::MIN] {
        assert_eq!(i64_text(n), n.to_string());
        assert_eq!(parse_i64(&i64_text(n)), Some(n));
    }
    for n in [0u64, 9, 10, 99, 100, u64::MAX] {
        assert_eq!(u64_text(n), n.to_string());
    }
}

#[test]
fn hexadecimal_reads_back() {
    let all: Vec<u8> = (0..=255).collect();
    let text = hex_encode(&all);
    assert_eq!(&text[..8], "00010203");
    assert_eq!(&text[508..], "feff");
    assert_eq!(bytes(hex_decode(&text)), Some(all.clone()));
    assert_eq!(bytes(hex_decode_lossy(&text)), Some(all.clone()));
    assert_eq!(bytes(hex_decode(&text.to_uppercase())), Some(all));
    assert_eq!(hex_encode(&[]), "");
    assert_eq!(bytes(hex_decode("")), Some(vec![]));
}

#[test]
fn hexadecimal_with_a_digit_left_over() {
    assert_eq!(bytes(hex_decode("a1b")), Some(vec![0xa1]));
    assert_eq!(bytes(hex_decode("z")), Some(vec![]));
    assert_eq!(bytes(hex_decode("a1+f")), Some(vec![0xa1, 0x0f]));
}

#[test]
fn hexadecimal_that_cannot_be_read() {
    assert!(matches!(hex_decode("0g"), HexRead::BadDigit));
    assert!(matches!(hex_decode("-1"), HexRead::BadDigit));
    assert!(matches!(hex_decode("++"), HexRead::BadDigit));
    assert!(matches!(hex_decode("ü"), HexRead::BadDigit));
    assert!(matches!(hex_decode("€"), HexRead::Cut));
    assert!(matches!(hex_decode("0ü"), HexRead::Cut));
    assert!(matches!(hex_decode("0g€"), HexRead::BadDigit));
}

#[test]
fn hexadecimal_with_gaps() {
    assert_eq!(bytes(hex_decode_lossy("a1zzb2")), Some(vec![0xa1, 0xb2]));
    assert_eq!(bytes(hex_decode_lossy("üa1")), Some(vec![0xa1]));
    assert_eq!(bytes(hex_decode_lossy("zz")), Some(vec![]));
    assert!(matches!(hex_decode_lossy("zz€"), HexRead::Cut));
    assert!(matches!(hex_decode_lossy("0ü"), HexRead::Cut));
}
