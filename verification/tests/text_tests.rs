use nixbox::decimal::{format_i32, format_u64, parse_i32};
use nixbox::text::{bytes_eq, bytes_eq_str, bytes_of, fields_of, records_of, split_bytes};
use nixbox::text::{starts_with_str, trim_bytes, Delim};

fn b(s: &str) -> Vec<u8> {
    s.as_bytes().to_vec()
}

fn bs(items: &[&str]) -> Vec<Vec<u8>> {
    items.iter().map(|s| b(s)).collect()
}

#[test]
fn split_keeps_empty_pieces() {
    assert_eq!(split_bytes(&b("a//b"), Delim::Byte(b'/')), bs(&["a", "", "b"]));
    assert_eq!(split_bytes(&b(""), Delim::Byte(b'/')), bs(&[""]));
    assert_eq!(split_bytes(&b("/"), Delim::Byte(b'/')), bs(&["", ""]));
    assert_eq!(split_bytes(&b("abc"), Delim::Byte(b'/')), bs(&["abc"]));
}

#[test]
fn fields_drop_empty_pieces() {
    assert_eq!(
        fields_of(&b("  L+ /a\t-  - - -\r/b \n"), Delim::AsciiWhitespace),
        bs(&["L+", "/a", "-", "-", "-", "-", "/b"])
    );
    assert_eq!(fields_of(&b("   "), Delim::AsciiWhitespace), bs(&[]));
    // A vertical tab is no ASCII whitespace.
    assert_eq!(fields_of(&b("a\x0bb"), Delim::AsciiWhitespace), bs(&["a\x0bb"]));
}

#[test]
fn records_end_with_their_separator() {
    assert_eq!(records_of(&b("a\0b\0"), Delim::Byte(0)), bs(&["a", "b"]));
    assert_eq!(records_of(&b("a\0b"), Delim::Byte(0)), bs(&["a", "b"]));
    assert_eq!(records_of(&b(""), Delim::Byte(0)), bs(&[]));
    assert_eq!(records_of(&b("a\0\0"), Delim::Byte(0)), bs(&["a", ""]));
    assert_eq!(records_of(&b("\0"), Delim::Byte(0)), bs(&[""]));
}

#[test]
fn trim_removes_whitespace_at_both_ends() {
    assert_eq!(trim_bytes(&b(" \t 42 \r\n")), b("42"));
    assert_eq!(trim_bytes(&b("4 2")), b("4 2"));
    assert_eq!(trim_bytes(&b(" \n ")), b(""));
    assert_eq!(trim_bytes(&b("\x0b1\x0c")), b("1"));
}

#[test]
fn byte_comparisons() {
    assert!(bytes_eq(&b("abc"), &b("abc")));
    assert!(!bytes_eq(&b("abc"), &b("abd")));
    assert!(!bytes_eq(&b("abc"), &b("ab")));
    assert!(bytes_eq_str(&b("L+"), "L+"));
    assert!(!bytes_eq_str(&b("L"), "L+"));
    assert_eq!(bytes_of("nix"), b("nix"));
    assert!(starts_with_str(&b("Exec=sh"), "Exec="));
    assert!(!starts_with_str(&b("Exe"), "Exec="));
    assert!(!starts_with_str(&b("exec=sh"), "Exec="));
}

#[test]
fn numbers_are_written_in_decimal() {
    assert_eq!(format_u64(0), b("0"));
    assert_eq!(format_u64(7), b("7"));
    assert_eq!(format_u64(1000), b("1000"));
    assert_eq!(format_u64(u64::MAX), b("18446744073709551615"));
    assert_eq!(format_i32(-1), b("-1"));
    assert_eq!(format_i32(i32::MIN), b("-2147483648"));
    assert_eq!(format_i32(i32::MAX), b("2147483647"));
}

#[test]
fn numbers_are_read_as_rust_reads_them() {
    for text in [
        "0", "42", "+42", "-42", "007", "-0", "2147483647", "2147483648", "-2147483648",
        "-2147483649", "", "-", "+", "4 2", "42x", "x", "99999999999999999999",
        "0000000000000000000000000005", "--1", "1-",
    ] {
        assert_eq!(parse_i32(&b(text)), text.parse::<i32>().ok(), "{:?}", text);
    }
}

#[test]
fn written_numbers_read_back() {
    for n in [0, 1, -1, 9, 10, 12345, -12345, i32::MAX, i32::MIN] {
        assert_eq!(parse_i32(&format_i32(n)), Some(n));
    }
}
