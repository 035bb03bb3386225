use usb_platform::text::{equal_ignoring_ascii_case, parse_number, rightmost, stands_at};

#[test]
fn numbers_are_read_as_the_standard_library_reads_them() {
    let texts = [
        "", "+", "-", "0", "+0", "-0", "7", "+7", "++7", "00000000000007", "10", "ff", "FF", "fG",
        "+f", "255", "256", "4294967295", "4294967296", "99999999999999999999", "1_0", " 1", "1 ",
        "\u{e9}", "0x1", "z",
    ];
    for text in texts {
        let bytes = text.as_bytes();
        assert_eq!(
            parse_number(bytes, 0, bytes.len(), 10, u32::MAX),
            text.parse::<u32>().ok()
        );
        assert_eq!(
            parse_number(bytes, 0, bytes.len(), 16, 255),
            u8::from_str_radix(text, 16).ok().map(u32::from)
        );
    }
    assert_eq!(parse_number(b"a12b", 1, 3, 10, 99), Some(12));
    assert_eq!(parse_number(b"a12b", 1, 3, 10, 11), None);
    assert_eq!(parse_number(b"a12b", 1, 1, 10, 99), None);
}

#[test]
fn patterns_are_found() {
    assert!(stands_at(b"abcabc", b"bc", 4));
    assert!(!stands_at(b"abcabc", b"bc", 5));
    assert!(!stands_at(b"abc", b"bc", 9));
    assert!(stands_at(b"abc", b"", 3));
    assert_eq!(rightmost(b"abcabc", b"bc"), Some(4));
    assert_eq!(rightmost(b"aaaa", b"aa"), Some(2));
    assert_eq!(rightmost(b"abc", b"x"), None);
    assert_eq!(rightmost(b"", b"x"), None);
}

#[test]
fn case_is_ignored_for_ascii_only() {
    assert!(equal_ignoring_ascii_case("WinUSB", "winusb"));
    assert!(equal_ignoring_ascii_case("", ""));
    assert!(!equal_ignoring_ascii_case("winusb", "winusb2"));
    assert!(!equal_ignoring_ascii_case("@", "`"));
    assert!(!equal_ignoring_ascii_case("\u{c9}", "\u{e9}"));
}
