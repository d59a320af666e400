use secret_agent::text::{bytes_equal, eq_ignoring_case, fold_case, is_whitespace, trim};

#[test]
fn trim_drops_white_space_at_both_ends() {
    assert_eq!(trim("  s3cr3t\n"), "s3cr3t");
    assert_eq!(trim("\t\r\n mongodb://db:27017/orders \u{a0}\u{3000}"), "mongodb://db:27017/orders");
    assert_eq!(trim("a b"), "a b");
    assert_eq!(trim("  a  b  "), "a  b");
}

#[test]
fn trim_of_nothing_but_white_space_is_empty() {
    assert_eq!(trim(""), "");
    assert_eq!(trim(" "), "");
    assert_eq!(trim("\n\n\t \u{2028}"), "");
}

#[test]
fn trim_keeps_text_without_white_space_at_its_ends() {
    assert_eq!(trim("x"), "x");
    assert_eq!(trim("päss wörd"), "päss wörd");
    assert_eq!(trim("\u{200b}x\u{200b}"), "\u{200b}x\u{200b}");
}

#[test]
fn trim_agrees_with_the_standard_library() {
    for text in ["", " a", "a ", "\u{85}a\u{85}", "\u{1680}\u{2000}a\u{200a}", "\u{feff}a", " \0 ", "a\u{202f}\u{205f}"] {
        assert_eq!(trim(text), text.trim(), "{:?}", text);
    }
}

#[test]
fn white_space_is_what_the_standard_library_says() {
    let mut n: u32 = 0;
    while n <= 0x10_ffff {
        if let Some(c) = char::from_u32(n) {
            assert_eq!(is_whitespace(c), c.is_whitespace(), "U+{:04X}", n);
        }
        n += 1;
    }
}

#[test]
fn case_of_ascii_letters_is_ignored() {
    assert!(eq_ignoring_case("X-API-Key", "x-api-key"));
    assert!(eq_ignoring_case("x-api-key", "X-API-KEY"));
    assert!(eq_ignoring_case("", ""));
    assert!(eq_ignoring_case("a1-_Z", "A1-_z"));
}

#[test]
fn other_differences_are_not_ignored() {
    assert!(!eq_ignoring_case("x-api-key", "x-api-keys"));
    assert!(!eq_ignoring_case("x-api-key", "x_api_key"));
    assert!(!eq_ignoring_case("x-api-key", ""));
    assert!(!eq_ignoring_case("@", "`"));
    assert!(!eq_ignoring_case("[", "{"));
    assert!(!eq_ignoring_case("k", "\u{212a}"));
    assert!(!eq_ignoring_case("ä", "Ä"));
}

#[test]
fn case_folding_agrees_with_the_standard_library() {
    let mut n: u32 = 0;
    while n <= 0x10_ffff {
        if let Some(c) = char::from_u32(n) {
            assert_eq!(fold_case(c), c.to_ascii_lowercase() as u32, "U+{:04X}", n);
        }
        n += 1;
    }
}

#[test]
fn byte_strings_are_compared_in_full() {
    assert!(bytes_equal(b"", b""));
    assert!(bytes_equal(b"s3cr3t", b"s3cr3t"));
    assert!(!bytes_equal(b"s3cr3t", b"s3cr3T"));
    assert!(!bytes_equal(b"s3cr3t", b"S3cr3t"));
    assert!(!bytes_equal(b"s3cr3t", b"s3cr3t "));
    assert!(!bytes_equal(b"s3cr3t", b"s3cr3"));
    assert!(!bytes_equal(b"", b"\0"));
    assert!(!bytes_equal(&[0x80], &[0x00]));
    assert!(!bytes_equal(&[0x01, 0x02], &[0x02, 0x01]));
}
