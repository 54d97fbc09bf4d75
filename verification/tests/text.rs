use tanuki::text::byte_size;
use tanuki::text::char_width;
use tanuki::text::decimal_string;
use tanuki::text::hex_string;
use tanuki::text::is_ascii_alphanumeric;
use tanuki::text::is_control;
use tanuki::text::is_whitespace;
use tanuki::text::lower_char;
use tanuki::text::pad_right;
use tanuki::text::same_ignore_case;

#[test]
fn character_classes_are_those_of_the_standard_library() {
    for v in 0..=0x10ffffu32 {
        if let Some(c) = char::from_u32(v) {
            assert_eq!(is_whitespace(c), c.is_whitespace(), "{v:x}");
            assert_eq!(is_control(c), c.is_control(), "{v:x}");
            assert_eq!(is_ascii_alphanumeric(c), c.is_ascii_alphanumeric(), "{v:x}");
            assert_eq!(lower_char(c), c.to_ascii_lowercase(), "{v:x}");
            assert_eq!(char_width(c), c.len_utf8(), "{v:x}");
        }
    }
}

#[test]
fn numbers_are_written_as_usual() {
    for n in [0u128, 1, 9, 10, 15, 16, 255, 256, 1_000_000_007, u64::MAX as u128, u128::MAX] {
        assert_eq!(decimal_string(n), format!("{n}"));
        assert_eq!(hex_string(n), format!("{n:x}"));
    }
}

#[test]
fn padding_counts_characters() {
    for s in ["", "a", "abc", "abcdefghij", "яя"] {
        assert_eq!(pad_right(s, 5), format!("{s:<5}"));
    }
}

#[test]
fn sizes_and_case() {
    assert_eq!(byte_size("aя日😀"), 1 + 2 + 3 + 4);
    assert!(same_ignore_case("AbC", "aBc"));
    assert!(!same_ignore_case("abc", "abd"));
    assert!(!same_ignore_case("é", "É"));
}
