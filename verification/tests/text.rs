use editor_core::decimal::to_decimal;
use editor_core::text::{char_index, chars_of, collect_text, is_whitespace, utf8_width, BufferSnapshot};
use editor_core::text_order::{text_order, TextOrder};

#[test]
fn whitespace_is_what_the_standard_library_says() {
    for code in 0..=0x10ffffu32 {
        if let Some(c) = char::from_u32(code) {
            assert_eq!(is_whitespace(c), c.is_whitespace(), "U+{code:04X}");
        }
    }
}

#[test]
fn widths_are_what_the_standard_library_says() {
    for code in 0..=0x10ffffu32 {
        if let Some(c) = char::from_u32(code) {
            assert_eq!(utf8_width(c), c.len_utf8(), "U+{code:04X}");
        }
    }
}

#[test]
fn offsets_and_characters() {
    let chars = chars_of("aé€😀");
    assert_eq!(chars, vec!['a', 'é', '€', '😀']);
    assert_eq!(char_index(&chars, 0), Some(0));
    assert_eq!(char_index(&chars, 1), Some(1));
    assert_eq!(char_index(&chars, 2), None);
    assert_eq!(char_index(&chars, 3), Some(2));
    assert_eq!(char_index(&chars, 6), Some(3));
    assert_eq!(char_index(&chars, 10), Some(4));
    assert_eq!(char_index(&chars, 11), None);
    assert_eq!(collect_text(&chars, 1, 3), "é€");
}

#[test]
fn snapshot_knows_its_bytes() {
    let snapshot = BufferSnapshot::new("aé€😀");
    assert_eq!(snapshot.len(), 10);
    assert!(snapshot.is_char_boundary(3));
    assert!(!snapshot.is_char_boundary(4));
    assert!(snapshot.is_char_boundary(10));
    assert!(!snapshot.is_char_boundary(11));
    assert_eq!(BufferSnapshot::new("").len(), 0);
}

#[test]
fn texts_are_ordered_as_the_standard_library_orders_them() {
    let texts = ["", "a", "ab", "abc", "b", "B", "é", "z", "😀", "\u{ffff}", "a\u{0}"];
    for a in texts {
        for b in texts {
            let expected = match a.cmp(b) {
                std::cmp::Ordering::Less => TextOrder::Before,
                std::cmp::Ordering::Equal => TextOrder::Same,
                std::cmp::Ordering::Greater => TextOrder::After,
            };
            assert_eq!(text_order(a, b), expected, "{a:?} {b:?}");
        }
    }
}

#[test]
fn decimal_digits() {
    for number in [0u64, 7, 10, 99, 100, 12345, u64::MAX] {
        assert_eq!(to_decimal(number), number.to_string());
    }
}
