use editor_core::anchor::Bias;
use editor_core::text::{chars_of, BufferSnapshot};
use editor_core::url_links::{
    find_url, find_url_from_range, spans_text, url_at, url_scan_in_limit, LIMIT,
};

fn url_under(text: &str, offset: usize) -> Option<(std::ops::Range<usize>, String)> {
    let snapshot = BufferSnapshot::new(text);
    assert!(snapshot.is_char_boundary(offset));
    assert!(url_scan_in_limit(&snapshot, offset));
    find_url(&snapshot, offset).map(|(range, url)| {
        assert_eq!((range.start.bias, range.end.bias), (Bias::Left, Bias::Right));
        (range.start.offset..range.end.offset, url)
    })
}

fn url_selected(text: &str, start: usize, end: usize) -> Option<String> {
    find_url_from_range(&BufferSnapshot::new(text), start..end)
}

#[test]
fn url_is_found_anywhere_within_it() {
    let text = "see https://zed.dev/blog now";
    for offset in 4..=24 {
        assert_eq!(
            url_under(text, offset),
            Some((4..24, "https://zed.dev/blog".to_string()))
        );
    }
}

#[test]
fn no_url_beside_it() {
    let text = "see https://zed.dev/blog now";
    for offset in [0, 1, 2, 3, 25, 26, 28] {
        assert_eq!(url_under(text, offset), None);
    }
}

#[test]
fn brackets_around_a_url_are_no_part_of_it() {
    let text = "(https://zed.dev/a)";
    assert_eq!(url_under(text, 0), None);
    assert_eq!(url_under(text, 1), Some((1..18, "https://zed.dev/a".to_string())));
    assert_eq!(url_under(text, 18), Some((1..18, "https://zed.dev/a".to_string())));
    assert_eq!(url_under(text, 19), None);
}

#[test]
fn offsets_are_counted_in_bytes() {
    let text = "€ https://zed.dev/ü é";
    let start = "€ ".len();
    let end = start + "https://zed.dev/ü".len();
    assert_eq!(
        url_under(text, start + 3),
        Some((start..end, "https://zed.dev/ü".to_string()))
    );
}

#[test]
fn mail_addresses_are_no_urls() {
    assert_eq!(url_under("me@zed.dev", 3), None);
}

#[test]
fn the_first_touching_link_is_taken() {
    let token = chars_of("abcdef");
    let links = vec![(0, 3), (3, 6)];
    assert_eq!(url_at(&token, &links, 10, 3), Some((10..13, "abc".to_string())));
    assert_eq!(url_at(&token, &links, 10, 4), Some((13..16, "def".to_string())));
    assert_eq!(url_at(&token, &vec![(1, 2)], 0, 3), None);
    assert_eq!(url_at(&token, &vec![], 0, 3), None);
}

#[test]
fn long_tokens_hold_no_url() {
    let url = format!("https://zed.dev/{}", "a".repeat(LIMIT - "https://zed.dev/".len()));
    assert_eq!(url.len(), LIMIT);
    assert_eq!(url_under(&url, 0), None);
    let shorter = &url[..LIMIT - 1];
    assert_eq!(url_under(shorter, 0), Some((0..LIMIT - 1, shorter.to_string())));
    let padded = format!("{url} ");
    assert_eq!(url_under(&padded, 5), None);
    let far = format!("x{}", "a".repeat(LIMIT));
    assert_eq!(url_under(&far, LIMIT + 1), None);
}

#[test]
fn wide_characters_can_exceed_the_bytes_of_the_limit() {
    let text = "é".repeat(1100);
    let snapshot = BufferSnapshot::new(&text);
    assert!(!url_scan_in_limit(&snapshot, text.len()));
    assert!(url_scan_in_limit(&snapshot, 2048));
    assert!(url_scan_in_limit(&snapshot, 0));
}

#[test]
fn selected_url() {
    let text = "  https://zed.dev  ";
    assert_eq!(url_selected(text, 2, 17), Some("https://zed.dev".to_string()));
    assert_eq!(url_selected(text, 0, 19), Some("https://zed.dev".to_string()));
}

#[test]
fn selection_direction_does_not_matter() {
    let text = "  https://zed.dev  ";
    for start in 0..text.len() {
        for end in 0..text.len() {
            assert_eq!(url_selected(text, start, end), url_selected(text, end, start));
        }
    }
}

#[test]
fn selection_must_be_a_single_url() {
    assert_eq!(url_selected("https://zed.dev and more", 0, 24), None);
    assert_eq!(url_selected("at https://zed.dev", 0, 18), None);
    assert_eq!(url_selected("https://zed.dev", 0, 0), None);
    assert_eq!(url_selected(" \u{a0}\t ", 0, 5), None);
    assert_eq!(url_selected("words", 0, 5), None);
}

#[test]
fn long_selections_hold_no_url() {
    let url = format!("https://zed.dev/{}", "a".repeat(LIMIT - "https://zed.dev/".len()));
    assert_eq!(url_selected(&url, 0, LIMIT), None);
    assert_eq!(url_selected(&url, 0, LIMIT - 1), Some(url[..LIMIT - 1].to_string()));
}

#[test]
fn only_the_first_link_counts_for_a_selection() {
    assert!(spans_text(&vec![(0, 5), (6, 7)], 5));
    assert!(!spans_text(&vec![(1, 5)], 5));
    assert!(!spans_text(&vec![(0, 4)], 5));
    assert!(!spans_text(&vec![], 0));
}
