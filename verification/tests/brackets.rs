use editor_core::brackets::{BracketPair, CursorShape, Selection};
use editor_core::editor::Editor;
use editor_core::text::BufferSnapshot;
use std::collections::HashSet;

fn editor_with(cursor_shape: CursorShape) -> Editor {
    Editor {
        is_full: true,
        has_project: true,
        has_semantics_provider: true,
        pending_rename: false,
        hovered_link_state: None,
        link_highlight: None,
        inlay_hints: None,
        registered_buffers: HashSet::new(),
        inline_values_enabled: false,
        cursor_shape,
        bracket_highlight: None,
    }
}

fn cursor(offset: usize) -> Selection {
    Selection { start: offset, end: offset, reversed: false }
}

fn query(shape: CursorShape, selection: Selection, text: &str) -> Option<(usize, usize)> {
    let buffer = BufferSnapshot::new(text);
    editor_with(shape)
        .refresh_matching_bracket_highlights(selection, &buffer)
        .map(|range| (range.start, range.end))
}

#[test]
fn bars_cover_nothing() {
    assert_eq!(query(CursorShape::Bar, cursor(1), "(é)"), Some((1, 1)));
    assert_eq!(query(CursorShape::Underline, cursor(1), "(é)"), Some((1, 1)));
}

#[test]
fn blocks_cover_the_next_character() {
    assert_eq!(query(CursorShape::Block, cursor(1), "(é)"), Some((1, 3)));
    assert_eq!(query(CursorShape::Hollow, cursor(3), "(é)"), Some((3, 4)));
    assert_eq!(query(CursorShape::Block, cursor(4), "(é)"), Some((4, 4)));
}

#[test]
fn selections_and_lost_cursors_have_no_brackets() {
    let selected = Selection { start: 0, end: 1, reversed: true };
    assert_eq!(selected.head(), 0);
    assert_eq!(query(CursorShape::Bar, selected, "(é)"), None);
    assert_eq!(query(CursorShape::Block, cursor(5), "(é)"), None);
}

#[test]
fn highlight_is_replaced() {
    let mut editor = editor_with(CursorShape::Bar);
    editor.highlight_brackets(Some(BracketPair { opening: 0..1, closing: 3..4 }));
    assert_eq!(editor.bracket_highlight.as_ref().unwrap().closing, 3..4);
    let buffer = BufferSnapshot::new("(é)");
    editor.refresh_matching_bracket_highlights(cursor(1), &buffer);
    assert!(editor.bracket_highlight.is_none());
    editor.highlight_brackets(None);
    assert!(editor.bracket_highlight.is_none());
}
