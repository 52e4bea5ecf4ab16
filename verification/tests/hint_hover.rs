use editor_core::anchor::{Anchor, Bias, TextAnchor};
use editor_core::brackets::CursorShape;
use editor_core::editor::Editor;
use editor_core::hint_hover::{
    hovered_hint, CachedHint, HintLabel, HintTooltip, HoverBlockKind, HoveredHint, HoveredPart,
    ResolveState,
};
use editor_core::hover_links::{
    InlayId, LinkPlace, LspLocation, LspPosition, TriggerPoint,
};
use editor_core::inlay_hints::Inlay;
use std::collections::HashSet;

fn editor() -> Editor {
    Editor {
        is_full: true,
        has_project: true,
        has_semantics_provider: true,
        pending_rename: false,
        hovered_link_state: None,
        link_highlight: None,
        inlay_hints: None,
        registered_buffers: HashSet::new(),
        inline_values_enabled: false,
        cursor_shape: CursorShape::Bar,
        bracket_highlight: None,
    }
}

fn anchor(position: u64) -> Anchor {
    Anchor {
        position,
        excerpt_id: 1,
        buffer_id: Some(1),
        text_anchor: TextAnchor { offset: position as usize, bias: Bias::Left },
    }
}

fn hint(number: usize, position: u64) -> Inlay {
    Inlay { id: InlayId::Hint(number), position: anchor(position), text_len: 6 }
}

fn place() -> Option<LinkPlace> {
    Some(LinkPlace { buffer: 1, excerpt_id: 1, offset: 0 })
}

fn cached(label: HintLabel, tooltip: Option<HintTooltip>) -> CachedHint {
    CachedHint {
        resolve_state: ResolveState::Resolved,
        padding_left: true,
        padding_right: true,
        label,
        tooltip,
    }
}

fn hovered(cached: CachedHint) -> Option<HoveredHint> {
    Some(HoveredHint { inlay: hint(3, 5), cached: Some(cached) })
}

fn location() -> Option<(u64, LspLocation)> {
    let zero = LspPosition { line: 0, character: 0 };
    Some((7, LspLocation { uri: "file:///a".to_string(), start: zero, end: zero }))
}

fn part(tooltip: Option<HintTooltip>, location: Option<(u64, LspLocation)>) -> HintLabel {
    HintLabel::Parts(100, Some(HoveredPart { tooltip, location, range: 102..105 }))
}

#[test]
fn tooltip_of_a_whole_hint() {
    let tooltip = HintTooltip::Plain("a type".to_string());
    let hovered = hovered(cached(HintLabel::Whole, Some(tooltip)));
    let update = editor()
        .update_inlay_link_and_hover_points(hovered, true, false, false, place())
        .unwrap();
    let hover = update.hover.unwrap();
    assert_eq!(hover.tooltip.text, "a type");
    assert!(matches!(hover.tooltip.kind, HoverBlockKind::PlainText));
    assert_eq!(hover.range.inlay, InlayId::Hint(3));
    assert_eq!(hover.range.inlay_position, anchor(5));
    assert_eq!(hover.range.range, 1..8);
    assert!(!update.search_started && !update.unresolved);
}

#[test]
fn padding_moves_the_range() {
    for (left, right, range) in [(false, false, 0..6), (false, true, 0..7), (true, false, 1..7)] {
        let mut cached = cached(HintLabel::Whole, Some(HintTooltip::Plain(String::new())));
        cached.padding_left = left;
        cached.padding_right = right;
        let update = editor()
            .update_inlay_link_and_hover_points(hovered(cached), false, false, false, None)
            .unwrap();
        assert_eq!(update.hover.unwrap().range.range, range);
    }
}

#[test]
fn tooltip_and_link_of_a_part() {
    let tooltip = HintTooltip::Markup(HoverBlockKind::Markdown, "*T*".to_string());
    let mut editor = editor();
    let hovered = hovered(cached(part(Some(tooltip), location()), None));
    let update = editor
        .update_inlay_link_and_hover_points(hovered, true, false, false, place())
        .unwrap();
    let hover = update.hover.unwrap();
    assert_eq!(hover.tooltip.text, "*T*");
    assert!(matches!(hover.tooltip.kind, HoverBlockKind::Markdown));
    assert_eq!(hover.range.range, 3..7);
    assert!(update.search_started);
    match &editor.hovered_link_state.unwrap().last_trigger_point {
        TriggerPoint::InlayHint(highlight, location, 7) => {
            assert_eq!(highlight.range, 3..7);
            assert_eq!(location.uri, "file:///a");
        }
        _ => panic!("expected the part"),
    }
}

#[test]
fn links_need_the_modifier_and_no_selection() {
    for (secondary, selecting) in [(false, false), (true, true)] {
        let mut editor = editor();
        let hovered = hovered(cached(part(None, location()), None));
        let update = editor
            .update_inlay_link_and_hover_points(hovered, secondary, false, selecting, place())
            .unwrap();
        assert!(update.hover.is_none() && !update.search_started);
        assert!(editor.hovered_link_state.is_none());
    }
}

#[test]
fn hints_that_are_not_resolved_show_nothing() {
    for (state, unresolved) in [(ResolveState::CanResolve, true), (ResolveState::Resolving, false)] {
        let mut cached = cached(HintLabel::Whole, Some(HintTooltip::Plain("t".to_string())));
        cached.resolve_state = state;
        let update = editor()
            .update_inlay_link_and_hover_points(hovered(cached), true, false, false, place())
            .unwrap();
        assert!(update.hover.is_none());
        assert_eq!(update.unresolved, unresolved);
    }
}

#[test]
fn the_range_of_an_unresolved_hint_is_not_counted() {
    let tooltip = Some(HintTooltip::Plain("t".to_string()));
    let outside = HoveredPart { tooltip, location: location(), range: 102..105 };
    let mut cached = cached(HintLabel::Parts(200, Some(outside)), None);
    cached.resolve_state = ResolveState::Resolving;
    let update = editor()
        .update_inlay_link_and_hover_points(hovered(cached), true, false, false, place())
        .unwrap();
    assert!(update.hover.is_none() && !update.search_started && !update.unresolved);
}

#[test]
fn leaving_a_hint_hides_its_link() {
    let mut editor = editor();
    let first = hovered(cached(part(None, location()), None));
    editor.update_inlay_link_and_hover_points(first, true, false, false, place());
    assert!(editor.hovered_link_state.is_some());
    let second = Some(HoveredHint { inlay: hint(4, 6), cached: None });
    let update = editor.update_inlay_link_and_hover_points(second, true, false, false, place());
    assert!(update.unwrap().hover.is_none());
    assert!(editor.hovered_link_state.is_none());
    let first = hovered(cached(part(None, location()), None));
    editor.update_inlay_link_and_hover_points(first, true, false, false, place());
    editor.update_inlay_link_and_hover_points(None, true, false, false, place());
    assert!(editor.hovered_link_state.is_none());
}

#[test]
fn between_the_parts_there_is_nothing() {
    let hovered = hovered(cached(HintLabel::Parts(100, None), Some(HintTooltip::Plain("t".to_string()))));
    let update = editor()
        .update_inlay_link_and_hover_points(hovered, true, false, false, place())
        .unwrap();
    assert!(update.hover.is_none() && !update.search_started);
}

#[test]
fn without_a_project_nothing_is_looked_at() {
    let mut editor = editor();
    editor.has_project = false;
    let hovered = hovered(cached(HintLabel::Whole, None));
    assert!(editor.update_inlay_link_and_hover_points(hovered, true, false, false, place()).is_none());
}

#[test]
fn the_newest_hint_between_the_positions_is_hovered() {
    let other = Inlay { id: InlayId::Other(0, 99), position: anchor(4), text_len: 1 };
    let inlays = vec![hint(9, 1), hint(2, 3), other, hint(5, 4), hint(1, 4), hint(8, 6)];
    assert_eq!(hovered_hint(&inlays, 0, anchor(3), anchor(4)), Some(hint(5, 4)));
    assert_eq!(hovered_hint(&inlays, 0, anchor(2), anchor(3)), Some(hint(2, 3)));
    assert_eq!(hovered_hint(&inlays, 0, anchor(1), anchor(6)), Some(hint(9, 1)));
    assert_eq!(hovered_hint(&inlays, 0, anchor(5), anchor(5)), None);
    assert_eq!(hovered_hint(&inlays, 0, anchor(7), anchor(9)), None);
    assert_eq!(hovered_hint(&inlays, 2, anchor(3), anchor(4)), None);
    assert_eq!(hovered_hint(&vec![], 0, anchor(3), anchor(4)), None);
}
