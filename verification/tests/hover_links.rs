use editor_core::anchor::{anchored, Anchor, Bias, TextAnchor};
use editor_core::brackets::CursorShape;
use editor_core::editor::Editor;
use editor_core::file_links::ResolvedPath;
use editor_core::hover_links::{
    exclude_link_to_position, find_references_after_click, links_to_follow, show_link_definition,
    ClickReveal, Definition, GoToDefinitionFallback, GotoDefinitionKind, HoverAction, HoverLink,
    InlayHighlight, InlayId, LinkHighlight, LinkPlace, LinkResult, LinkSearch, LinkStep, Location,
    LocationLink, LspLocation, LspPosition, Modifiers, Navigated, RangeInEditor, ScrollTarget,
    TriggerPoint,
};
use editor_core::text::BufferSnapshot;
use std::collections::HashSet;

fn editor() -> Editor {
    Editor {
        is_full: true,
        has_project: true,
        has_semantics_provider: true,
        pending_rename: false,
        hovered_link_state: None,
        link_highlight: None,
        inlay_hints: None,
        registered_buffers: HashSet::new(),
        inline_values_enabled: false,
        cursor_shape: CursorShape::Bar,
        bracket_highlight: None,
    }
}

fn anchor(position: u64) -> Anchor {
    Anchor {
        position,
        excerpt_id: 1,
        buffer_id: Some(1),
        text_anchor: TextAnchor { offset: position as usize, bias: Bias::Left },
    }
}

fn text_anchor(offset: usize, bias: Bias) -> TextAnchor {
    TextAnchor { offset, bias }
}

fn place(offset: usize) -> Option<LinkPlace> {
    Some(LinkPlace { buffer: 1, excerpt_id: 1, offset })
}

fn highlight(start: usize, end: usize) -> InlayHighlight {
    InlayHighlight { inlay: InlayId::Hint(3), inlay_position: anchor(5), range: start..end }
}

fn lsp_location(uri: &str) -> LspLocation {
    let zero = LspPosition { line: 0, character: 0 };
    LspLocation { uri: uri.to_string(), start: zero, end: zero }
}

fn hint_point(start: usize, end: usize) -> TriggerPoint {
    TriggerPoint::InlayHint(highlight(start, end), lsp_location("file:///a"), 7)
}

fn link_to(buffer: u64, start: usize, end: usize) -> LocationLink {
    LocationLink {
        origin: None,
        target: Location {
            buffer,
            range: text_anchor(start, Bias::Left)..text_anchor(end, Bias::Right),
        },
    }
}

fn finish(editor: &mut Editor, point: &TriggerPoint, links: Vec<HoverLink>, range: Option<RangeInEditor>) {
    editor.finish_link_search(
        point,
        GotoDefinitionKind::Symbol,
        Some(LinkResult { symbol_range: range, links }),
    );
}

#[test]
fn text_ranges_hold_their_ends() {
    let range = RangeInEditor::Text(anchor(2)..anchor(4));
    for (position, held) in [(1, false), (2, true), (3, true), (4, true), (5, false)] {
        assert_eq!(range.point_within_range(&TriggerPoint::Text(anchor(position))), held);
    }
    assert!(!range.point_within_range(&hint_point(2, 3)));
    let text = range.as_text_range().unwrap();
    assert_eq!((text.start, text.end), (anchor(2), anchor(4)));
}

#[test]
fn inlay_ranges_do_not_hold_their_end() {
    let range = RangeInEditor::Inlay(highlight(2, 6));
    assert!(range.point_within_range(&hint_point(2, 5)));
    assert!(!range.point_within_range(&hint_point(2, 6)));
    assert!(!range.point_within_range(&hint_point(1, 5)));
    assert!(!range.point_within_range(&TriggerPoint::Text(anchor(3))));
    let mut other = highlight(2, 5);
    other.inlay = InlayId::Hint(4);
    assert!(!range.point_within_range(&TriggerPoint::InlayHint(other, lsp_location("file:///a"), 7)));
    assert!(range.as_text_range().is_none());
}

#[test]
fn trigger_points_are_compared_in_every_part() {
    assert!(hint_point(1, 2) == hint_point(1, 2));
    assert!(hint_point(1, 2) != hint_point(1, 3));
    assert!(TriggerPoint::Text(anchor(1)) == TriggerPoint::Text(anchor(1)));
    assert!(TriggerPoint::Text(anchor(1)) != TriggerPoint::Text(anchor(2)));
    assert!(TriggerPoint::Text(anchor(5)) != hint_point(1, 2));
    let elsewhere = TriggerPoint::InlayHint(highlight(1, 2), lsp_location("file:///b"), 7);
    assert!(hint_point(1, 2) != elsewhere);
    assert_eq!(*hint_point(1, 2).anchor(), anchor(5));
}

#[test]
fn links_back_to_the_position_are_excluded() {
    let link = link_to(1, 3, 8);
    assert!(!exclude_link_to_position(1, &text_anchor(5, Bias::Left), &link));
    assert!(!exclude_link_to_position(1, &text_anchor(3, Bias::Left), &link));
    assert!(!exclude_link_to_position(1, &text_anchor(8, Bias::Right), &link));
    assert!(exclude_link_to_position(1, &text_anchor(2, Bias::Right), &link));
    assert!(exclude_link_to_position(1, &text_anchor(9, Bias::Left), &link));
    assert!(exclude_link_to_position(2, &text_anchor(5, Bias::Left), &link));
}

#[test]
fn a_new_trigger_point_starts_a_search() {
    let mut editor = editor();
    let point = TriggerPoint::Text(anchor(4));
    assert!(show_link_definition(false, &mut editor, point.clone(), place(4)));
    let state = editor.hovered_link_state.as_ref().unwrap();
    assert_eq!(state.preferred_kind, GotoDefinitionKind::Symbol);
    assert!(state.links.is_empty() && state.symbol_range.is_none());
    let search = state.task.as_ref().unwrap();
    assert_eq!(search.place, LinkPlace { buffer: 1, excerpt_id: 1, offset: 4 });
    assert!(search.has_project && search.has_provider);
}

#[test]
fn showing_again_starts_no_second_search() {
    let mut editor = editor();
    let point = TriggerPoint::Text(anchor(4));
    assert!(show_link_definition(false, &mut editor, point.clone(), place(4)));
    assert!(!show_link_definition(false, &mut editor, point.clone(), place(4)));
    assert!(editor.hovered_link_state.is_some());
}

#[test]
fn shift_asks_for_types() {
    let mut editor = editor();
    assert!(show_link_definition(true, &mut editor, TriggerPoint::Text(anchor(4)), place(4)));
    let state = editor.hovered_link_state.as_ref().unwrap();
    assert_eq!(state.preferred_kind, GotoDefinitionKind::Type);
    let mut editor = self::editor();
    assert!(show_link_definition(false, &mut editor, hint_point(0, 1), place(4)));
    let state = editor.hovered_link_state.as_ref().unwrap();
    assert_eq!(state.preferred_kind, GotoDefinitionKind::Type);
}

#[test]
fn known_links_are_kept_within_their_range() {
    let mut editor = editor();
    let point = TriggerPoint::Text(anchor(4));
    show_link_definition(false, &mut editor, point.clone(), place(4));
    let range = RangeInEditor::Text(anchor(3)..anchor(9));
    finish(&mut editor, &point, vec![HoverLink::Text(link_to(2, 0, 1))], Some(range));
    assert!(matches!(editor.link_highlight, Some(LinkHighlight::Range(_))));
    assert!(!show_link_definition(false, &mut editor, TriggerPoint::Text(anchor(8)), place(8)));
    assert!(editor.link_highlight.is_some());
    assert!(show_link_definition(false, &mut editor, TriggerPoint::Text(anchor(10)), place(10)));
    assert!(editor.link_highlight.is_some());
}

#[test]
fn links_of_another_kind_lose_their_underline() {
    let mut editor = editor();
    let point = TriggerPoint::Text(anchor(4));
    show_link_definition(false, &mut editor, point.clone(), place(4));
    let range = RangeInEditor::Text(anchor(3)..anchor(9));
    finish(&mut editor, &point, vec![HoverLink::Text(link_to(2, 0, 1))], Some(range));
    assert!(show_link_definition(true, &mut editor, point, place(4)));
    assert!(editor.link_highlight.is_none());
    assert!(editor.hovered_link_state.is_some());
}

#[test]
fn urls_are_of_every_kind() {
    let mut editor = editor();
    let point = TriggerPoint::Text(anchor(4));
    show_link_definition(false, &mut editor, point.clone(), place(4));
    let range = RangeInEditor::Text(anchor(3)..anchor(9));
    finish(&mut editor, &point, vec![HoverLink::Url("https://zed.dev".to_string())], Some(range));
    assert!(!show_link_definition(true, &mut editor, point, place(4)));
    assert!(editor.link_highlight.is_some());
}

#[test]
fn a_pending_rename_or_a_missing_buffer_forgets_links() {
    for (rename, place) in [(true, place(4)), (false, None)] {
        let mut editor = editor();
        let point = TriggerPoint::Text(anchor(4));
        show_link_definition(false, &mut editor, point.clone(), self::place(4));
        editor.pending_rename = rename;
        assert!(!show_link_definition(false, &mut editor, point, place));
        assert!(editor.hovered_link_state.is_none());
    }
}

fn search(point: TriggerPoint, offset: usize, has_provider: bool) -> LinkSearch {
    LinkSearch {
        trigger_point: point,
        preferred_kind: GotoDefinitionKind::Symbol,
        place: LinkPlace { buffer: 1, excerpt_id: 1, offset },
        has_project: true,
        has_provider,
    }
}

#[test]
fn a_search_finds_a_url_first() {
    let buffer = BufferSnapshot::new("see https://zed.dev now");
    match search(TriggerPoint::Text(anchor(8)), 8, true).begin(&buffer) {
        LinkStep::AnchorUrl { range, url } => {
            assert_eq!(range, anchored(4, 19));
            assert_eq!(url, "https://zed.dev");
        }
        _ => panic!("expected a URL"),
    }
    let step = search(TriggerPoint::Text(anchor(1)), 1, true).begin(&buffer);
    assert!(matches!(step, LinkStep::FindFile));
    let result = LinkSearch::url_anchored("u".to_string(), Some(anchor(4)..anchor(19)));
    assert!(matches!(result.links.as_slice(), [HoverLink::Url(url)] if url == "u"));
    assert!(matches!(result.symbol_range, Some(RangeInEditor::Text(_))));
    assert!(LinkSearch::url_anchored("u".to_string(), None).symbol_range.is_none());
}

#[test]
fn an_inlay_hint_brings_its_link() {
    let buffer = BufferSnapshot::new("");
    match search(hint_point(1, 2), 9, true).begin(&buffer) {
        LinkStep::Done(Some(result)) => {
            assert!(matches!(result.links.as_slice(), [HoverLink::InlayHint(location, 7)]
                if location.uri == "file:///a"));
            assert!(matches!(result.symbol_range, Some(RangeInEditor::Inlay(h)) if h.range == (1..2)));
        }
        _ => panic!("expected a link"),
    }
}

#[test]
fn definitions_are_looked_for_last() {
    let point = TriggerPoint::Text(anchor(1));
    assert!(matches!(search(point.clone(), 1, true).file_searched(None), LinkStep::FindDefinitions));
    assert!(matches!(search(point.clone(), 1, false).file_searched(None), LinkStep::Done(None)));
    let path = ResolvedPath { path: "/a".to_string(), is_dir: false };
    match search(point, 1, true).file_searched(Some((Some(anchor(0)..anchor(3)), path))) {
        LinkStep::Done(Some(result)) => {
            assert!(matches!(result.links.as_slice(), [HoverLink::File(path)] if path.path == "/a"));
            assert!(result.symbol_range.is_some());
        }
        _ => panic!("expected a file"),
    }
}

#[test]
fn the_first_known_origin_is_the_range() {
    assert!(LinkSearch::definitions_found(None).is_none());
    let definitions = vec![
        Definition { link: link_to(1, 0, 1), origin_range: None },
        Definition { link: link_to(2, 0, 1), origin_range: Some(anchor(2)..anchor(3)) },
        Definition { link: link_to(3, 0, 1), origin_range: Some(anchor(4)..anchor(5)) },
    ];
    let result = LinkSearch::definitions_found(Some(definitions)).unwrap();
    assert_eq!(result.links.len(), 3);
    assert!(matches!(&result.links[2], HoverLink::Text(link) if link.target.buffer == 3));
    let range = result.symbol_range.unwrap().as_text_range().unwrap();
    assert_eq!((range.start, range.end), (anchor(2), anchor(3)));
}

#[test]
fn links_without_a_range_underline_the_word() {
    let mut editor = editor();
    let point = TriggerPoint::Text(anchor(4));
    show_link_definition(false, &mut editor, point.clone(), place(4));
    finish(&mut editor, &point, vec![HoverLink::Text(link_to(2, 0, 1))], None);
    assert!(matches!(editor.link_highlight, Some(LinkHighlight::SurroundingWord(a)) if a == anchor(4)));
    finish(&mut editor, &point, vec![], None);
    assert!(editor.link_highlight.is_none());
    assert!(editor.hovered_link_state.is_some());
}

#[test]
fn a_search_without_result_or_state_hides_links() {
    let mut editor = editor();
    let point = TriggerPoint::Text(anchor(4));
    show_link_definition(false, &mut editor, point.clone(), place(4));
    editor.finish_link_search(&point, GotoDefinitionKind::Symbol, None);
    assert!(editor.hovered_link_state.is_none());
    finish(&mut editor, &point, vec![HoverLink::Url("u".to_string())], None);
    assert!(editor.hovered_link_state.is_none() && editor.link_highlight.is_none());
}

#[test]
fn the_pointer_shows_links_only_with_the_modifier() {
    let modifiers = Modifiers { shift: true, alt: false };
    let mut editor = editor();
    show_link_definition(false, &mut editor, TriggerPoint::Text(anchor(4)), place(4));
    assert_eq!(
        editor.update_hovered_link(true, false, true, modifiers),
        HoverAction::ShowDefinition { shift_held: true }
    );
    assert_eq!(
        editor.update_hovered_link(true, false, false, modifiers),
        HoverAction::UpdateInlayPoints { secondary_held: true, shift_held: true }
    );
    assert!(editor.hovered_link_state.is_some());
    assert_eq!(editor.update_hovered_link(true, true, true, modifiers), HoverAction::Hidden);
    assert!(editor.hovered_link_state.is_none());
    assert_eq!(editor.update_hovered_link(false, false, true, modifiers), HoverAction::Hidden);
}

#[test]
fn a_click_follows_known_links() {
    let mut editor = editor();
    let point = TriggerPoint::Text(anchor(4));
    show_link_definition(false, &mut editor, point.clone(), place(4));
    let links = vec![
        HoverLink::Text(link_to(1, 3, 8)),
        HoverLink::Text(link_to(2, 3, 8)),
        HoverLink::Url("u".to_string()),
    ];
    finish(&mut editor, &point, links, None);
    let clicked = Some((1, text_anchor(5, Bias::Left)));
    let modifiers = Modifiers { shift: false, alt: true };
    match editor.cmd_click_reveal_task(false, clicked, true, modifiers) {
        ClickReveal::FollowLinks { focus, links, split } => {
            assert!(focus && split);
            assert_eq!(links.len(), 2);
            assert!(matches!(&links[0], HoverLink::Text(link) if link.target.buffer == 2));
        }
        _ => panic!("expected links"),
    }
    assert!(editor.hovered_link_state.is_none() && editor.link_highlight.is_none());
}

#[test]
fn a_click_outside_buffers_goes_nowhere() {
    let mut editor = editor();
    let point = TriggerPoint::Text(anchor(4));
    show_link_definition(false, &mut editor, point.clone(), place(4));
    finish(&mut editor, &point, vec![HoverLink::Url("u".to_string())], None);
    let modifiers = Modifiers { shift: false, alt: false };
    let reveal = editor.cmd_click_reveal_task(true, None, true, modifiers);
    assert!(matches!(reveal, ClickReveal::NotNavigated { focus: false }));
}

#[test]
fn a_click_without_links_looks_the_definition_up() {
    for (shift, valid, kind) in [
        (false, true, Some(GotoDefinitionKind::Symbol)),
        (true, true, Some(GotoDefinitionKind::Type)),
        (true, false, None),
    ] {
        let modifiers = Modifiers { shift, alt: true };
        match editor().cmd_click_reveal_task(true, None, valid, modifiers) {
            ClickReveal::SelectAndGo { definition, split } => {
                assert_eq!(definition, kind);
                assert!(split);
            }
            _ => panic!("expected a selection"),
        }
    }
}

#[test]
fn only_text_links_are_excluded() {
    let links = vec![HoverLink::Url("u".to_string()), HoverLink::Text(link_to(1, 0, 9))];
    let kept = links_to_follow(&links, 1, &text_anchor(4, Bias::Left));
    assert!(matches!(kept.as_slice(), [HoverLink::Url(_)]));
}

#[test]
fn references_are_the_fallback() {
    let all = GoToDefinitionFallback::FindAllReferences;
    assert!(!find_references_after_click(Some(Navigated::Yes), all));
    assert!(find_references_after_click(Some(Navigated::No), all));
    assert!(find_references_after_click(None, all));
    assert!(!find_references_after_click(None, GoToDefinitionFallback::Nothing));
}

#[test]
fn the_first_popover_at_the_selection_scrolls() {
    let popovers = vec![
        RangeInEditor::Text(anchor(0)..anchor(2)),
        RangeInEditor::Text(anchor(3)..anchor(5)),
        RangeInEditor::Text(anchor(4)..anchor(6)),
    ];
    let editor = editor();
    assert_eq!(editor.scroll_hover(&popovers, anchor(4), true), ScrollTarget::Popover(1));
    assert_eq!(editor.scroll_hover(&popovers, anchor(9), true), ScrollTarget::ContextMenu);
    assert_eq!(editor.scroll_hover(&popovers, anchor(9), false), ScrollTarget::Nothing);
}
