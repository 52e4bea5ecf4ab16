use editor_core::anchor::{Anchor, Bias, TextAnchor};
use editor_core::brackets::CursorShape;
use editor_core::clock::Global;
use editor_core::editor::Editor;
use editor_core::hint_refresh::{
    first_refresh_step, step_after_query, BufferLanguage, BufferQuery, RefreshContext, RefreshStep,
    VisibleExcerpt,
};
use editor_core::hover_links::InlayId;
use editor_core::inlay_hints::{
    debounce_value, ChunkHints, FetchedHint, HintKinds, Inlay, InlayHintKind,
    InlayHintRefreshReason, InlayHintSettings, InvalidationStrategy, LspInlayHintData, RefreshTask,
    RowRange,
};
use std::collections::HashSet;
use std::ops::ControlFlow;

const ALL: HintKinds = HintKinds { type_hints: true, parameter_hints: true, other_hints: true };
const TYPES: HintKinds = HintKinds { type_hints: true, parameter_hints: false, other_hints: false };

fn settings(enabled: bool, hint_kinds: HintKinds) -> InlayHintSettings {
    InlayHintSettings { enabled, hint_kinds, edit_debounce_ms: 700, scroll_debounce_ms: 50 }
}

fn editor(enabled: bool) -> Editor {
    Editor {
        is_full: true,
        has_project: true,
        has_semantics_provider: true,
        pending_rename: false,
        hovered_link_state: None,
        link_highlight: None,
        inlay_hints: Some(LspInlayHintData::new(settings(enabled, ALL))),
        registered_buffers: HashSet::from([1, 2]),
        inline_values_enabled: false,
        cursor_shape: CursorShape::Bar,
        bracket_highlight: None,
    }
}

fn anchor(position: u64, excerpt_id: u64, buffer_id: Option<u64>) -> Anchor {
    Anchor {
        position,
        excerpt_id,
        buffer_id,
        text_anchor: TextAnchor { offset: position as usize, bias: Bias::Left },
    }
}

fn hint(number: usize, buffer_id: u64) -> Inlay {
    Inlay { id: InlayId::Hint(number), position: anchor(1, buffer_id, Some(buffer_id)), text_len: 3 }
}

fn other(number: usize) -> Inlay {
    Inlay { id: InlayId::Other(1, number), position: anchor(1, 1, Some(1)), text_len: 3 }
}

fn version(edits: u32) -> Global {
    Global { values: vec![edits] }
}

fn excerpt(buffer_id: u64, language: Option<u64>, edits: u32, start: usize, end: usize) -> VisibleExcerpt {
    VisibleExcerpt { buffer_id, language, version: version(edits), start, end }
}

fn context(current_inlays: Vec<Inlay>) -> RefreshContext {
    RefreshContext {
        request_id: 77,
        current_inlays,
        visible_excerpts: vec![
            excerpt(1, Some(100), 1, 0, 10),
            excerpt(2, Some(200), 1, 0, 20),
            excerpt(1, Some(100), 2, 30, 40),
            excerpt(3, Some(100), 1, 0, 5),
        ],
        buffers: vec![
            BufferLanguage { buffer_id: 1, language: Some(100) },
            BufferLanguage { buffer_id: 2, language: Some(200) },
            BufferLanguage { buffer_id: 3, language: Some(100) },
            BufferLanguage { buffer_id: 4, language: None },
        ],
    }
}

const ROWS: RowRange = RowRange { start: 0, end: 50 };
const MORE_ROWS: RowRange = RowRange { start: 50, end: 100 };

fn task(invalidate_cache: InvalidationStrategy, ignore_previous_fetches: bool) -> RefreshTask {
    RefreshTask { id: 77, invalidate_cache, ignore_previous_fetches, debounce: None }
}

fn fetched(number: usize, kind: Option<InlayHintKind>, anchors: Vec<Option<Anchor>>) -> FetchedHint {
    FetchedHint { id: InlayId::Hint(number), kind, anchors }
}

fn chunk(hints: Option<Vec<FetchedHint>>) -> ChunkHints {
    ChunkHints { chunk: ROWS, hints }
}

fn receive(editor: &mut Editor, hints: Vec<FetchedHint>) -> (Vec<InlayId>, Vec<(InlayId, Anchor)>) {
    let splice = editor
        .apply_fetched_hints(1, &version(1), InvalidationStrategy::Keep, &vec![chunk(Some(hints))], &vec![])
        .unwrap();
    (splice.to_remove, splice.to_insert)
}

#[test]
fn no_wait_is_no_debounce() {
    assert_eq!(debounce_value(0), None);
    assert_eq!(debounce_value(5), Some(5));
}

#[test]
fn kinds() {
    assert!(TYPES.contains(Some(InlayHintKind::Type)));
    assert!(!TYPES.contains(Some(InlayHintKind::Parameter)));
    assert!(!TYPES.contains(None));
}

#[test]
fn only_some_strategies_invalidate() {
    assert!(!InvalidationStrategy::Keep.should_invalidate());
    assert!(InvalidationStrategy::BufferEdited.should_invalidate());
    assert!(InvalidationStrategy::RefreshRequested(3).should_invalidate());
}

#[test]
fn versions_hold_edits() {
    assert!(version(2).changed_since(&version(1)));
    assert!(!version(1).changed_since(&version(1)));
    assert!(!version(1).changed_since(&version(2)));
    assert!(Global { values: vec![1, 1] }.changed_since(&version(5)));
    assert!(!Global { values: vec![1, 0] }.changed_since(&version(1)));
    assert!(!Global::new().changed_since(&version(1)));
    assert!(!Global { values: vec![1, 0] }.same(&version(1)));
    assert!(version(4).same(&version(4).clone()));
}

#[test]
fn modifier_key_reverses_what_is_shown() {
    let mut data = LspInlayHintData::new(settings(true, ALL));
    assert_eq!(data.modifiers_override(false), None);
    assert_eq!(data.modifiers_override(true), Some(false));
    assert_eq!(data.modifiers_override(true), None);
    assert_eq!(data.modifiers_override(false), Some(true));
    let mut data = LspInlayHintData::new(settings(false, ALL));
    assert_eq!(data.modifiers_override(true), Some(true));
    assert_eq!(data.modifiers_override(false), Some(false));
}

#[test]
fn toggling_restores() {
    let mut data = LspInlayHintData::new(settings(true, ALL));
    assert!(!data.toggle(true));
    assert!(data.toggle(false));
    assert!(!data.toggle(false));
    assert!(data.toggle(true));
    data.modifiers_override(true);
    assert!(data.toggle(false));
    assert_eq!(data.modifiers_override(false), None);
}

#[test]
fn clearing_forgets_hints() {
    let mut editor = editor(true);
    receive(&mut editor, vec![fetched(1, None, vec![])]);
    let data = editor.inlay_hints.as_mut().unwrap();
    assert!(data.added_hints().contains_key(&InlayId::Hint(1)));
    data.clear();
    assert!(!data.added_hints().contains_key(&InlayId::Hint(1)));
}

#[test]
fn unchanged_settings_do_nothing() {
    let mut data = LspInlayHintData::new(settings(true, ALL));
    assert!(matches!(data.update_settings(settings(true, ALL), &vec![hint(1, 1)]), ControlFlow::Break(None)));
    let mut data = LspInlayHintData::new(settings(false, ALL));
    assert!(matches!(data.update_settings(settings(false, TYPES), &vec![hint(1, 1)]), ControlFlow::Break(None)));
}

#[test]
fn a_change_of_kinds_removes_what_is_not_allowed() {
    let mut editor = editor(true);
    let here = || vec![Some(anchor(1, 1, Some(1)))];
    receive(
        &mut editor,
        vec![fetched(1, Some(InlayHintKind::Type), here()), fetched(2, None, here())],
    );
    let data = editor.inlay_hints.as_mut().unwrap();
    let visible = vec![hint(1, 1), hint(2, 1), hint(3, 1)];
    match data.update_settings(settings(true, TYPES), &visible) {
        ControlFlow::Continue(Some(splice)) => {
            assert_eq!(splice.to_remove, vec![InlayId::Hint(2)]);
            assert!(splice.to_insert.is_empty());
        }
        _ => panic!("expected a removal"),
    }
    assert!(matches!(data.update_settings(settings(true, ALL), &visible), ControlFlow::Continue(None)));
}

#[test]
fn switching_off_removes_everything() {
    let mut data = LspInlayHintData::new(settings(true, ALL));
    match data.update_settings(settings(false, ALL), &vec![hint(1, 1), hint(2, 1)]) {
        ControlFlow::Break(Some(splice)) => {
            assert_eq!(splice.to_remove, vec![InlayId::Hint(1), InlayId::Hint(2)]);
        }
        _ => panic!("expected a removal"),
    }
    let mut data = LspInlayHintData::new(settings(true, ALL));
    assert!(matches!(data.update_settings(settings(false, ALL), &vec![]), ControlFlow::Break(None)));
    assert!(matches!(data.update_settings(settings(true, ALL), &vec![]), ControlFlow::Continue(None)));
}

#[test]
fn settings_leave_toggled_hints_alone() {
    let mut data = LspInlayHintData::new(settings(true, ALL));
    data.toggle(false);
    assert!(matches!(data.update_settings(settings(true, TYPES), &vec![]), ControlFlow::Break(None)));
    assert!(data.toggle(true));
}

#[test]
fn support_needs_a_provider_and_a_buffer() {
    let mut editor = editor(true);
    assert!(editor.supports_inlay_hints(&vec![false, true]));
    assert!(!editor.supports_inlay_hints(&vec![false]));
    assert!(!editor.supports_inlay_hints(&vec![]));
    editor.has_semantics_provider = false;
    assert!(!editor.supports_inlay_hints(&vec![true]));
}

#[test]
fn inline_values_toggle() {
    let mut editor = editor(true);
    editor.toggle_inline_values();
    assert!(editor.inline_values_enabled);
    editor.toggle_inline_values();
    assert!(!editor.inline_values_enabled);
}

#[test]
fn only_hints_are_visible_hints() {
    let visible = Editor::visible_inlay_hints(&vec![other(1), hint(2, 1), other(3), hint(4, 1)]);
    assert_eq!(visible, vec![hint(2, 1), hint(4, 1)]);
}

#[test]
fn cleared_hints_are_forgotten() {
    let mut editor = editor(true);
    receive(&mut editor, vec![fetched(1, None, vec![]), fetched(2, None, vec![])]);
    let splice = editor.clear_inlay_hints(&vec![hint(1, 1), other(7)]);
    assert_eq!(splice.to_remove, vec![InlayId::Hint(1)]);
    let data = editor.inlay_hints.as_ref().unwrap();
    assert!(!data.added_hints().contains_key(&InlayId::Hint(1)));
    assert!(data.added_hints().contains_key(&InlayId::Hint(2)));
}

#[test]
fn toggling_from_the_editor() {
    let mut editor = editor(true);
    assert!(editor.inlay_hints_enabled());
    let plan = editor.toggle_inlay_hints(&context(vec![hint(1, 1), other(2)]));
    assert!(!editor.inlay_hints_enabled());
    assert_eq!(plan.splice.unwrap().to_remove, vec![InlayId::Hint(1)]);
    assert!(plan.query.is_none());
    let plan = editor.toggle_inlay_hints(&context(vec![]));
    assert!(editor.inlay_hints_enabled());
    let query = plan.query.unwrap();
    assert_eq!(query.task, task(InvalidationStrategy::Keep, true));
    editor.inlay_hints = None;
    assert!(!editor.inlay_hints_enabled());
}

#[test]
fn refreshes_need_a_full_editor_with_a_provider() {
    for change in 0..3 {
        let mut editor = editor(true);
        match change {
            0 => editor.is_full = false,
            1 => editor.has_semantics_provider = false,
            _ => editor.inlay_hints = None,
        }
        let reason = InlayHintRefreshReason::NewLinesShown;
        let plan = editor.refresh_inlay_hints(reason, &context(vec![hint(1, 1)]));
        assert!(plan.splice.is_none() && plan.query.is_none());
    }
}

#[test]
fn new_lines_are_asked_for_by_buffer() {
    let mut editor = editor(true);
    let plan = editor.refresh_inlay_hints(InlayHintRefreshReason::NewLinesShown, &context(vec![]));
    let query = plan.query.unwrap();
    assert_eq!(query.task.invalidate_cache, InvalidationStrategy::Keep);
    assert!(!query.task.ignore_previous_fetches);
    assert_eq!(query.task.debounce, Some(50));
    assert!(query.invalidated_buffers.is_none());
    assert_eq!(query.buffers.len(), 2);
    let first = &query.buffers[&1];
    assert_eq!(first.version.values, vec![2]);
    assert_eq!(first.ranges.len(), 2);
    assert_eq!(first.ranges[0].start, TextAnchor { offset: 0, bias: Bias::Left });
    assert_eq!(first.ranges[1].end, TextAnchor { offset: 40, bias: Bias::Right });
    assert_eq!(query.buffers[&2].ranges.len(), 1);
}

#[test]
fn edits_invalidate_buffers_of_the_language() {
    let mut editor = editor(true);
    let plan = editor.refresh_inlay_hints(InlayHintRefreshReason::BufferEdited(1), &context(vec![]));
    let query = plan.query.unwrap();
    assert_eq!(query.task.invalidate_cache, InvalidationStrategy::BufferEdited);
    assert_eq!(query.task.debounce, Some(700));
    assert_eq!(query.invalidated_buffers, Some(vec![1, 3]));
    assert_eq!(query.task.id, 77);
    assert_eq!(query.buffers.len(), 1);
    assert!(query.buffers.contains_key(&1));
    let shown = vec![hint(1, 1), hint(2, 2), hint(3, 3), other(4)];
    let splice = editor
        .apply_fetched_hints(2, &version(1), InvalidationStrategy::Keep, &vec![], &shown)
        .unwrap();
    assert_eq!(splice.to_remove, vec![InlayId::Hint(1), InlayId::Hint(3)]);
    let splice = editor
        .apply_fetched_hints(2, &version(1), InvalidationStrategy::Keep, &vec![], &shown)
        .unwrap();
    assert!(splice.to_remove.is_empty());
}

#[test]
fn edits_without_a_language_ask_nothing() {
    for buffer in [4, 9] {
        let mut editor = editor(true);
        let plan = editor.refresh_inlay_hints(InlayHintRefreshReason::BufferEdited(buffer), &context(vec![]));
        assert!(plan.query.is_none());
    }
}

#[test]
fn servers_can_ask_for_a_refresh() {
    let mut editor = editor(true);
    receive(&mut editor, vec![fetched(1, None, vec![])]);
    let plan = editor.refresh_inlay_hints(InlayHintRefreshReason::RefreshRequested(5), &context(vec![]));
    let query = plan.query.unwrap();
    assert_eq!(query.task.invalidate_cache, InvalidationStrategy::RefreshRequested(5));
    assert_eq!(query.task.debounce, Some(700));
    let data = editor.inlay_hints.as_ref().unwrap();
    assert!(!data.added_hints().contains_key(&InlayId::Hint(1)));
}

#[test]
fn removed_excerpts_take_their_inlays_along() {
    let mut editor = editor(true);
    let reason = InlayHintRefreshReason::ExcerptsRemoved(vec![2, 3]);
    let shown = vec![hint(1, 1), hint(2, 2), other(5), hint(3, 3)];
    let plan = editor.refresh_inlay_hints(reason, &context(shown));
    assert_eq!(plan.splice.unwrap().to_remove, vec![InlayId::Hint(2), InlayId::Hint(3)]);
    assert!(plan.query.is_none());
}

#[test]
fn disabled_hints_are_asked_for_by_the_modifier_key_alone() {
    let mut editor = editor(false);
    for reason in [
        InlayHintRefreshReason::NewLinesShown,
        InlayHintRefreshReason::BufferEdited(1),
        InlayHintRefreshReason::RefreshRequested(1),
    ] {
        assert!(editor.refresh_inlay_hints(reason, &context(vec![])).query.is_none());
    }
    let plan = editor.refresh_inlay_hints(InlayHintRefreshReason::ModifiersChanged(true), &context(vec![]));
    assert_eq!(plan.query.unwrap().task, task(InvalidationStrategy::Keep, true));
    let reason = InlayHintRefreshReason::ModifiersChanged(false);
    let plan = editor.refresh_inlay_hints(reason, &context(vec![hint(1, 1)]));
    assert_eq!(plan.splice.unwrap().to_remove, vec![InlayId::Hint(1)]);
    assert!(plan.query.is_none());
}

#[test]
fn changed_settings_refresh_at_once() {
    let mut editor = editor(true);
    let reason = InlayHintRefreshReason::SettingsChange(settings(true, TYPES));
    let plan = editor.refresh_inlay_hints(reason, &context(vec![]));
    assert!(plan.splice.is_none());
    assert_eq!(plan.query.unwrap().task, task(InvalidationStrategy::Keep, true));
    let reason = InlayHintRefreshReason::SettingsChange(settings(false, TYPES));
    let plan = editor.refresh_inlay_hints(reason, &context(vec![hint(1, 1)]));
    assert_eq!(plan.splice.unwrap().to_remove, vec![InlayId::Hint(1)]);
    assert!(plan.query.is_none());
}

fn query(edits: u32) -> BufferQuery {
    BufferQuery { version: version(edits), ranges: vec![] }
}

#[test]
fn requests_are_not_repeated() {
    let mut editor = editor(true);
    let keep = task(InvalidationStrategy::Keep, false);
    assert!(editor.schedule_hints_refresh(1, &query(1), Some(vec![ROWS]), keep));
    assert!(!editor.schedule_hints_refresh(1, &query(1), Some(vec![ROWS]), keep));
    assert!(editor.schedule_hints_refresh(1, &query(1), Some(vec![ROWS, MORE_ROWS]), keep));
    assert!(editor.schedule_hints_refresh(2, &query(1), Some(vec![ROWS]), keep));
    assert!(editor.schedule_hints_refresh(1, &query(2), Some(vec![ROWS]), keep));
    assert!(!editor.schedule_hints_refresh(1, &query(2), Some(vec![ROWS]), keep));
    assert!(editor.schedule_hints_refresh(1, &query(2), Some(vec![ROWS]), task(InvalidationStrategy::Keep, true)));
    assert!(editor.schedule_hints_refresh(1, &query(2), Some(vec![ROWS]), task(InvalidationStrategy::BufferEdited, false)));
    assert!(!editor.schedule_hints_refresh(1, &query(2), None, keep));
    editor.inlay_hints.as_mut().unwrap().remove_inlay_chunk_data(&vec![1]);
    assert!(editor.schedule_hints_refresh(1, &query(2), Some(vec![ROWS]), keep));
    editor.inlay_hints = None;
    assert!(!editor.schedule_hints_refresh(1, &query(2), Some(vec![ROWS]), keep));
}

#[test]
fn requests_are_wanted_while_on_record() {
    let mut editor = editor(true);
    let request = |id| RefreshTask { id, ..task(InvalidationStrategy::Keep, true) };
    let rows = vec![ROWS];
    assert!(!editor.is_request_wanted(1, &rows, 1));
    assert!(editor.schedule_hints_refresh(1, &query(1), Some(rows.clone()), request(1)));
    assert!(editor.schedule_hints_refresh(1, &query(1), Some(rows.clone()), request(2)));
    assert!(editor.schedule_hints_refresh(2, &query(1), Some(rows.clone()), request(2)));
    assert!(editor.is_request_wanted(1, &rows, 1));
    assert!(editor.is_request_wanted(1, &rows, 2));
    assert!(!editor.is_request_wanted(1, &rows, 3));
    assert!(!editor.is_request_wanted(1, &vec![MORE_ROWS], 1));
    assert!(editor.schedule_hints_refresh(1, &query(2), Some(vec![MORE_ROWS]), request(3)));
    assert!(!editor.is_request_wanted(1, &rows, 1));
    assert!(editor.is_request_wanted(1, &vec![MORE_ROWS], 3));
    assert!(editor.is_request_wanted(2, &rows, 2));
    editor.inlay_hints.as_mut().unwrap().remove_inlay_chunk_data(&vec![2]);
    assert!(!editor.is_request_wanted(2, &rows, 2));
    editor.inlay_hints.as_mut().unwrap().clear();
    assert!(!editor.is_request_wanted(1, &vec![MORE_ROWS], 3));
    editor.inlay_hints = None;
    assert!(!editor.is_request_wanted(1, &vec![MORE_ROWS], 3));
}

#[test]
fn known_hints_can_be_read_and_changed() {
    let mut data = LspInlayHintData::new(settings(true, ALL));
    let kind = Some(InlayHintKind::Type);
    data.added_hints_mut().insert(InlayId::Hint(4), kind);
    assert_eq!(data.added_hints().get(&InlayId::Hint(4)), Some(&kind));
    match data.update_settings(settings(true, HintKinds { type_hints: false, ..ALL }), &vec![hint(4, 1)]) {
        ControlFlow::Continue(Some(splice)) => assert_eq!(splice.to_remove, vec![InlayId::Hint(4)]),
        _ => panic!("expected a removal"),
    }
}

#[test]
fn fetched_rows_are_not_awaited_again() {
    let mut editor = editor(true);
    let keep = InvalidationStrategy::Keep;
    let rows = || Some(vec![ROWS, MORE_ROWS]);
    assert_eq!(editor.inlay_hints_for_buffer(1, &query(1), keep, false, rows()), Some(vec![0, 1]));
    assert_eq!(editor.inlay_hints_for_buffer(1, &query(1), keep, false, rows()), Some(vec![]));
    assert_eq!(editor.inlay_hints_for_buffer(1, &query(1), keep, true, rows()), Some(vec![0, 1]));
    assert_eq!(editor.inlay_hints_for_buffer(1, &query(1), keep, false, None), Some(vec![]));
    assert_eq!(editor.inlay_hints_for_buffer(1, &query(2), keep, false, rows()), Some(vec![0, 1]));
    editor.has_semantics_provider = false;
    assert_eq!(editor.inlay_hints_for_buffer(1, &query(2), keep, false, rows()), None);
}

#[test]
fn the_provider_is_told_what_is_known() {
    let mut editor = editor(true);
    let keep = InvalidationStrategy::Keep;
    assert!(matches!(editor.known_inlay_chunks(1, keep, false), Some(None)));
    editor.inlay_hints_for_buffer(1, &query(3), keep, false, Some(vec![ROWS]));
    let known = editor.known_inlay_chunks(1, keep, false).unwrap().unwrap();
    assert_eq!(known.version.values, vec![3]);
    assert!(known.chunks.contains(&ROWS) && !known.chunks.contains(&MORE_ROWS));
    assert!(matches!(editor.known_inlay_chunks(1, keep, true), Some(None)));
    assert!(matches!(editor.known_inlay_chunks(1, InvalidationStrategy::BufferEdited, false), Some(None)));
    editor.has_semantics_provider = false;
    assert!(editor.known_inlay_chunks(1, keep, false).is_none());
}

#[test]
fn hints_are_inserted_once() {
    let mut editor = editor(true);
    let here = anchor(4, 2, Some(1));
    let there = anchor(9, 3, Some(1));
    let (removed, inserted) = receive(
        &mut editor,
        vec![
            fetched(1, None, vec![None, Some(here), Some(there)]),
            fetched(1, None, vec![Some(there)]),
            fetched(2, None, vec![None]),
        ],
    );
    assert!(removed.is_empty());
    assert_eq!(inserted, vec![(InlayId::Hint(1), here)]);
    let (_, inserted) = receive(&mut editor, vec![fetched(2, None, vec![Some(here)])]);
    assert!(inserted.is_empty());
}

#[test]
fn hints_of_other_kinds_are_not_inserted() {
    let mut editor = editor(true);
    editor.inlay_hints = Some(LspInlayHintData::new(settings(true, TYPES)));
    let here = anchor(4, 2, Some(1));
    let (_, inserted) = receive(
        &mut editor,
        vec![
            fetched(1, None, vec![Some(here)]),
            fetched(2, Some(InlayHintKind::Type), vec![Some(here)]),
        ],
    );
    assert_eq!(inserted, vec![(InlayId::Hint(2), here)]);
}

#[test]
fn invalidated_hints_of_the_buffer_are_removed() {
    let mut editor = editor(true);
    let shown = vec![hint(1, 1), hint(2, 2), other(3)];
    let splice = editor
        .apply_fetched_hints(1, &version(1), InvalidationStrategy::BufferEdited, &vec![], &shown)
        .unwrap();
    assert_eq!(splice.to_remove, vec![InlayId::Hint(1)]);
    editor.inlay_hints = None;
    assert!(editor
        .apply_fetched_hints(1, &version(1), InvalidationStrategy::BufferEdited, &vec![], &shown)
        .is_none());
}

#[test]
fn failed_rows_are_fetched_again() {
    let mut editor = editor(true);
    let keep = InvalidationStrategy::Keep;
    editor.inlay_hints_for_buffer(1, &query(1), keep, false, Some(vec![ROWS]));
    editor.apply_fetched_hints(1, &version(2), keep, &vec![chunk(None)], &vec![]);
    assert_eq!(editor.inlay_hints_for_buffer(1, &query(1), keep, false, Some(vec![ROWS])), Some(vec![]));
    editor.apply_fetched_hints(1, &version(1), keep, &vec![chunk(None)], &vec![]);
    assert_eq!(editor.inlay_hints_for_buffer(1, &query(1), keep, false, Some(vec![ROWS])), Some(vec![0]));
}

#[test]
fn steps_of_a_request() {
    let mut request = task(InvalidationStrategy::Keep, false);
    assert!(matches!(first_refresh_step(&request), RefreshStep::Query));
    request.debounce = Some(9);
    assert!(matches!(first_refresh_step(&request), RefreshStep::WaitAndQuery(9)));
    assert!(matches!(step_after_query(Some(vec![2])), RefreshStep::Await(list) if list == vec![2]));
    assert!(matches!(step_after_query(Some(vec![])), RefreshStep::Done));
    assert!(matches!(step_after_query(None), RefreshStep::Done));
}
