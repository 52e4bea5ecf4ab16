//! What holds of what an editor does with its inlay hints.

use std::ops::ControlFlow;
use vstd::prelude::*;

use crate::anchor::Anchor;
use crate::clock::{spec_changed_since, Global};
use crate::collections::VecMap;
use crate::editor::Editor;
use crate::hint_data_laws::{
    comes_before, knows_nothing, knows_the_same, law_answered_rows_count_as_fetched,
    law_awaited_answers, law_awaited_answers_are_in_order,
    law_every_hint_of_every_chunk_is_received, law_every_visible_excerpt_is_queried,
    law_hints_removed_on_receipt, law_keys_and_toggles, law_nothing_else_is_inserted,
    law_receipt_changes_nothing_else, law_requests_that_are_made, law_settings_that_remove,
    same_settings, were_asked_for,
};
use crate::hint_refresh::{
    affected_language, by_buffer, first_refresh_step, planned, queried, query_parts,
    spec_buffers_in, spec_language_of, step_after_query, task_for, BufferQuery, RefreshContext,
    RefreshPlan, RefreshStep,
};
use crate::hover_links::InlayId;
use crate::inlay_hints::{
    debounce_value, first_anchor, hints_among, ids, ChunkHints, FetchedChunks, HintKinds, Inlay,
    InlayHintKind, InlayHintRefreshReason, InlayHintSettings, InlaySplice, InvalidationStrategy,
    LspInlayHintData, RefreshDecision, RefreshTask, RowRange,
};

verus! {

/// Every hint of every chunk that is of an allowed kind is known once hints are applied. It is inserted, at
/// the first position at which an excerpt shows it, if it was not known before and is the first of its
/// identity and of an allowed kind among all the chunks.
pub proof fn law_every_fetched_hint_is_applied(
    editor: &mut Editor,
    buffer_id: u64,
    version: &Global,
    strategy: InvalidationStrategy,
    chunks: &Vec<ChunkHints>,
    current: &Vec<Inlay>,
    splice: Option<InlaySplice>,
    i: int,
    j: int,
)
    requires
        call_ensures(
            Editor::apply_fetched_hints,
            (editor, buffer_id, version, strategy, chunks, current),
            splice,
        ),
        old(editor).inlay_hints is Some,
        0 <= i < chunks@.len(),
        chunks@[i].hints is Some,
        0 <= j < chunks@[i].hints->0@.len(),
        old(editor).inlay_hints->0@.allowed_hint_kinds.has(chunks@[i].hints->0@[j].kind),
    ensures
        ({
            let known = old(editor).inlay_hints->0@;
            let hint = chunks@[i].hints->0@[j];
            let is_first = forall|a: int, b: int|
                #![trigger chunks@[a].hints->0@[b]]
                0 <= a < chunks@.len() && chunks@[a].hints is Some && 0 <= b
                    < chunks@[a].hints->0@.len() && comes_before(a, b, i, j) ==> !(
                chunks@[a].hints->0@[b].id == hint.id && known.allowed_hint_kinds.has(
                    chunks@[a].hints->0@[b].kind,
                ));
            &&& splice is Some
            &&& final(editor).inlay_hints is Some
            &&& final(editor).inlay_hints->0@.added_hints.contains_key(hint.id)
            &&& !known.added_hints.contains_key(hint.id) && is_first && first_anchor(
                hint.anchors@,
            ) is Some ==> splice->0.to_insert@.contains(
                (hint.id, first_anchor(hint.anchors@)->0),
            )
        }),
{
    law_every_hint_of_every_chunk_is_received(
        old(editor).inlay_hints->0@,
        buffer_id,
        version@,
        chunks@,
        i,
        j,
    );
}

/// Nothing but hints of the chunks is inserted. Exactly those visible hints are removed that the buffer's
/// invalidation, or the buffers that await removal, ask for. Nothing but the hints changes.
pub proof fn law_nothing_else_is_applied(
    editor: &mut Editor,
    buffer_id: u64,
    version: &Global,
    strategy: InvalidationStrategy,
    chunks: &Vec<ChunkHints>,
    current: &Vec<Inlay>,
    splice: Option<InlaySplice>,
    id: InlayId,
    anchor: Anchor,
    other: u64,
    row: RowRange,
)
    requires
        call_ensures(
            Editor::apply_fetched_hints,
            (editor, buffer_id, version, strategy, chunks, current),
            splice,
        ),
    ensures
        splice is Some <==> old(editor).inlay_hints is Some,
        splice is None ==> *final(editor) == *old(editor),
        *final(editor) == (Editor { inlay_hints: final(editor).inlay_hints, ..*old(editor) }),
        splice matches Some(splice) ==> {
            let known = old(editor).inlay_hints->0@;
            let next = final(editor).inlay_hints->0@;
            let failed = exists|i: int|
                0 <= i < chunks@.len() && (#[trigger] chunks@[i]).hints is None && chunks@[i].chunk
                    == row;
            &&& splice.to_insert@.contains((id, anchor)) ==> !known.added_hints.contains_key(id)
                && exists|i: int, j: int|
                #![trigger chunks@[i].hints->0@[j]]
                {
                    &&& 0 <= i < chunks@.len()
                    &&& chunks@[i].hints is Some
                    &&& 0 <= j < chunks@[i].hints->0@.len()
                    &&& chunks@[i].hints->0@[j].id == id
                    &&& known.allowed_hint_kinds.has(chunks@[i].hints->0@[j].kind)
                    &&& first_anchor(chunks@[i].hints->0@[j].anchors@) == Some(anchor)
                }
            &&& splice.to_remove@.contains(id) <==> exists|inlay: Inlay|
                {
                    &&& #[trigger] current@.contains(inlay)
                    &&& inlay.id == id
                    &&& inlay.id is Hint
                    &&& {
                        ||| !(strategy is Keep) && inlay.position.buffer_id == Some(buffer_id)
                        ||| !known.invalidate_hints_for_buffers.is_empty() && (
                        inlay.position.buffer_id is None
                            || known.invalidate_hints_for_buffers.contains(
                            inlay.position.buffer_id->0,
                        ))
                    }
                }
            &&& final(editor).inlay_hints is Some
            &&& same_settings(next, known)
            &&& next.hint_refresh_tasks == known.hint_refresh_tasks
            &&& next.invalidate_hints_for_buffers == Set::<u64>::empty()
            &&& known.added_hints.contains_key(id) ==> next.added_hints.contains_key(id)
            &&& next.fetched_for(other).1.contains(row) <==> known.fetched_for(other).1.contains(
                row,
            ) && !(other == buffer_id && known.fetched_for(other).0 == version@ && failed)
        },
{
    if old(editor).inlay_hints is Some {
        let known = old(editor).inlay_hints->0@;
        law_nothing_else_is_inserted(known, buffer_id, version@, chunks@, id, anchor);
        law_hints_removed_on_receipt(known, buffer_id, strategy, current@, id);
        law_receipt_changes_nothing_else(known, buffer_id, version@, chunks@, other, row);
    }
}

/// The rows that a provider answers for: none, if it does not answer.
pub open spec fn answered_rows(answered: Option<Vec<RowRange>>) -> Seq<RowRange> {
    match answered {
        Some(rows) => rows@,
        None => Seq::empty(),
    }
}

/// Answers for rows are awaited exactly if their rows are new, or if hints are invalidated or fetched ones
/// ignored. All the rows count as fetched from then on, beside those fetched before unless the buffer
/// has new edits.
pub proof fn law_answers_that_are_awaited(
    editor: &mut Editor,
    buffer_id: u64,
    query: &BufferQuery,
    strategy: InvalidationStrategy,
    ignore: bool,
    answered: Option<Vec<RowRange>>,
    tasks: Option<Vec<usize>>,
    i: int,
    row: RowRange,
    other: u64,
)
    requires
        call_ensures(
            Editor::inlay_hints_for_buffer,
            (editor, buffer_id, query, strategy, ignore, answered),
            tasks,
        ),
    ensures
        tasks is Some <==> old(editor).inlay_hints is Some && old(editor).has_semantics_provider,
        tasks is None ==> *final(editor) == *old(editor),
        *final(editor) == (Editor { inlay_hints: final(editor).inlay_hints, ..*old(editor) }),
        tasks matches Some(tasks) ==> {
            let known = old(editor).inlay_hints->0@;
            let next = final(editor).inlay_hints->0@;
            let edited = spec_changed_since(query.version@, known.fetched_for(buffer_id).0);
            let rows = answered_rows(answered);
            &&& final(editor).inlay_hints is Some
            &&& 0 <= i < rows.len() ==> (tasks@.contains(i as usize) <==> {
                ||| ignore
                ||| !(strategy is Keep)
                ||| (edited || !known.fetched_for(buffer_id).1.contains(rows[i])) && forall|
                    j: int,
                |
                    0 <= j < i ==> #[trigger] rows[j] != rows[i]
            })
            &&& forall|k: int| 0 <= k < tasks@.len() ==> (#[trigger] tasks@[k]) < rows.len()
            &&& forall|k: int, l: int|
                0 <= k < l < tasks@.len() ==> #[trigger] tasks@[k] < #[trigger] tasks@[l]
            &&& next.fetched_for(buffer_id).1.contains(row) <==> rows.contains(row) || !edited
                && known.fetched_for(buffer_id).1.contains(row)
            &&& next.fetched_for(buffer_id).0 == if edited {
                query.version@
            } else {
                known.fetched_for(buffer_id).0
            }
            &&& other != buffer_id ==> next.fetched_for(other) == known.fetched_for(other)
            &&& same_settings(next, known)
            &&& next.added_hints == known.added_hints
            &&& next.hint_refresh_tasks == known.hint_refresh_tasks
            &&& next.invalidate_hints_for_buffers == known.invalidate_hints_for_buffers
        },
{
    if let Some(tasks) = tasks {
        let known = old(editor).inlay_hints->0@;
        let rows = answered_rows(answered);
        let all = ignore || strategy.invalidates();
        let fetched = known.fetched_at(buffer_id, query.version@).1;
        let expected = crate::inlay_hints::awaited(fetched, rows, all);
        let indices = tasks@.map_values(|index: usize| index as int);
        law_answered_rows_count_as_fetched(known, buffer_id, query.version@, rows, row, other);
        law_awaited_answers_are_in_order(fetched, rows, all);
        assert(indices == expected);
        assert forall|k: int| 0 <= k < tasks@.len() implies (#[trigger] tasks@[k])
            < rows.len() by {
            assert(indices[k] == expected[k]);
        }
        assert forall|k: int, l: int| 0 <= k < l < tasks@.len() implies #[trigger] tasks@[k]
            < #[trigger] tasks@[l] by {
            assert(indices[k] < indices[l]);
        }
        if 0 <= i < rows.len() {
            law_awaited_answers(fetched, rows, all, i);
            assert(i as usize == i) by {
                if answered is Some {
                    assert(rows.len() == answered->0.len());
                }
            }
            if tasks@.contains(i as usize) {
                let k = choose|k: int| 0 <= k < tasks@.len() && tasks@[k] == i as usize;
                assert(indices[k] == i);
                assert(expected.contains(i));
            }
            if expected.contains(i) {
                let k = choose|k: int| 0 <= k < expected.len() && expected[k] == i;
                assert(indices[k] == i);
                assert(tasks@[k] == i as usize);
            }
        }
    }
}

/// Whatever a provider is told of fetched rows is what was fetched, and it is told exactly if there is
/// anything, and neither hints are invalidated nor fetched ones ignored.
pub proof fn law_told_rows(
    editor: &Editor,
    buffer_id: u64,
    strategy: InvalidationStrategy,
    ignore: bool,
    known: Option<Option<FetchedChunks>>,
)
    requires
        call_ensures(Editor::known_inlay_chunks, (editor, buffer_id, strategy, ignore), known),
    ensures
        known is Some <==> editor.inlay_hints is Some && editor.has_semantics_provider,
        known matches Some(told) ==> {
            let data = editor.inlay_hints->0@;
            &&& told is Some <==> strategy is Keep && !ignore && data.hint_chunk_fetched.contains_key(
                buffer_id,
            )
            &&& told is Some ==> told->0@ == data.hint_chunk_fetched[buffer_id]
        },
{
}

/// A request is wanted exactly while it is on record for its rows.
pub proof fn law_wanted_request(
    editor: &Editor,
    buffer_id: u64,
    chunks: &Vec<RowRange>,
    id: u64,
    wanted: bool,
)
    requires
        call_ensures(Editor::is_request_wanted, (editor, buffer_id, chunks, id), wanted),
    ensures
        ({
            let data = editor.inlay_hints->0@;
            let queue = data.hint_refresh_tasks[buffer_id][chunks@];
            wanted <==> editor.inlay_hints is Some && were_asked_for(data, buffer_id, chunks@)
                && exists|i: int| 0 <= i < queue.len() && (#[trigger] queue[i]).id == id
        }),
{
}

/// A request is made exactly if there is someone to ask for rows, and the rows are of new edits, were not
/// asked for, or are asked for again on purpose. A request that is made is the last on record for its
/// rows, behind those of the same version.
pub proof fn law_scheduled_request(
    editor: &mut Editor,
    buffer_id: u64,
    query: &BufferQuery,
    chunks: Option<Vec<RowRange>>,
    task: RefreshTask,
    made: bool,
    other: u64,
)
    requires
        call_ensures(
            Editor::schedule_hints_refresh,
            (editor, buffer_id, query, chunks, task),
            made,
        ),
    ensures
        *final(editor) == (Editor { inlay_hints: final(editor).inlay_hints, ..*old(editor) }),
        old(editor).inlay_hints is None || chunks is None ==> !made && *final(editor) == *old(
            editor,
        ),
        old(editor).inlay_hints is Some && chunks is Some ==> {
            let known = old(editor).inlay_hints->0@;
            let next = final(editor).inlay_hints->0@;
            let rows = chunks->0@;
            let edited = spec_changed_since(query.version@, known.fetched_for(buffer_id).0);
            &&& made <==> edited || !were_asked_for(known, buffer_id, rows) || !(
            task.invalidate_cache is Keep) || task.ignore_previous_fetches
            &&& final(editor).inlay_hints is Some
            &&& made ==> {
                let queue = next.hint_refresh_tasks[buffer_id][rows];
                &&& were_asked_for(next, buffer_id, rows)
                &&& queue.last() == task
                &&& queue.drop_last() == if !edited && were_asked_for(known, buffer_id, rows) {
                    known.hint_refresh_tasks[buffer_id][rows]
                } else {
                    Seq::empty()
                }
            }
            &&& !made ==> next.hint_refresh_tasks[buffer_id] == known.hint_refresh_tasks[buffer_id]
            &&& next.fetched_for(buffer_id) == if edited {
                (query.version@, Set::<RowRange>::empty())
            } else {
                known.fetched_for(buffer_id)
            }
            &&& other != buffer_id ==> next.fetched_for(other) == known.fetched_for(other)
                && next.hint_refresh_tasks.contains_key(other)
                == known.hint_refresh_tasks.contains_key(other) && next.hint_refresh_tasks[other]
                == known.hint_refresh_tasks[other]
            &&& same_settings(next, known)
            &&& next.added_hints == known.added_hints
        },
{
    if old(editor).inlay_hints is Some && chunks is Some {
        let known = old(editor).inlay_hints->0@;
        let next = final(editor).inlay_hints->0@;
        let rows = chunks->0@;
        law_requests_that_are_made(known, buffer_id, query.version@, rows, task, other);
        if made {
            let queue = next.hint_refresh_tasks[buffer_id][rows];
            let edited = spec_changed_since(query.version@, known.fetched_for(buffer_id).0);
            if !edited && were_asked_for(known, buffer_id, rows) {
                assert(queue.drop_last() =~= known.hint_refresh_tasks[buffer_id][rows]);
            } else {
                assert(queue.drop_last() =~= Seq::<RefreshTask>::empty());
            }
        }
    }
}

/// A refresh does something only in a full editor with hints and a provider. Then it removes what the
/// reason asks for, and asks for hints exactly if the reason says so and, after an edit, the buffer's
/// language is known.
pub proof fn law_refreshed(
    editor: &mut Editor,
    reason: InlayHintRefreshReason,
    context: &RefreshContext,
    plan: RefreshPlan,
)
    requires
        call_ensures(Editor::refresh_inlay_hints, (editor, reason, context), plan),
    ensures
        ({
            let does = old(editor).is_full && old(editor).has_semantics_provider && old(
                editor,
            ).inlay_hints is Some;
            &&& *final(editor) == (Editor {
                inlay_hints: final(editor).inlay_hints,
                ..*old(editor)
            })
            &&& !does ==> *final(editor) == *old(editor) && plan.splice is None && plan.query
                is None
            &&& does ==> {
                let known = old(editor).inlay_hints->0@;
                let (handled, removed, strategy) = known.reason_handled(
                    reason,
                    context.current_inlays@,
                );
                &&& (plan.splice is Some) == (removed is Some)
                &&& removed is Some ==> plan.splice->0.to_remove@ == removed->0
                    && plan.splice->0.to_insert@.len() == 0
                &&& plan.query is Some ==> strategy is Some && plan.query->0.task == task_for(
                    handled,
                    reason,
                    strategy->0,
                    context.request_id,
                )
                &&& strategy is Some && !(reason is BufferEdited) ==> plan.query is Some
                &&& strategy is None ==> final(editor).inlay_hints->0@ == handled
                &&& strategy matches Some(strategy) ==> (
                    final(editor).inlay_hints->0@,
                    query_parts(plan.query),
                ) == planned(handled, old(editor).registered_buffers@, reason, strategy, *context)
            }
        }),
{
}

/// Whatever hints are asked for, every visible excerpt of a registered buffer is among it, unless an edit was
/// of another language. After an edit, the buffers of its language have their hints forgotten by the
/// provider.
pub proof fn law_every_visible_excerpt_is_asked_for(
    editor: &mut Editor,
    reason: InlayHintRefreshReason,
    context: &RefreshContext,
    plan: RefreshPlan,
    i: int,
)
    requires
        call_ensures(Editor::refresh_inlay_hints, (editor, reason, context), plan),
        plan.query is Some,
        0 <= i < context.visible_excerpts@.len(),
        old(editor).registered_buffers@.contains(context.visible_excerpts@[i].buffer_id),
        reason matches InlayHintRefreshReason::BufferEdited(edited)
            ==> context.visible_excerpts@[i].language == spec_language_of(
            context.buffers@,
            edited,
        ),
    ensures
        ({
            let excerpt = context.visible_excerpts@[i];
            let query = plan.query->0;
            let ranges = query.buffers@[excerpt.buffer_id].ranges@;
            &&& query.task.id == context.request_id
            &&& query.buffers@.contains_key(excerpt.buffer_id)
            &&& exists|k: int|
                {
                    &&& 0 <= k < ranges.len()
                    &&& (#[trigger] ranges[k]).start.offset == excerpt.start
                    &&& ranges[k].end.offset == excerpt.end
                }
            &&& query.invalidated_buffers is Some <==> reason is BufferEdited
            &&& reason matches InlayHintRefreshReason::BufferEdited(edited)
                ==> query.invalidated_buffers->0@ == spec_buffers_in(
                context.buffers@,
                spec_language_of(context.buffers@, edited)->0,
            )
        }),
{
    let excerpt = context.visible_excerpts@[i];
    let affected = affected_language(reason, context.buffers@);
    let registered = old(editor).registered_buffers@;
    law_every_visible_excerpt_is_queried(context.visible_excerpts@, registered, affected, i);
    let buffers = by_buffer(queried(context.visible_excerpts@, registered, affected));
    let query = plan.query->0;
    assert(query@.buffers == buffers);
    assert(query@.buffers[excerpt.buffer_id] == query.buffers@[excerpt.buffer_id]@);
}

/// Toggling twice comes back to the same switch. Hints that are switched on are asked for, and those that
/// are switched off are removed.
pub proof fn law_toggled(editor: &mut Editor, context: &RefreshContext, plan: RefreshPlan)
    requires
        call_ensures(Editor::toggle_inlay_hints, (editor, context), plan),
        old(editor).is_full,
        old(editor).has_semantics_provider,
        old(editor).inlay_hints is Some,
    ensures
        ({
            let known = old(editor).inlay_hints->0@;
            &&& final(editor).inlay_hints is Some
            &&& final(editor).inlay_hints->0@.enabled == !known.enabled
            &&& !final(editor).inlay_hints->0@.modifiers_override
            &&& known.enabled ==> plan.query is None && plan.splice is Some
                && plan.splice->0.to_remove@ == ids(hints_among(context.current_inlays@))
                && knows_nothing(final(editor).inlay_hints->0@)
            &&& !known.enabled ==> plan.query is Some && plan.splice is None
                && plan.query->0.task.invalidate_cache == InvalidationStrategy::Keep
                && plan.query->0.task.ignore_previous_fetches && plan.query->0.task.debounce
                is None
        }),
{
    let known = old(editor).inlay_hints->0@;
    law_keys_and_toggles(known, context.current_inlays@, !known.enabled);
}

/// A request waits first exactly if it has a wait, and as long as that says. Once the provider was asked,
/// answers are awaited if there are any to await.
pub proof fn law_steps_of_a_refresh(
    task: &RefreshTask,
    first: RefreshStep,
    tasks: Option<Vec<usize>>,
    after: RefreshStep,
)
    requires
        call_ensures(first_refresh_step, (task,), first),
        call_ensures(step_after_query, (tasks,), after),
    ensures
        task.debounce is None ==> first is Query,
        task.debounce is Some ==> first is WaitAndQuery && first->WaitAndQuery_0
            == task.debounce->0,
        tasks is Some && tasks->0@.len() > 0 ==> after is Await && after->Await_0 == tasks->0,
        tasks is None || tasks->0@.len() == 0 ==> after is Done,
{
}

/// What is known at first, once cleared, and once switched.
pub proof fn law_switched_data(
    settings: InlayHintSettings,
    first: LspInlayHintData,
    data: &mut LspInlayHintData,
    held: bool,
    shown: Option<bool>,
)
    requires
        call_ensures(LspInlayHintData::new, (settings,), first),
        call_ensures(LspInlayHintData::modifiers_override, (data, held), shown),
    ensures
        knows_nothing(first@),
        first@.enabled == settings.enabled && first@.enabled_in_settings == settings.enabled,
        !first@.modifiers_override,
        first@.allowed_hint_kinds == settings.hint_kinds,
        held == old(data)@.modifiers_override ==> shown is None && final(data)@ == old(data)@,
        held != old(data)@.modifiers_override ==> {
            &&& shown == Some(old(data)@.enabled == old(data)@.modifiers_override)
            &&& final(data)@.modifiers_override == held
            &&& final(data)@.enabled == old(data)@.enabled
            &&& shown == Some(true) ==> knows_the_same(final(data)@, old(data)@)
            &&& shown == Some(false) ==> knows_nothing(final(data)@)
        },
{
}

/// A switch of hints takes effect exactly if it changes anything, and one that switches them off forgets
/// what is known.
pub proof fn law_toggled_data(data: &mut LspInlayHintData, enabled: bool, toggled: bool)
    requires
        call_ensures(LspInlayHintData::toggle, (data, enabled), toggled),
    ensures
        toggled <==> old(data)@.enabled != enabled,
        final(data)@.enabled == enabled,
        !toggled ==> final(data)@ == old(data)@,
        toggled ==> !final(data)@.modifiers_override,
        toggled && enabled ==> knows_the_same(final(data)@, old(data)@),
        toggled && !enabled ==> knows_nothing(final(data)@),
{
}

/// Clearing forgets what is known and leaves the settings.
pub proof fn law_cleared_data(data: &mut LspInlayHintData)
    requires
        call_ensures(LspInlayHintData::clear, (data,), ()),
    ensures
        knows_nothing(final(data)@),
        same_settings(final(data)@, old(data)@),
{
}

/// Changed settings go on to a refresh exactly if hints are enabled then, and either were not before or are
/// of other kinds. Hints of a kind that is not allowed any more are removed then, and all hints are where
/// they are switched off.
pub proof fn law_updated_settings(
    data: &mut LspInlayHintData,
    settings: InlayHintSettings,
    visible: &Vec<Inlay>,
    flow: ControlFlow<Option<InlaySplice>, Option<InlaySplice>>,
    id: InlayId,
)
    requires
        call_ensures(LspInlayHintData::update_settings, (data, settings, visible), flow),
    ensures
        ({
            let known = old(data)@;
            let next = final(data)@;
            let switched = settings.enabled != known.enabled_in_settings;
            let splice = match flow {
                ControlFlow::Continue(splice) => splice,
                ControlFlow::Break(splice) => splice,
            };
            &&& next.enabled == if switched {
                settings.enabled
            } else {
                known.enabled
            }
            &&& next.enabled_in_settings == settings.enabled
            &&& next.allowed_hint_kinds == settings.hint_kinds
            &&& flow is Continue <==> next.enabled && (!known.enabled || settings.hint_kinds
                != known.allowed_hint_kinds)
            &&& splice is Some ==> splice->0.to_insert@.len() == 0
            &&& known.enabled && !next.enabled && visible@.len() > 0 ==> splice is Some
                && splice->0.to_remove@ == ids(visible@) && knows_nothing(next)
            &&& !(known.enabled && !next.enabled && visible@.len() > 0) ==> knows_the_same(
                next,
                known,
            )
            &&& flow is Continue ==> ((splice is Some && splice->0.to_remove@.contains(id))
                <==> exists|inlay: Inlay|
                {
                    &&& #[trigger] visible@.contains(inlay)
                    &&& inlay.id == id
                    &&& known.added_hints.contains_key(id)
                    &&& !settings.hint_kinds.has(known.added_hints[id])
                })
        }),
{
    law_settings_that_remove(old(data)@, settings, visible@, id);
}

/// Removed buffers take along exactly their own rows and requests.
pub proof fn law_removed_buffers(data: &mut LspInlayHintData, removed: &Vec<u64>, buffer_id: u64)
    requires
        call_ensures(LspInlayHintData::remove_inlay_chunk_data, (data, removed), ()),
    ensures
        ({
            let known = old(data)@;
            let next = final(data)@;
            let gone = removed@.contains(buffer_id);
            &&& next.hint_chunk_fetched.contains_key(buffer_id)
                == (known.hint_chunk_fetched.contains_key(buffer_id) && !gone)
            &&& next.hint_refresh_tasks.contains_key(buffer_id)
                == (known.hint_refresh_tasks.contains_key(buffer_id) && !gone)
            &&& !gone && known.hint_chunk_fetched.contains_key(buffer_id)
                ==> next.hint_chunk_fetched[buffer_id] == known.hint_chunk_fetched[buffer_id]
            &&& !gone && known.hint_refresh_tasks.contains_key(buffer_id)
                ==> next.hint_refresh_tasks[buffer_id] == known.hint_refresh_tasks[buffer_id]
            &&& same_settings(next, known)
            &&& next.added_hints == known.added_hints
            &&& next.invalidate_hints_for_buffers == known.invalidate_hints_for_buffers
        }),
{
}

/// The hints that are known can be looked at.
pub proof fn law_known_hints_are_told(
    data: &LspInlayHintData,
    hints: &VecMap<InlayId, Option<InlayHintKind>>,
)
    requires
        call_ensures(LspInlayHintData::added_hints, (data,), hints),
    ensures
        hints@ == data@.added_hints,
{
}

/// Hints are supported exactly if there is a provider and it supports them for some buffer.
pub proof fn law_supported(editor: &Editor, supported: &Vec<bool>, result: bool)
    requires
        call_ensures(Editor::supports_inlay_hints, (editor, supported), result),
    ensures
        result <==> editor.has_semantics_provider && exists|i: int|
            0 <= i < supported@.len() && #[trigger] supported@[i],
{
    if exists|i: int| 0 <= i < supported@.len() && #[trigger] supported@[i] {
        let i = choose|i: int| 0 <= i < supported@.len() && #[trigger] supported@[i];
        assert(supported@[i] == true);
        assert(supported@.contains(true));
    }
    if supported@.contains(true) {
        let i = choose|i: int| 0 <= i < supported@.len() && supported@[i] == true;
        assert(supported@[i]);
    }
}

/// Inline values are switched, and nothing else is.
pub proof fn law_switched_inline_values(editor: &mut Editor)
    requires
        call_ensures(Editor::toggle_inline_values, (editor,), ()),
    ensures
        final(editor).inline_values_enabled != old(editor).inline_values_enabled,
        *final(editor) == (Editor {
            inline_values_enabled: final(editor).inline_values_enabled,
            ..*old(editor)
        }),
{
}

/// Hints are enabled only where there are any.
pub proof fn law_enabled(editor: &Editor, enabled: bool)
    requires
        call_ensures(Editor::inlay_hints_enabled, (editor,), enabled),
    ensures
        enabled <==> editor.inlay_hints is Some && editor.inlay_hints->0@.enabled,
{
}

/// The visible hints are the inlays that are hints.
pub proof fn law_visible_hints(current: &Vec<Inlay>, hints: Vec<Inlay>, inlay: Inlay)
    requires
        call_ensures(Editor::visible_inlay_hints, (current,), hints),
    ensures
        hints@.contains(inlay) <==> current@.contains(inlay) && inlay.id is Hint,
        hints@ == hints_among(current@),
{
    crate::hint_data_laws::lemma_picked(current@, |inlay: Inlay| inlay.id is Hint, inlay);
}

/// Cleared hints are all removed, none is inserted, and what is cleared is not known any more. Other hints
/// that are known stay so.
pub proof fn law_cleared_hints(
    editor: &mut Editor,
    current: &Vec<Inlay>,
    splice: InlaySplice,
    id: InlayId,
)
    requires
        call_ensures(Editor::clear_inlay_hints, (editor, current), splice),
    ensures
        splice.to_insert@.len() == 0,
        splice.to_remove@.contains(id) <==> exists|inlay: Inlay| #[trigger]
            current@.contains(inlay) && inlay.id == id && inlay.id is Hint,
        *final(editor) == (Editor { inlay_hints: final(editor).inlay_hints, ..*old(editor) }),
        (final(editor).inlay_hints is Some) == (old(editor).inlay_hints is Some),
        old(editor).inlay_hints is Some ==> {
            let known = old(editor).inlay_hints->0@;
            let next = final(editor).inlay_hints->0@;
            &&& next.added_hints.contains_key(id) == (known.added_hints.contains_key(id)
                && !splice.to_remove@.contains(id))
            &&& same_settings(next, known)
            &&& next.hint_chunk_fetched == known.hint_chunk_fetched
            &&& next.hint_refresh_tasks == known.hint_refresh_tasks
        },
{
    let hints = hints_among(current@);
    crate::hint_data_laws::lemma_identity_among(hints, id);
    assert forall|inlay: Inlay| hints.contains(inlay) <==> #[trigger] current@.contains(inlay)
        && inlay.id is Hint by {
        crate::hint_data_laws::lemma_picked(current@, |inlay: Inlay| inlay.id is Hint, inlay);
    }
    if ids(hints).contains(id) {
        let inlay = choose|inlay: Inlay| #[trigger] hints.contains(inlay) && inlay.id == id;
        assert(current@.contains(inlay));
    }
    if exists|inlay: Inlay| #[trigger]
        current@.contains(inlay) && inlay.id == id && inlay.id is Hint {
        let inlay = choose|inlay: Inlay| #[trigger]
            current@.contains(inlay) && inlay.id == id && inlay.id is Hint;
        assert(hints.contains(inlay));
    }
}

/// A reason is dealt with only where there are hints, and comes to what the reason asks for.
pub proof fn law_handled_reason(
    editor: &mut Editor,
    reason: &InlayHintRefreshReason,
    current: &Vec<Inlay>,
    decision: RefreshDecision,
)
    requires
        call_ensures(Editor::refresh_editor_data, (editor, reason, current), decision),
    ensures
        *final(editor) == (Editor { inlay_hints: final(editor).inlay_hints, ..*old(editor) }),
        (final(editor).inlay_hints is Some) == (old(editor).inlay_hints is Some),
        old(editor).inlay_hints is None ==> decision.splice is None && decision.invalidate_cache
            is None,
        old(editor).inlay_hints is Some ==> {
            let known = old(editor).inlay_hints->0@;
            let next = final(editor).inlay_hints->0@;
            let asks = reason is NewLinesShown || reason is BufferEdited || reason
                is RefreshRequested;
            &&& decision.splice is Some ==> decision.splice->0.to_insert@.len() == 0
            &&& asks ==> next == known && decision.splice is None && (
            decision.invalidate_cache is Some <==> known.enabled)
            &&& reason is NewLinesShown && known.enabled ==> decision.invalidate_cache == Some(
                InvalidationStrategy::Keep,
            )
            &&& reason is BufferEdited && known.enabled ==> decision.invalidate_cache == Some(
                InvalidationStrategy::BufferEdited,
            )
            &&& reason is RefreshRequested && known.enabled ==> decision.invalidate_cache == Some(
                InvalidationStrategy::RefreshRequested(reason->RefreshRequested_0),
            )
            &&& reason is ExcerptsRemoved ==> next == known && decision.invalidate_cache is None
                && decision.splice is Some
            &&& reason is Toggle && reason->Toggle_0 != known.enabled ==> (
            decision.invalidate_cache is Some <==> reason->Toggle_0) && (decision.splice is Some
                <==> !reason->Toggle_0) && next.enabled == reason->Toggle_0
            &&& reason is ModifiersChanged && reason->ModifiersChanged_0
                != known.modifiers_override ==> (decision.invalidate_cache is Some
                <==> known.enabled == known.modifiers_override) && (decision.splice is Some
                <==> known.enabled != known.modifiers_override)
            &&& decision.splice is Some && (reason is Toggle || reason is ModifiersChanged)
                ==> decision.splice->0.to_remove@ == ids(hints_among(current@))
        },
{
    if old(editor).inlay_hints is Some {
        let known = old(editor).inlay_hints->0@;
        if reason is Toggle {
            law_keys_and_toggles(known, current@, reason->Toggle_0);
        }
        if reason is ModifiersChanged {
            law_keys_and_toggles(known, current@, reason->ModifiersChanged_0);
        }
    }
}

/// Kinds, waits and strategies say what they are made of.
pub proof fn law_told_kinds_and_waits(
    kinds: &HintKinds,
    kind: Option<InlayHintKind>,
    allowed: bool,
    millis: u64,
    wait: Option<u64>,
    strategy: &InvalidationStrategy,
    invalidates: bool,
)
    requires
        call_ensures(HintKinds::contains, (kinds, kind), allowed),
        call_ensures(debounce_value, (millis,), wait),
        call_ensures(InvalidationStrategy::should_invalidate, (strategy,), invalidates),
    ensures
        kind is None ==> allowed == kinds.other_hints,
        kind == Some(InlayHintKind::Type) ==> allowed == kinds.type_hints,
        kind == Some(InlayHintKind::Parameter) ==> allowed == kinds.parameter_hints,
        wait is Some <==> millis > 0,
        wait is Some ==> wait->0 == millis,
        invalidates <==> strategy is BufferEdited || strategy is RefreshRequested,
{
}

} // verus!
