//! What holds of inlay hints across several calls.

use vstd::prelude::*;

use crate::anchor::Anchor;
use crate::hint_refresh::{
    by_buffer, is_listed, is_queried, planned, queried, spec_buffers_in, spec_language_of,
    BufferLanguage, RefreshContext, VisibleExcerpt,
};
use crate::hover_links::InlayId;
use crate::inlay_hints::{
    awaited, failed_chunks, hints_added, hints_among, ids, ChunkHints, FetchedHint, HintData,
    HintKinds, Inlay, InlayHintKind, InlayHintRefreshReason, InlayHintSettings,
    InvalidationStrategy, RefreshTask, RowRange,
};

verus! {

/// Holding the modifier key for a while leaves the settings as they were: the hints are forgotten,
/// and nothing else changes. While the key is held, what is shown is the reverse of before.
pub proof fn law_modifier_key_reverses_what_is_shown(data: HintData)
    requires
        !data.modifiers_override,
    ensures
        ({
            let (held, shown) = data.modifiers_changed(true);
            let (released, shown_again) = held.modifiers_changed(false);
            &&& shown == Some(!data.shown())
            &&& held.shown() == !data.shown()
            &&& shown_again == Some(data.shown())
            &&& released == data.cleared()
        }),
{
    let (held, _) = data.modifiers_changed(true);
    assert(held.modifiers_changed(false).0 =~= data.cleared());
}

/// Switching hints twice leaves them switched as they were. A held modifier key no longer counts, and
/// the hints are forgotten.
pub proof fn law_toggling_twice_restores(data: HintData)
    ensures
        ({
            let (toggled, changed) = data.toggled(!data.enabled);
            let (back, changed_back) = toggled.toggled(data.enabled);
            &&& changed && changed_back
            &&& toggled.enabled == !data.enabled
            &&& back == (HintData { modifiers_override: false, ..data.cleared() })
        }),
{
    let (toggled, _) = data.toggled(!data.enabled);
    assert(toggled.toggled(data.enabled).0 =~= (HintData {
        modifiers_override: false,
        ..data.cleared()
    }));
}

/// Settings that do not change whether hints are enabled leave what is shown as the user toggled it.
pub proof fn law_other_settings_do_not_toggle(
    data: HintData,
    settings: InlayHintSettings,
    visible: Seq<Inlay>,
)
    requires
        settings.enabled == data.enabled_in_settings,
    ensures
        data.settings_updated(settings, visible).0.enabled == data.enabled,
        data.settings_updated(settings, visible).0.shown() == data.shown(),
{
}

/// The same settings a second time change nothing and remove nothing.
pub proof fn law_settings_update_once(
    data: HintData,
    settings: InlayHintSettings,
    visible: Seq<Inlay>,
    visible_later: Seq<Inlay>,
)
    ensures
        ({
            let (next, _, _) = data.settings_updated(settings, visible);
            next.settings_updated(settings, visible_later) == (next, false, None::<Seq<InlayId>>)
        }),
{
    let (next, _, _) = data.settings_updated(settings, visible);
    assert(next.settings_updated(settings, visible_later).0 =~= next);
}

/// Changed settings never invalidate hints that a provider knows, and settings that switch hints off
/// ask for none.
pub proof fn law_settings_invalidate_nothing(
    data: HintData,
    settings: InlayHintSettings,
    current: Seq<Inlay>,
)
    ensures
        ({
            let (next, _, strategy) = data.reason_handled(
                InlayHintRefreshReason::SettingsChange(settings),
                current,
            );
            &&& strategy matches Some(strategy) ==> !strategy.invalidates()
            &&& !next.enabled ==> strategy is None
        }),
{
}

/// While hints are switched off, nothing but the modifier key makes an editor ask for hints.
pub proof fn law_disabled_hints_are_not_queried(
    data: HintData,
    reason: InlayHintRefreshReason,
    current: Seq<Inlay>,
)
    requires
        !(reason is ModifiersChanged),
    ensures
        ({
            let (next, _, strategy) = data.reason_handled(reason, current);
            strategy is Some ==> next.enabled
        }),
{
}

/// When the modifier key or a toggle makes hints disappear, every visible hint is removed, none is
/// known any more, and none is asked for.
pub proof fn law_hidden_hints_are_removed_and_forgotten(
    data: HintData,
    reason: InlayHintRefreshReason,
    current: Seq<Inlay>,
)
    requires
        match reason {
            InlayHintRefreshReason::ModifiersChanged(held) => held != data.modifiers_override
                && data.shown(),
            InlayHintRefreshReason::Toggle(enabled) => !enabled && data.enabled,
            _ => false,
        },
    ensures
        ({
            let (next, removed, strategy) = data.reason_handled(reason, current);
            &&& removed == Some(ids(hints_among(current)))
            &&& next.added_hints == Map::<InlayId, Option<InlayHintKind>>::empty()
            &&& !next.shown()
            &&& strategy is None
        }),
{
    let (next, _, _) = data.reason_handled(reason, current);
    assert(next.added_hints =~= Map::<InlayId, Option<InlayHintKind>>::empty());
}

/// A request for the same rows of the same version is made once, unless it invalidates hints or
/// ignores what was fetched.
pub proof fn law_requests_are_not_repeated(
    data: HintData,
    buffer_id: u64,
    version: Seq<u32>,
    chunks: Seq<RowRange>,
    first: RefreshTask,
    second: RefreshTask,
)
    requires
        !second.invalidate_cache.invalidates(),
        !second.ignore_previous_fetches,
    ensures
        ({
            let (scheduled, _) = data.scheduled(buffer_id, version, chunks, first);
            scheduled.scheduled(buffer_id, version, chunks, second) == (scheduled, false)
        }),
{
    let (scheduled, _) = data.scheduled(buffer_id, version, chunks, first);
    assert(!crate::clock::spec_changed_since(version, version));
    assert(!crate::clock::spec_changed_since(version, scheduled.fetched_for(buffer_id).0));
    assert(scheduled.scheduled(buffer_id, version, chunks, second).0 =~= scheduled);
}

/// Whether a list of insertions names a hint.
pub open spec fn inserts(inserted: Seq<(InlayId, Anchor)>, id: InlayId) -> bool {
    exists|i: int| 0 <= i < inserted.len() && #[trigger] inserted[i].0 == id
}

/// No hint is inserted twice, nor one that was known before. Whatever is inserted is known then, and
/// what was known stays known.
pub proof fn law_hints_are_inserted_once(
    added: Map<InlayId, Option<InlayHintKind>>,
    allowed: HintKinds,
    hints: Seq<FetchedHint>,
)
    ensures
        ({
            let (known, inserted) = hints_added(added, allowed, hints);
            &&& forall|i: int, j: int|
                0 <= i < j < inserted.len() ==> #[trigger] inserted[i].0 != #[trigger] inserted[j].0
            &&& forall|i: int|
                0 <= i < inserted.len() ==> !added.contains_key(#[trigger] inserted[i].0)
                    && known.contains_key(inserted[i].0)
            &&& added.dom().subset_of(known.dom())
        }),
    decreases hints.len(),
{
    if hints.len() > 0 {
        law_hints_are_inserted_once(added, allowed, hints.drop_last());
    }
}

/// Hints of a kind that is not allowed are neither inserted nor taken note of.
pub proof fn law_only_allowed_hints_are_inserted(
    added: Map<InlayId, Option<InlayHintKind>>,
    allowed: HintKinds,
    hints: Seq<FetchedHint>,
    id: InlayId,
)
    requires
        forall|i: int|
            0 <= i < hints.len() && #[trigger] hints[i].id == id ==> !allowed.has(hints[i].kind),
    ensures
        !inserts(hints_added(added, allowed, hints).1, id),
        hints_added(added, allowed, hints).0.contains_key(id) == added.contains_key(id),
    decreases hints.len(),
{
    if hints.len() > 0 {
        let before = hints.drop_last();
        assert forall|i: int| 0 <= i < before.len() && #[trigger] before[i].id == id implies
            !allowed.has(before[i].kind) by {
            assert(hints[i].id == id);
        }
        law_only_allowed_hints_are_inserted(added, allowed, before, id);
        let inserted = hints_added(added, allowed, before).1;
        assert(hints[hints.len() - 1] == hints.last());
        assert forall|i: int|
            0 <= i < hints_added(added, allowed, hints).1.len() implies #[trigger] hints_added(
            added,
            allowed,
            hints,
        ).1[i].0 != id by {
            if i < inserted.len() {
                assert(inserted[i].0 != id);
            }
        }
    }
}

/// Rows whose hints could not be had do not count as fetched, so that they are asked for again.
pub proof fn law_failed_rows_are_fetched_again(
    data: HintData,
    buffer_id: u64,
    version: Seq<u32>,
    chunks: Seq<ChunkHints>,
    i: int,
)
    requires
        0 <= i < chunks.len(),
        chunks[i].hints is None,
        data.fetched_for(buffer_id).0 == version,
    ensures
        ({
            let (next, _) = data.hints_received(buffer_id, version, chunks);
            let rows = seq![chunks[i].chunk];
            &&& !next.fetched_for(buffer_id).1.contains(chunks[i].chunk)
            &&& awaited(next.fetched_for(buffer_id).1, rows, false) == seq![0int]
        }),
{
    lemma_failed_chunk(chunks, i);
    let (next, _) = data.hints_received(buffer_id, version, chunks);
    let rows = seq![chunks[i].chunk];
    assert(rows.drop_last() =~= Seq::empty());
    assert(!next.fetched_for(buffer_id).1.union(rows.drop_last().to_set()).contains(rows.last()));
    reveal_with_fuel(awaited, 2);
    assert(awaited(next.fetched_for(buffer_id).1, rows, false) =~= seq![0int]);
}

proof fn lemma_failed_chunk(chunks: Seq<ChunkHints>, i: int)
    requires
        0 <= i < chunks.len(),
        chunks[i].hints is None,
    ensures
        failed_chunks(chunks).contains(chunks[i].chunk),
    decreases chunks.len(),
{
    if i < chunks.len() - 1 {
        lemma_failed_chunk(chunks.drop_last(), i);
    }
}

/// Rows that the provider answers for count as fetched, so that without cause the answers for them
/// are not awaited again.
pub proof fn law_registered_rows_are_not_awaited_again(
    data: HintData,
    buffer_id: u64,
    version: Seq<u32>,
    rows: Seq<RowRange>,
)
    ensures
        ({
            let next = data.chunks_registered(buffer_id, version, rows);
            awaited(next.fetched_at(buffer_id, version).1, rows, false) == Seq::<int>::empty()
        }),
{
    let next = data.chunks_registered(buffer_id, version, rows);
    assert(!crate::clock::spec_changed_since(version, version));
    assert(!crate::clock::spec_changed_since(version, next.fetched_for(buffer_id).0));
    assert forall|row: RowRange| rows.contains(row) implies next.fetched_at(
        buffer_id,
        version,
    ).1.contains(row) by {}
    lemma_known_rows_are_not_awaited(next.fetched_at(buffer_id, version).1, rows);
}

proof fn lemma_known_rows_are_not_awaited(known: Set<RowRange>, rows: Seq<RowRange>)
    requires
        forall|row: RowRange| rows.contains(row) ==> known.contains(row),
    ensures
        awaited(known, rows, false) == Seq::<int>::empty(),
    decreases rows.len(),
{
    if rows.len() > 0 {
        let before = rows.drop_last();
        assert forall|row: RowRange| before.contains(row) implies known.contains(row) by {
            let i = choose|i: int| 0 <= i < before.len() && before[i] == row;
            assert(rows[i] == row);
        }
        lemma_known_rows_are_not_awaited(known, before);
        assert(rows[rows.len() - 1] == rows.last());
        assert(rows.contains(rows.last()));
    }
}

/// Once visible hints are cleared, none of them is known.
pub proof fn law_cleared_hints_are_unknown(data: HintData, current: Seq<Inlay>, hint: Inlay)
    requires
        hints_among(current).contains(hint),
    ensures
        !data.without(ids(hints_among(current))).added_hints.contains_key(hint.id),
{
    let hints = hints_among(current);
    let i = choose|i: int| 0 <= i < hints.len() && hints[i] == hint;
    assert(ids(hints)[i] == hint.id);
    assert(ids(hints).contains(hint.id));
}

/// Asking for hints either forgets all that is known of hints, or adds to it: it forgets if and only
/// if the request invalidates them.
pub proof fn law_refresh_forgets_or_appends(
    data: HintData,
    registered: Set<u64>,
    reason: InlayHintRefreshReason,
    strategy: InvalidationStrategy,
    context: RefreshContext,
)
    ensures
        ({
            let (next, query) = planned(data, registered, reason, strategy, context);
            if query is Some && strategy.invalidates() {
                &&& next.added_hints == Map::<InlayId, Option<InlayHintKind>>::empty()
                &&& next.hint_chunk_fetched == Map::<u64, (Seq<u32>, Set<RowRange>)>::empty()
                &&& next.hint_refresh_tasks == Map::<
                    u64,
                    Map<Seq<RowRange>, Seq<RefreshTask>>,
                >::empty()
            } else {
                &&& next.added_hints == data.added_hints
                &&& next.hint_chunk_fetched == data.hint_chunk_fetched
                &&& next.hint_refresh_tasks == data.hint_refresh_tasks
                &&& data.invalidate_hints_for_buffers.subset_of(next.invalidate_hints_for_buffers)
            }
        }),
{
}

/// Hints are asked for nothing but visible parts of registered buffers.
pub proof fn law_only_registered_buffers_are_queried(
    excerpts: Seq<VisibleExcerpt>,
    registered: Set<u64>,
    affected: Option<u64>,
    buffer_id: u64,
)
    requires
        by_buffer(queried(excerpts, registered, affected)).contains_key(buffer_id),
    ensures
        registered.contains(buffer_id),
        exists|i: int| 0 <= i < excerpts.len() && #[trigger] excerpts[i].buffer_id == buffer_id,
    decreases excerpts.len(),
{
    reveal(Seq::filter);
    let wanted = |excerpt: VisibleExcerpt| is_queried(excerpt, registered, affected);
    if excerpts.len() > 0 {
        let before = excerpts.drop_last();
        let kept = before.filter(wanted);
        if wanted(excerpts.last()) {
            assert(kept.push(excerpts.last()).drop_last() =~= kept);
        }
        if excerpts.last().buffer_id == buffer_id && wanted(excerpts.last()) {
            assert(excerpts[excerpts.len() - 1].buffer_id == buffer_id);
        } else {
            assert(by_buffer(queried(before, registered, affected)).contains_key(buffer_id));
            law_only_registered_buffers_are_queried(before, registered, affected, buffer_id);
            let i = choose|i: int| 0 <= i < before.len() && #[trigger] before[i].buffer_id == buffer_id;
            assert(excerpts[i].buffer_id == buffer_id);
        }
    }
}

proof fn lemma_buffers_in(buffers: Seq<BufferLanguage>, language: u64, i: int)
    requires
        0 <= i < buffers.len(),
        buffers[i].language == Some(language),
    ensures
        spec_buffers_in(buffers, language).contains(buffers[i].buffer_id),
    decreases buffers.len(),
{
    reveal(Seq::filter);
    let wanted = |buffer: BufferLanguage| buffer.language == Some(language);
    let before = buffers.drop_last();
    let kept = before.filter(wanted);
    let listed = spec_buffers_in(buffers, language);
    if i < before.len() {
        lemma_buffers_in(before, language, i);
        let earlier = spec_buffers_in(before, language);
        let j = choose|j: int| 0 <= j < earlier.len() && earlier[j] == before[i].buffer_id;
        assert(kept[j].buffer_id == before[i].buffer_id);
        assert(listed[j] == buffers[i].buffer_id);
    } else {
        assert(listed[kept.len() as int] == buffers[i].buffer_id);
    }
}

/// The buffers asked for after an edit are of the edited language, where each excerpt tells the language
/// of its buffer.
pub proof fn law_queried_buffers_are_of_the_language(
    excerpts: Seq<VisibleExcerpt>,
    buffers: Seq<BufferLanguage>,
    registered: Set<u64>,
    language: u64,
    buffer_id: u64,
)
    requires
        forall|i: int| 0 <= i < excerpts.len() ==> is_listed(#[trigger] excerpts[i], buffers),
        by_buffer(queried(excerpts, registered, Some(language))).contains_key(buffer_id),
    ensures
        spec_buffers_in(buffers, language).contains(buffer_id),
    decreases excerpts.len(),
{
    reveal(Seq::filter);
    let affected = Some(language);
    let wanted = |excerpt: VisibleExcerpt| is_queried(excerpt, registered, affected);
    if excerpts.len() > 0 {
        let before = excerpts.drop_last();
        let last = excerpts.last();
        let kept = before.filter(wanted);
        if wanted(last) {
            assert(kept.push(last).drop_last() =~= kept);
        }
        if last.buffer_id == buffer_id && wanted(last) {
            assert(is_listed(excerpts[excerpts.len() - 1], buffers));
            let listed = BufferLanguage { buffer_id: last.buffer_id, language: last.language };
            let i = choose|i: int| 0 <= i < buffers.len() && buffers[i] == listed;
            lemma_buffers_in(buffers, language, i);
        } else {
            assert forall|i: int| 0 <= i < before.len() implies is_listed(
                #[trigger] before[i],
                buffers,
            ) by {
                assert(is_listed(excerpts[i], buffers));
            }
            assert(by_buffer(queried(before, registered, affected)).contains_key(buffer_id));
            law_queried_buffers_are_of_the_language(
                before,
                buffers,
                registered,
                language,
                buffer_id,
            );
        }
    }
}

/// After an edit, hints are asked for no other buffers than those whose hints the provider is told to
/// forget, which are the buffers of the edited language.
pub proof fn law_edit_queries_only_invalidated_buffers(
    data: HintData,
    registered: Set<u64>,
    edited: u64,
    strategy: InvalidationStrategy,
    context: RefreshContext,
    buffer_id: u64,
)
    requires
        forall|i: int|
            0 <= i < context.visible_excerpts@.len() ==> is_listed(
                #[trigger] context.visible_excerpts@[i],
                context.buffers@,
            ),
    ensures
        planned(
            data,
            registered,
            InlayHintRefreshReason::BufferEdited(edited),
            strategy,
            context,
        ).1 matches Some(query) ==> {
            &&& spec_language_of(context.buffers@, edited) matches Some(language)
            &&& query.invalidated_buffers == Some(spec_buffers_in(context.buffers@, language))
            &&& query.buffers.contains_key(buffer_id) ==> spec_buffers_in(
                context.buffers@,
                language,
            ).contains(buffer_id)
        },
{
    if let Some(language) = spec_language_of(context.buffers@, edited) {
        let buffers = by_buffer(
            queried(context.visible_excerpts@, registered, Some(language)),
        );
        if buffers.contains_key(buffer_id) {
            law_queried_buffers_are_of_the_language(
                context.visible_excerpts@,
                context.buffers@,
                registered,
                language,
                buffer_id,
            );
        }
    }
}

/// A request is on record once it is made.
pub proof fn law_made_request_is_recorded(
    data: HintData,
    buffer_id: u64,
    version: Seq<u32>,
    chunks: Seq<RowRange>,
    task: RefreshTask,
)
    ensures
        ({
            let (next, made) = data.scheduled(buffer_id, version, chunks, task);
            made ==> next.records(buffer_id, chunks, task.id)
        }),
{
    let (next, made) = data.scheduled(buffer_id, version, chunks, task);
    if made {
        let queue = next.hint_refresh_tasks[buffer_id][chunks];
        assert(queue[queue.len() - 1].id == task.id);
    }
}

/// Another request for a version that is known already gives up no request.
pub proof fn law_requests_for_a_known_version_stay(
    data: HintData,
    buffer_id: u64,
    version: Seq<u32>,
    chunks: Seq<RowRange>,
    task: RefreshTask,
    earlier_chunks: Seq<RowRange>,
    earlier_id: u64,
)
    requires
        !crate::clock::spec_changed_since(version, data.fetched_for(buffer_id).0),
        data.records(buffer_id, earlier_chunks, earlier_id),
    ensures
        data.scheduled(buffer_id, version, chunks, task).0.records(
            buffer_id,
            earlier_chunks,
            earlier_id,
        ),
{
    let (next, _) = data.scheduled(buffer_id, version, chunks, task);
    let queue = data.hint_refresh_tasks[buffer_id][earlier_chunks];
    let i = choose|i: int| 0 <= i < queue.len() && (#[trigger] queue[i]).id == earlier_id;
    assert(next.hint_refresh_tasks[buffer_id][earlier_chunks][i].id == earlier_id);
}

/// A request for a newer version of a buffer gives up all earlier requests for that buffer, and none
/// for another buffer.
pub proof fn law_newer_version_gives_up_requests(
    data: HintData,
    buffer_id: u64,
    version: Seq<u32>,
    chunks: Seq<RowRange>,
    task: RefreshTask,
    other_buffer: u64,
    earlier_chunks: Seq<RowRange>,
    earlier_id: u64,
)
    requires
        crate::clock::spec_changed_since(version, data.fetched_for(buffer_id).0),
        earlier_id != task.id,
    ensures
        ({
            let (next, _) = data.scheduled(buffer_id, version, chunks, task);
            &&& !next.records(buffer_id, earlier_chunks, earlier_id)
            &&& other_buffer != buffer_id ==> next.records(
                other_buffer,
                earlier_chunks,
                earlier_id,
            ) == data.records(other_buffer, earlier_chunks, earlier_id)
        }),
{
}

/// Forgetting the hints gives up every request.
pub proof fn law_forgetting_gives_up_requests(
    data: HintData,
    buffer_id: u64,
    chunks: Seq<RowRange>,
    id: u64,
)
    ensures
        !data.cleared().records(buffer_id, chunks, id),
{
}

} // verus!
