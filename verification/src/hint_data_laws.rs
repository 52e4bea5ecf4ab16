//! What holds of each change to what an editor knows of its inlay hints.

use vstd::prelude::*;

use crate::anchor::{Anchor, Bias, TextAnchor};
use crate::clock::spec_changed_since;
use crate::editor::Editor;
use crate::hint_laws::inserts;
use crate::hint_refresh::{
    by_buffer, planned, queried, query_parts, refreshes, spec_buffers_in, spec_language_of,
    task_for, BufferLanguage, RefreshContext, RefreshPlan, VisibleExcerpt,
};
use crate::hover_links::InlayId;
use crate::inlay_hints::{
    all_hints, awaited, failed_chunks, first_anchor, hints_added, hints_among, ids,
    not_outside_buffers, spec_debounce_value, within_buffer, within_excerpts, ChunkHints,
    FetchedHint, HintData, HintKinds, Inlay, InlayHintKind, InlayHintRefreshReason,
    InlayHintSettings, InvalidationStrategy, RefreshTask, RowRange,
};

verus! {

/// The first known position of a hint is taken.
pub proof fn law_first_known_position_is_taken(anchors: Seq<Option<Anchor>>, k: int)
    requires
        0 <= k < anchors.len(),
        anchors[k] is Some,
        forall|j: int| 0 <= j < k ==> (#[trigger] anchors[j]) is None,
    ensures
        first_anchor(anchors) == anchors[k],
    decreases anchors.len(),
{
    if k > 0 {
        let rest = anchors.skip(1);
        assert(anchors[0] is None);
        assert forall|j: int| 0 <= j < k - 1 implies (#[trigger] rest[j]) is None by {
            assert(anchors[j + 1] is None);
        }
        law_first_known_position_is_taken(rest, k - 1);
    }
}

/// A hint that no excerpt shows has no position.
pub proof fn law_no_known_position(anchors: Seq<Option<Anchor>>)
    requires
        forall|j: int| 0 <= j < anchors.len() ==> (#[trigger] anchors[j]) is None,
    ensures
        first_anchor(anchors) is None,
    decreases anchors.len(),
{
    if anchors.len() > 0 {
        let rest = anchors.skip(1);
        assert(anchors[0] is None);
        assert forall|j: int| 0 <= j < rest.len() implies (#[trigger] rest[j]) is None by {
            assert(anchors[j + 1] is None);
        }
        law_no_known_position(rest);
    }
}

/// The hints of chunks are those of each chunk in turn.
pub proof fn law_hints_of_every_chunk_count(chunks: Seq<ChunkHints>, chunk: ChunkHints)
    ensures
        all_hints(Seq::empty()) == Seq::<FetchedHint>::empty(),
        chunk.hints matches Some(hints) ==> all_hints(chunks.push(chunk)) == all_hints(chunks)
            + hints@,
        chunk.hints is None ==> all_hints(chunks.push(chunk)) == all_hints(chunks),
{
    assert(chunks.push(chunk).drop_last() =~= chunks);
    assert(all_hints(chunks) + Seq::empty() =~= all_hints(chunks));
}

proof fn lemma_hint_at(chunks: Seq<ChunkHints>, i: int, j: int)
    requires
        0 <= i < chunks.len(),
        chunks[i].hints is Some,
        0 <= j < chunks[i].hints->0@.len(),
    ensures
        all_hints(chunks.take(i)).len() + j < all_hints(chunks).len(),
        all_hints(chunks)[all_hints(chunks.take(i)).len() + j] == chunks[i].hints->0@[j],
    decreases chunks.len(),
{
    let before = chunks.drop_last();
    if i < before.len() {
        lemma_hint_at(before, i, j);
        assert(before.take(i) =~= chunks.take(i));
    } else {
        assert(chunks.take(i) =~= before);
    }
}

proof fn lemma_hints_before_are_fewer(chunks: Seq<ChunkHints>, i: int, k: int)
    requires
        0 <= i <= k <= chunks.len(),
    ensures
        all_hints(chunks.take(i)).len() <= all_hints(chunks.take(k)).len(),
        i < k && chunks[i].hints is Some ==> all_hints(chunks.take(i)).len()
            + chunks[i].hints->0@.len() <= all_hints(chunks.take(k)).len(),
    decreases k - i,
{
    if i < k {
        lemma_hints_before_are_fewer(chunks, i, k - 1);
        assert(chunks.take(k).drop_last() =~= chunks.take(k - 1));
    }
}

proof fn lemma_hint_from(chunks: Seq<ChunkHints>, p: int) -> (place: (int, int))
    requires
        0 <= p < all_hints(chunks).len(),
    ensures
        0 <= place.0 < chunks.len(),
        chunks[place.0].hints is Some,
        0 <= place.1 < chunks[place.0].hints->0@.len(),
        p == all_hints(chunks.take(place.0)).len() + place.1,
        all_hints(chunks)[p] == chunks[place.0].hints->0@[place.1],
    decreases chunks.len(),
{
    let before = chunks.drop_last();
    if p < all_hints(before).len() {
        let place = lemma_hint_from(before, p);
        assert(before.take(place.0) =~= chunks.take(place.0));
        place
    } else {
        assert(chunks.take(chunks.len() - 1) =~= before);
        (chunks.len() - 1, p - all_hints(before).len())
    }
}

/// A received hint is dealt with after those before it. One of an allowed kind is known then, and is
/// inserted at its first known position if it was not known before.
pub proof fn law_received_hint_is_dealt_with(
    added: Map<InlayId, Option<InlayHintKind>>,
    allowed: HintKinds,
    hints: Seq<FetchedHint>,
    hint: FetchedHint,
)
    ensures
        hints_added(added, allowed, Seq::empty()) == (added, Seq::<(InlayId, Anchor)>::empty()),
        ({
            let (known, inserted) = hints_added(added, allowed, hints);
            let (next, all) = hints_added(added, allowed, hints.push(hint));
            let anchor = first_anchor(hint.anchors@);
            if !allowed.has(hint.kind) {
                next == known && all == inserted
            } else {
                &&& next == known.insert(hint.id, hint.kind)
                &&& known.contains_key(hint.id) || anchor is None ==> all == inserted
                &&& !known.contains_key(hint.id) && anchor is Some ==> all == inserted.push(
                    (hint.id, anchor->0),
                )
            }
        }),
{
    assert(hints.push(hint).drop_last() =~= hints);
}

proof fn lemma_allowed_hint_is_known(
    added: Map<InlayId, Option<InlayHintKind>>,
    allowed: HintKinds,
    hints: Seq<FetchedHint>,
    id: InlayId,
)
    ensures
        hints_added(added, allowed, hints).0.contains_key(id) <==> added.contains_key(id) || exists|
            i: int,
        |
            0 <= i < hints.len() && (#[trigger] hints[i]).id == id && allowed.has(hints[i].kind),
    decreases hints.len(),
{
    if hints.len() > 0 {
        let before = hints.drop_last();
        lemma_allowed_hint_is_known(added, allowed, before, id);
        assert(hints[hints.len() - 1] == hints.last());
        if exists|i: int|
            0 <= i < before.len() && (#[trigger] before[i]).id == id && allowed.has(
                before[i].kind,
            ) {
            let i = choose|i: int|
                0 <= i < before.len() && (#[trigger] before[i]).id == id && allowed.has(
                    before[i].kind,
                );
            assert(hints[i].id == id);
        }
        if exists|i: int|
            0 <= i < hints.len() && (#[trigger] hints[i]).id == id && allowed.has(hints[i].kind) {
            let i = choose|i: int|
                0 <= i < hints.len() && (#[trigger] hints[i]).id == id && allowed.has(
                    hints[i].kind,
                );
            if i < before.len() {
                assert(before[i].id == id);
            }
        }
    }
}

proof fn lemma_first_occurrence_is_inserted(
    added: Map<InlayId, Option<InlayHintKind>>,
    allowed: HintKinds,
    hints: Seq<FetchedHint>,
    k: int,
)
    requires
        0 <= k < hints.len(),
        allowed.has(hints[k].kind),
        !added.contains_key(hints[k].id),
        first_anchor(hints[k].anchors@) is Some,
        forall|m: int|
            0 <= m < k ==> !((#[trigger] hints[m]).id == hints[k].id && allowed.has(
                hints[m].kind,
            )),
    ensures
        hints_added(added, allowed, hints).1.contains(
            (hints[k].id, first_anchor(hints[k].anchors@)->0),
        ),
    decreases hints.len(),
{
    let before = hints.drop_last();
    let (known, inserted) = hints_added(added, allowed, before);
    let entry = (hints[k].id, first_anchor(hints[k].anchors@)->0);
    let all = hints_added(added, allowed, hints).1;
    if k < before.len() {
        assert forall|m: int| 0 <= m < k implies !((#[trigger] before[m]).id == before[k].id
            && allowed.has(before[m].kind)) by {
            assert(!(hints[m].id == hints[k].id && allowed.has(hints[m].kind)));
        }
        lemma_first_occurrence_is_inserted(added, allowed, before, k);
        let i = choose|i: int| 0 <= i < inserted.len() && inserted[i] == entry;
        assert(all[i] == entry);
    } else {
        lemma_allowed_hint_is_known(added, allowed, before, hints[k].id);
        if known.contains_key(hints[k].id) {
            let m = choose|m: int|
                0 <= m < before.len() && (#[trigger] before[m]).id == hints[k].id && allowed.has(
                    before[m].kind,
                );
            assert(hints[m].id == hints[k].id);
        }
        assert(all[all.len() - 1] == entry);
    }
}

proof fn lemma_inserted_hint_was_received(
    added: Map<InlayId, Option<InlayHintKind>>,
    allowed: HintKinds,
    hints: Seq<FetchedHint>,
    e: int,
) -> (k: int)
    requires
        0 <= e < hints_added(added, allowed, hints).1.len(),
    ensures
        0 <= k < hints.len(),
        hints[k].id == hints_added(added, allowed, hints).1[e].0,
        first_anchor(hints[k].anchors@) == Some(hints_added(added, allowed, hints).1[e].1),
        allowed.has(hints[k].kind),
        !added.contains_key(hints[k].id),
    decreases hints.len(),
{
    let before = hints.drop_last();
    let (known, inserted) = hints_added(added, allowed, before);
    if e < inserted.len() {
        lemma_inserted_hint_was_received(added, allowed, before, e)
    } else {
        lemma_allowed_hint_is_known(added, allowed, before, hints.last().id);
        hints.len() - 1
    }
}

/// Whether a place in a list of chunks, given by chunk and by hint, comes before another.
pub open spec fn comes_before(a: int, b: int, i: int, j: int) -> bool {
    a < i || a == i && b < j
}

/// Every hint of every chunk that is of an allowed kind is known once it is received. It is inserted, at
/// the first position at which an excerpt shows it, if it was not known before and is the first of its
/// identity and of an allowed kind among all the chunks.
pub proof fn law_every_hint_of_every_chunk_is_received(
    data: HintData,
    buffer_id: u64,
    version: Seq<u32>,
    chunks: Seq<ChunkHints>,
    i: int,
    j: int,
)
    requires
        0 <= i < chunks.len(),
        chunks[i].hints is Some,
        0 <= j < chunks[i].hints->0@.len(),
        data.allowed_hint_kinds.has(chunks[i].hints->0@[j].kind),
    ensures
        ({
            let (next, inserted) = data.hints_received(buffer_id, version, chunks);
            let hint = chunks[i].hints->0@[j];
            let is_first = forall|a: int, b: int|
                #![trigger chunks[a].hints->0@[b]]
                0 <= a < chunks.len() && chunks[a].hints is Some && 0 <= b
                    < chunks[a].hints->0@.len() && comes_before(a, b, i, j) ==> !(
                chunks[a].hints->0@[b].id == hint.id && data.allowed_hint_kinds.has(
                    chunks[a].hints->0@[b].kind,
                ));
            &&& next.added_hints.contains_key(hint.id)
            &&& !data.added_hints.contains_key(hint.id) && is_first && first_anchor(
                hint.anchors@,
            ) is Some ==> inserted.contains((hint.id, first_anchor(hint.anchors@)->0)) && inserts(
                inserted,
                hint.id,
            )
        }),
{
    let hints = all_hints(chunks);
    let allowed = data.allowed_hint_kinds;
    let hint = chunks[i].hints->0@[j];
    let p = all_hints(chunks.take(i)).len() + j;
    lemma_hint_at(chunks, i, j);
    lemma_allowed_hint_is_known(data.added_hints, allowed, hints, hint.id);
    assert(hints[p].id == hint.id);
    let is_first = forall|a: int, b: int|
        #![trigger chunks[a].hints->0@[b]]
        0 <= a < chunks.len() && chunks[a].hints is Some && 0 <= b < chunks[a].hints->0@.len()
            && comes_before(a, b, i, j) ==> !(chunks[a].hints->0@[b].id == hint.id && allowed.has(
            chunks[a].hints->0@[b].kind,
        ));
    if !data.added_hints.contains_key(hint.id) && is_first && first_anchor(hint.anchors@) is Some {
        assert forall|m: int| 0 <= m < p implies !((#[trigger] hints[m]).id == hints[p].id
            && allowed.has(hints[m].kind)) by {
            let (a, b) = lemma_hint_from(chunks, m);
            if a > i {
                lemma_hints_before_are_fewer(chunks, i, a);
            } else if a == i {
            }
            assert(comes_before(a, b, i, j));
            let earlier = chunks[a].hints->0@[b];
        }
        lemma_first_occurrence_is_inserted(data.added_hints, allowed, hints, p);
        let inserted = data.hints_received(buffer_id, version, chunks).1;
        let entry = (hint.id, first_anchor(hint.anchors@)->0);
        let e = choose|e: int| 0 <= e < inserted.len() && inserted[e] == entry;
        assert(inserted[e].0 == hint.id);
    }
}

/// Nothing is inserted but hints of fetched chunks, of an allowed kind, not known before, each at the
/// first position at which an excerpt shows it. Nothing becomes known but fetched hints of an allowed
/// kind.
pub proof fn law_nothing_else_is_inserted(
    data: HintData,
    buffer_id: u64,
    version: Seq<u32>,
    chunks: Seq<ChunkHints>,
    id: InlayId,
    anchor: Anchor,
)
    ensures
        ({
            let (next, inserted) = data.hints_received(buffer_id, version, chunks);
            &&& inserted.contains((id, anchor)) ==> !data.added_hints.contains_key(id) && exists|
                i: int,
                j: int,
            |
                #![trigger chunks[i].hints->0@[j]]
                {
                    &&& 0 <= i < chunks.len()
                    &&& chunks[i].hints is Some
                    &&& 0 <= j < chunks[i].hints->0@.len()
                    &&& chunks[i].hints->0@[j].id == id
                    &&& data.allowed_hint_kinds.has(chunks[i].hints->0@[j].kind)
                    &&& first_anchor(chunks[i].hints->0@[j].anchors@) == Some(anchor)
                }
            &&& next.added_hints.contains_key(id) && !data.added_hints.contains_key(id) ==> exists|
                i: int,
                j: int,
            |
                #![trigger chunks[i].hints->0@[j]]
                {
                    &&& 0 <= i < chunks.len()
                    &&& chunks[i].hints is Some
                    &&& 0 <= j < chunks[i].hints->0@.len()
                    &&& chunks[i].hints->0@[j].id == id
                    &&& data.allowed_hint_kinds.has(chunks[i].hints->0@[j].kind)
                }
            &&& data.added_hints.contains_key(id) ==> next.added_hints.contains_key(id)
        }),
{
    let hints = all_hints(chunks);
    let allowed = data.allowed_hint_kinds;
    let (next, inserted) = data.hints_received(buffer_id, version, chunks);
    lemma_allowed_hint_is_known(data.added_hints, allowed, hints, id);
    if inserted.contains((id, anchor)) {
        let e = choose|e: int| 0 <= e < inserted.len() && inserted[e] == (id, anchor);
        let k = lemma_inserted_hint_was_received(data.added_hints, allowed, hints, e);
        let (i, j) = lemma_hint_from(chunks, k);
        assert(chunks[i].hints->0@[j].id == id);
    }
    if next.added_hints.contains_key(id) && !data.added_hints.contains_key(id) {
        let k = choose|k: int|
            0 <= k < hints.len() && (#[trigger] hints[k]).id == id && allowed.has(hints[k].kind);
        let (i, j) = lemma_hint_from(chunks, k);
        assert(chunks[i].hints->0@[j].id == id);
    }
}

/// The rows that failed are exactly those of the chunks without hints.
pub proof fn law_failed_rows_are_those_without_hints(chunks: Seq<ChunkHints>, row: RowRange)
    ensures
        failed_chunks(chunks).contains(row) <==> exists|i: int|
            0 <= i < chunks.len() && (#[trigger] chunks[i]).hints is None && chunks[i].chunk == row,
    decreases chunks.len(),
{
    if chunks.len() > 0 {
        let before = chunks.drop_last();
        law_failed_rows_are_those_without_hints(before, row);
        assert(chunks[chunks.len() - 1] == chunks.last());
        if failed_chunks(before).contains(row) {
            let i = choose|i: int|
                0 <= i < before.len() && (#[trigger] before[i]).hints is None && before[i].chunk
                    == row;
            assert(chunks[i].chunk == row);
        }
        if exists|i: int|
            0 <= i < chunks.len() && (#[trigger] chunks[i]).hints is None && chunks[i].chunk
                == row {
            let i = choose|i: int|
                0 <= i < chunks.len() && (#[trigger] chunks[i]).hints is None && chunks[i].chunk
                    == row;
            if i < before.len() {
                assert(before[i].chunk == row);
            }
        }
    }
}

/// What receiving hints leaves alone: settings, requests, the rows of other buffers, and the rows of the
/// buffer but for those that failed in the version asked for. No buffer awaits removal of its hints any
/// more.
pub proof fn law_receipt_changes_nothing_else(
    data: HintData,
    buffer_id: u64,
    version: Seq<u32>,
    chunks: Seq<ChunkHints>,
    other: u64,
    row: RowRange,
)
    ensures
        ({
            let (next, _) = data.hints_received(buffer_id, version, chunks);
            let failed = exists|i: int|
                0 <= i < chunks.len() && (#[trigger] chunks[i]).hints is None && chunks[i].chunk
                    == row;
            &&& next.enabled == data.enabled
            &&& next.modifiers_override == data.modifiers_override
            &&& next.enabled_in_settings == data.enabled_in_settings
            &&& next.allowed_hint_kinds == data.allowed_hint_kinds
            &&& next.invalidate_debounce == data.invalidate_debounce
            &&& next.append_debounce == data.append_debounce
            &&& next.hint_refresh_tasks == data.hint_refresh_tasks
            &&& next.invalidate_hints_for_buffers == Set::<u64>::empty()
            &&& next.hint_chunk_fetched.contains_key(other)
                == data.hint_chunk_fetched.contains_key(other)
            &&& next.fetched_for(other).0 == data.fetched_for(other).0
            &&& next.fetched_for(other).1.contains(row) <==> data.fetched_for(other).1.contains(row)
                && !(other == buffer_id && data.fetched_for(other).0 == version && failed)
        }),
{
    law_failed_rows_are_those_without_hints(chunks, row);
}

/// Identities are those of the inlays, one by one.
pub proof fn law_identities_of_inlays(inlays: Seq<Inlay>, i: int)
    requires
        0 <= i < inlays.len(),
    ensures
        ids(inlays).len() == inlays.len(),
        ids(inlays)[i] == inlays[i].id,
{
}

/// Inlays are picked in order: the hints among them, those in a buffer, those not known to lie outside
/// given buffers, those in given excerpts.
pub proof fn law_inlays_are_picked_in_order(
    inlays: Seq<Inlay>,
    inlay: Inlay,
    buffer_id: u64,
    buffers: Set<u64>,
    excerpts: Seq<u64>,
)
    ensures
        hints_among(Seq::empty()) == Seq::<Inlay>::empty(),
        hints_among(inlays.push(inlay)) == if inlay.id is Hint {
            hints_among(inlays).push(inlay)
        } else {
            hints_among(inlays)
        },
        within_buffer(Seq::empty(), buffer_id) == Seq::<Inlay>::empty(),
        within_buffer(inlays.push(inlay), buffer_id) == if inlay.position.buffer_id == Some(
            buffer_id,
        ) {
            within_buffer(inlays, buffer_id).push(inlay)
        } else {
            within_buffer(inlays, buffer_id)
        },
        not_outside_buffers(Seq::empty(), buffers) == Seq::<Inlay>::empty(),
        not_outside_buffers(inlays.push(inlay), buffers) == if inlay.position.buffer_id is None
            || buffers.contains(inlay.position.buffer_id->0) {
            not_outside_buffers(inlays, buffers).push(inlay)
        } else {
            not_outside_buffers(inlays, buffers)
        },
        within_excerpts(Seq::empty(), excerpts) == Seq::<Inlay>::empty(),
        within_excerpts(inlays.push(inlay), excerpts) == if excerpts.contains(
            inlay.position.excerpt_id,
        ) {
            within_excerpts(inlays, excerpts).push(inlay)
        } else {
            within_excerpts(inlays, excerpts)
        },
{
    reveal(Seq::filter);
    assert(inlays.push(inlay).drop_last() =~= inlays);
}

pub proof fn lemma_picked(inlays: Seq<Inlay>, wanted: spec_fn(Inlay) -> bool, inlay: Inlay)
    ensures
        inlays.filter(wanted).contains(inlay) <==> inlays.contains(inlay) && wanted(inlay),
    decreases inlays.len(),
{
    reveal(Seq::filter);
    if inlays.len() > 0 {
        let before = inlays.drop_last();
        let last = inlays.last();
        lemma_picked(before, wanted, inlay);
        assert(inlays[inlays.len() - 1] == last);
        assert(inlays.contains(inlay) <==> before.contains(inlay) || last == inlay) by {
            if inlays.contains(inlay) {
                let i = choose|i: int| 0 <= i < inlays.len() && inlays[i] == inlay;
                if i < before.len() {
                    assert(before[i] == inlay);
                }
            }
            if before.contains(inlay) {
                let i = choose|i: int| 0 <= i < before.len() && before[i] == inlay;
                assert(inlays[i] == inlay);
            }
        }
        let kept = before.filter(wanted);
        let all = inlays.filter(wanted);
        if wanted(last) {
            assert(all =~= kept.push(last));
            assert(all[all.len() - 1] == last);
            if kept.contains(inlay) {
                let i = choose|i: int| 0 <= i < kept.len() && kept[i] == inlay;
                assert(all[i] == inlay);
            }
            if all.contains(inlay) {
                let i = choose|i: int| 0 <= i < all.len() && all[i] == inlay;
                if i < kept.len() {
                    assert(kept[i] == inlay);
                }
            }
        }
    }
}

pub proof fn lemma_identity_among(inlays: Seq<Inlay>, id: InlayId)
    ensures
        ids(inlays).contains(id) <==> exists|inlay: Inlay| #[trigger]
            inlays.contains(inlay) && inlay.id == id,
{
    if ids(inlays).contains(id) {
        let i = choose|i: int| 0 <= i < ids(inlays).len() && ids(inlays)[i] == id;
        assert(inlays.contains(inlays[i]));
    }
    if exists|inlay: Inlay| #[trigger] inlays.contains(inlay) && inlay.id == id {
        let inlay = choose|inlay: Inlay| #[trigger] inlays.contains(inlay) && inlay.id == id;
        let i = choose|i: int| 0 <= i < inlays.len() && inlays[i] == inlay;
        assert(ids(inlays)[i] == id);
    }
}

/// Which hints are removed when hints of a buffer are received: of the visible hints, those of the buffer
/// if its hints were invalidated, and, while some buffers await removal of their hints, those that are
/// not known to lie outside those buffers.
pub proof fn law_hints_removed_on_receipt(
    data: HintData,
    buffer_id: u64,
    strategy: InvalidationStrategy,
    current: Seq<Inlay>,
    id: InlayId,
)
    ensures
        data.removed_on_receipt(buffer_id, strategy, current).contains(id) <==> exists|inlay: Inlay|
            {
                &&& #[trigger] current.contains(inlay)
                &&& inlay.id == id
                &&& inlay.id is Hint
                &&& {
                    ||| !(strategy is Keep) && inlay.position.buffer_id == Some(buffer_id)
                    ||| !data.invalidate_hints_for_buffers.is_empty() && (
                    inlay.position.buffer_id is None || data.invalidate_hints_for_buffers.contains(
                        inlay.position.buffer_id->0,
                    ))
                }
            },
{
    let visible = hints_among(current);
    let waiting = data.invalidate_hints_for_buffers;
    let of_buffer = within_buffer(visible, buffer_id);
    let awaiting = not_outside_buffers(visible, waiting);
    let is_hint = |inlay: Inlay| inlay.id is Hint;
    let in_buffer = |inlay: Inlay| inlay.position.buffer_id == Some(buffer_id);
    let not_outside = |inlay: Inlay|
        inlay.position.buffer_id matches Some(id) ==> waiting.contains(id);
    assert forall|inlay: Inlay| of_buffer.contains(inlay) <==> #[trigger] current.contains(inlay)
        && is_hint(inlay) && in_buffer(inlay) by {
        lemma_picked(current, is_hint, inlay);
        lemma_picked(visible, in_buffer, inlay);
    }
    assert forall|inlay: Inlay| awaiting.contains(inlay) <==> #[trigger] current.contains(inlay)
        && is_hint(inlay) && not_outside(inlay) by {
        lemma_picked(current, is_hint, inlay);
        lemma_picked(visible, not_outside, inlay);
    }
    lemma_identity_among(of_buffer, id);
    lemma_identity_among(awaiting, id);
    let removed = data.removed_on_receipt(buffer_id, strategy, current);
    let first = if strategy.invalidates() {
        ids(of_buffer)
    } else {
        Seq::empty()
    };
    let second = if waiting.is_empty() {
        Seq::empty()
    } else {
        ids(awaiting)
    };
    assert(removed == first + second);
    assert(removed.contains(id) <==> first.contains(id) || second.contains(id)) by {
        if first.contains(id) {
            let i = choose|i: int| 0 <= i < first.len() && first[i] == id;
            assert(removed[i] == id);
        }
        if second.contains(id) {
            let i = choose|i: int| 0 <= i < second.len() && second[i] == id;
            assert(removed[first.len() + i] == id);
        }
        if removed.contains(id) {
            let i = choose|i: int| 0 <= i < removed.len() && removed[i] == id;
            if i < first.len() {
                assert(first[i] == id);
            } else {
                assert(second[i - first.len()] == id);
            }
        }
    }
    if first.contains(id) {
        let inlay = choose|inlay: Inlay| #[trigger] of_buffer.contains(inlay) && inlay.id == id;
        assert(current.contains(inlay));
    }
    if second.contains(id) {
        let inlay = choose|inlay: Inlay| #[trigger] awaiting.contains(inlay) && inlay.id == id;
        assert(current.contains(inlay));
    }
    if exists|inlay: Inlay|
        {
            &&& #[trigger] current.contains(inlay)
            &&& inlay.id == id
            &&& inlay.id is Hint
            &&& {
                ||| !(strategy is Keep) && inlay.position.buffer_id == Some(buffer_id)
                ||| !waiting.is_empty() && (inlay.position.buffer_id is None || waiting.contains(
                    inlay.position.buffer_id->0,
                ))
            }
        } {
        let inlay = choose|inlay: Inlay|
            {
                &&& #[trigger] current.contains(inlay)
                &&& inlay.id == id
                &&& inlay.id is Hint
                &&& {
                    ||| !(strategy is Keep) && inlay.position.buffer_id == Some(buffer_id)
                    ||| !waiting.is_empty() && (inlay.position.buffer_id is None
                        || waiting.contains(inlay.position.buffer_id->0))
                }
            };
        if !(strategy is Keep) && inlay.position.buffer_id == Some(buffer_id) {
            assert(of_buffer.contains(inlay));
        } else {
            assert(not_outside(inlay));
            assert(awaiting.contains(inlay));
        }
    }
}

/// Which kinds a set holds, and how a number of milliseconds is a wait.
pub proof fn law_kinds_and_waits(kinds: HintKinds, millis: u64)
    ensures
        kinds.has(Some(InlayHintKind::Type)) == kinds.type_hints,
        kinds.has(Some(InlayHintKind::Parameter)) == kinds.parameter_hints,
        kinds.has(None) == kinds.other_hints,
        spec_debounce_value(millis) is None <==> millis == 0,
        millis > 0 ==> spec_debounce_value(millis) == Some(millis),
        !InvalidationStrategy::Keep.invalidates(),
        InvalidationStrategy::BufferEdited.invalidates(),
        InvalidationStrategy::RefreshRequested(millis).invalidates(),
{
}

/// Whether two states differ in nothing but which hints, rows and requests are known.
pub open spec fn same_settings(a: HintData, b: HintData) -> bool {
    &&& a.enabled == b.enabled
    &&& a.modifiers_override == b.modifiers_override
    &&& a.enabled_in_settings == b.enabled_in_settings
    &&& a.allowed_hint_kinds == b.allowed_hint_kinds
    &&& a.invalidate_debounce == b.invalidate_debounce
    &&& a.append_debounce == b.append_debounce
}

/// Whether nothing is known of hints, rows and requests.
pub open spec fn knows_nothing(data: HintData) -> bool {
    &&& data.added_hints == Map::<InlayId, Option<InlayHintKind>>::empty()
    &&& data.hint_chunk_fetched == Map::<u64, (Seq<u32>, Set<RowRange>)>::empty()
    &&& data.hint_refresh_tasks == Map::<u64, Map<Seq<RowRange>, Seq<RefreshTask>>>::empty()
    &&& data.invalidate_hints_for_buffers == Set::<u64>::empty()
}

/// Whether two states know the same hints, rows and requests.
pub open spec fn knows_the_same(a: HintData, b: HintData) -> bool {
    &&& a.added_hints == b.added_hints
    &&& a.hint_chunk_fetched == b.hint_chunk_fetched
    &&& a.hint_refresh_tasks == b.hint_refresh_tasks
    &&& a.invalidate_hints_for_buffers == b.invalidate_hints_for_buffers
}

/// At first the settings decide, and nothing is known. Clearing forgets what is known, and leaves the
/// settings.
pub proof fn law_initial_and_cleared(settings: InlayHintSettings, data: HintData)
    ensures
        ({
            let initial = HintData::initial(settings);
            &&& initial.enabled == settings.enabled
            &&& initial.enabled_in_settings == settings.enabled
            &&& !initial.modifiers_override
            &&& initial.allowed_hint_kinds == settings.hint_kinds
            &&& initial.invalidate_debounce == spec_debounce_value(settings.edit_debounce_ms)
            &&& initial.append_debounce == spec_debounce_value(settings.scroll_debounce_ms)
            &&& knows_nothing(initial)
        }),
        knows_nothing(data.cleared()),
        same_settings(data, data.cleared()),
{
}

/// A modifier key that changes reverses whether hints are shown. Hints that appear leave what is known
/// alone; hints that disappear are forgotten. A key that does not change does nothing.
pub proof fn law_modifier_key(data: HintData, held: bool)
    ensures
        ({
            let (next, shown) = data.modifiers_changed(held);
            if held == data.modifiers_override {
                next == data && shown is None
            } else {
                &&& shown == Some(data.enabled == data.modifiers_override)
                &&& same_settings(next, (HintData { modifiers_override: held, ..data }))
                &&& shown == Some(true) ==> knows_the_same(next, data)
                &&& shown == Some(false) ==> knows_nothing(next)
            }
        }),
{
}

/// Switching hints on leaves what is known alone, switching them off forgets it; a held modifier key no
/// longer counts. Switching to what is already so does nothing.
pub proof fn law_toggle(data: HintData, enabled: bool)
    ensures
        ({
            let (next, toggled) = data.toggled(enabled);
            &&& toggled == (data.enabled != enabled)
            &&& !toggled ==> next == data
            &&& toggled ==> same_settings(
                next,
                (HintData { enabled, modifiers_override: false, ..data }),
            )
            &&& toggled && enabled ==> knows_the_same(next, data)
            &&& toggled && !enabled ==> knows_nothing(next)
        }),
{
}

/// Changed settings take effect: the kinds and the waits always, and whether hints are enabled if the
/// setting for it changed, in which case a held modifier key no longer counts.
pub proof fn law_settings_take_effect(
    data: HintData,
    settings: InlayHintSettings,
    visible: Seq<Inlay>,
)
    ensures
        ({
            let (next, _, _) = data.settings_updated(settings, visible);
            let switched = settings.enabled != data.enabled_in_settings;
            &&& next.allowed_hint_kinds == settings.hint_kinds
            &&& next.invalidate_debounce == spec_debounce_value(settings.edit_debounce_ms)
            &&& next.append_debounce == spec_debounce_value(settings.scroll_debounce_ms)
            &&& next.enabled_in_settings == settings.enabled
            &&& switched ==> next.enabled == settings.enabled && !next.modifiers_override
            &&& !switched ==> next.enabled == data.enabled && next.modifiers_override
                == data.modifiers_override
        }),
{
}

/// Hints are refreshed after a change of settings exactly if they are enabled then, and either were not
/// before or are of other kinds.
pub proof fn law_settings_that_refresh(
    data: HintData,
    settings: InlayHintSettings,
    visible: Seq<Inlay>,
)
    ensures
        ({
            let (next, go_on, _) = data.settings_updated(settings, visible);
            go_on <==> next.enabled && (!data.enabled || settings.hint_kinds
                != data.allowed_hint_kinds)
        }),
{
}

/// What a change of settings removes. Hints switched off are all removed and forgotten, if any are
/// visible. Where hints are refreshed, those of the visible hints are removed that are known and of a
/// kind that is not allowed any more. Otherwise nothing is. But for hints switched off, what is known
/// stays known.
pub proof fn law_settings_that_remove(
    data: HintData,
    settings: InlayHintSettings,
    visible: Seq<Inlay>,
    id: InlayId,
)
    ensures
        ({
            let (next, go_on, removed) = data.settings_updated(settings, visible);
            if data.enabled && !next.enabled && visible.len() > 0 {
                &&& removed == Some(ids(visible))
                &&& knows_nothing(next)
            } else {
                &&& knows_the_same(next, data)
                &&& !go_on ==> removed is None
                &&& removed matches Some(list) ==> list.len() > 0
                &&& go_on ==> ((removed matches Some(list) && list.contains(id)) <==> exists|
                    inlay: Inlay,
                |
                    {
                        &&& #[trigger] visible.contains(inlay)
                        &&& inlay.id == id
                        &&& data.added_hints.contains_key(id)
                        &&& !settings.hint_kinds.has(data.added_hints[id])
                    })
            }
        }),
{
    let (next, go_on, removed) = data.settings_updated(settings, visible);
    let unwanted = |inlay: Inlay|
        next.added_hints.contains_key(inlay.id) && !next.allowed_hint_kinds.has(
            next.added_hints[inlay.id],
        );
    let picked = visible.filter(unwanted);
    if go_on {
        assert(next.disallowed(visible) == ids(picked));
        lemma_identity_among(picked, id);
        assert forall|inlay: Inlay| picked.contains(inlay) <==> #[trigger] visible.contains(inlay)
            && unwanted(inlay) by {
            lemma_picked(visible, unwanted, inlay);
        }
        if ids(picked).contains(id) {
            let inlay = choose|inlay: Inlay| #[trigger] picked.contains(inlay) && inlay.id == id;
            assert(visible.contains(inlay));
        }
        if exists|inlay: Inlay|
            {
                &&& #[trigger] visible.contains(inlay)
                &&& inlay.id == id
                &&& data.added_hints.contains_key(id)
                &&& !settings.hint_kinds.has(data.added_hints[id])
            } {
            let inlay = choose|inlay: Inlay|
                {
                    &&& #[trigger] visible.contains(inlay)
                    &&& inlay.id == id
                    &&& data.added_hints.contains_key(id)
                    &&& !settings.hint_kinds.has(data.added_hints[id])
                };
            assert(unwanted(inlay));
            assert(picked.contains(inlay));
            assert(ids(picked).contains(id));
            let i = choose|i: int| 0 <= i < ids(picked).len() && ids(picked)[i] == id;
        }
    }
}

/// Forgetting hints forgets exactly those.
pub proof fn law_forgotten_hints(data: HintData, list: Seq<InlayId>, id: InlayId)
    ensures
        ({
            let next = data.without(list);
            &&& next.added_hints.contains_key(id) <==> data.added_hints.contains_key(id)
                && !list.contains(id)
            &&& next.added_hints.contains_key(id) ==> next.added_hints[id] == data.added_hints[id]
            &&& same_settings(next, data)
            &&& next.hint_chunk_fetched == data.hint_chunk_fetched
            &&& next.hint_refresh_tasks == data.hint_refresh_tasks
            &&& next.invalidate_hints_for_buffers == data.invalidate_hints_for_buffers
        }),
{
}

/// New lines, edits and requests of a server change nothing yet and remove nothing. If hints are enabled
/// they are asked for: new lines add to what is known, the others invalidate it.
pub proof fn law_reasons_to_ask(
    data: HintData,
    current: Seq<Inlay>,
    buffer_id: u64,
    server_id: u64,
)
    ensures
        data.reason_handled(InlayHintRefreshReason::NewLinesShown, current) == (
            data,
            None::<Seq<InlayId>>,
            if data.enabled {
                Some(InvalidationStrategy::Keep)
            } else {
                None
            },
        ),
        data.reason_handled(InlayHintRefreshReason::BufferEdited(buffer_id), current) == (
            data,
            None::<Seq<InlayId>>,
            if data.enabled {
                Some(InvalidationStrategy::BufferEdited)
            } else {
                None
            },
        ),
        data.reason_handled(InlayHintRefreshReason::RefreshRequested(server_id), current) == (
            data,
            None::<Seq<InlayId>>,
            if data.enabled {
                Some(InvalidationStrategy::RefreshRequested(server_id))
            } else {
                None
            },
        ),
{
}

/// Removed excerpts take exactly their inlays along, of whatever kind, and ask for nothing.
pub proof fn law_removed_excerpts(
    data: HintData,
    current: Seq<Inlay>,
    excerpts: Vec<u64>,
    id: InlayId,
)
    ensures
        ({
            let (next, removed, strategy) = data.reason_handled(
                InlayHintRefreshReason::ExcerptsRemoved(excerpts),
                current,
            );
            &&& next == data
            &&& strategy is None
            &&& removed is Some
            &&& removed->0.contains(id) <==> exists|inlay: Inlay| #[trigger]
                current.contains(inlay) && inlay.id == id && excerpts@.contains(
                    inlay.position.excerpt_id,
                )
        }),
{
    let wanted = |inlay: Inlay| excerpts@.contains(inlay.position.excerpt_id);
    let picked = within_excerpts(current, excerpts@);
    lemma_identity_among(picked, id);
    assert forall|inlay: Inlay| picked.contains(inlay) <==> #[trigger] current.contains(inlay)
        && wanted(inlay) by {
        lemma_picked(current, wanted, inlay);
    }
    if ids(picked).contains(id) {
        let inlay = choose|inlay: Inlay| #[trigger] picked.contains(inlay) && inlay.id == id;
        assert(current.contains(inlay));
    }
    if exists|inlay: Inlay| #[trigger]
        current.contains(inlay) && inlay.id == id && excerpts@.contains(
            inlay.position.excerpt_id,
        ) {
        let inlay = choose|inlay: Inlay| #[trigger]
            current.contains(inlay) && inlay.id == id && excerpts@.contains(
                inlay.position.excerpt_id,
            );
        assert(picked.contains(inlay));
    }
}

/// Keys and toggles: hints that appear are asked for without invalidating any, and none is removed; hints
/// that disappear are all removed, and none is asked for; where nothing changes, nothing happens.
pub proof fn law_keys_and_toggles(data: HintData, current: Seq<Inlay>, on: bool)
    ensures
        ({
            let (next, removed, strategy) = data.reason_handled(
                InlayHintRefreshReason::ModifiersChanged(on),
                current,
            );
            let appears = data.enabled == data.modifiers_override;
            if on == data.modifiers_override {
                next == data && removed is None && strategy is None
            } else {
                &&& same_settings(next, (HintData { modifiers_override: on, ..data }))
                &&& appears ==> removed is None && strategy == Some(InvalidationStrategy::Keep)
                    && knows_the_same(next, data)
                &&& !appears ==> removed == Some(ids(hints_among(current))) && strategy is None
                    && knows_nothing(next)
            }
        }),
        ({
            let (next, removed, strategy) = data.reason_handled(
                InlayHintRefreshReason::Toggle(on),
                current,
            );
            if on == data.enabled {
                next == data && removed is None && strategy is None
            } else {
                &&& same_settings(
                    next,
                    (HintData { enabled: on, modifiers_override: false, ..data }),
                )
                &&& on ==> removed is None && strategy == Some(InvalidationStrategy::Keep)
                    && knows_the_same(next, data)
                &&& !on ==> removed == Some(ids(hints_among(current))) && strategy is None
                    && knows_nothing(next)
            }
        }),
{
    let visible = ids(hints_among(current));
    assert(Map::<InlayId, Option<InlayHintKind>>::empty().remove_keys(visible.to_set())
        =~= Map::<InlayId, Option<InlayHintKind>>::empty());
}

/// A change of settings looks at the visible hints only.
pub proof fn law_settings_look_at_visible_hints(
    data: HintData,
    current: Seq<Inlay>,
    settings: InlayHintSettings,
)
    ensures
        ({
            let (next, removed, strategy) = data.reason_handled(
                InlayHintRefreshReason::SettingsChange(settings),
                current,
            );
            let (expected, go_on, list) = data.settings_updated(settings, hints_among(current));
            &&& next == expected
            &&& removed == list
            &&& strategy == if go_on {
                Some(InvalidationStrategy::Keep)
            } else {
                None
            }
        }),
{
}

/// Whether rows of a buffer were asked for.
pub open spec fn were_asked_for(data: HintData, buffer_id: u64, chunks: Seq<RowRange>) -> bool {
    data.hint_refresh_tasks.contains_key(buffer_id)
        && data.hint_refresh_tasks[buffer_id].contains_key(chunks)
}

/// A request is made exactly if the buffer has edits that the fetched rows do not know of, the rows were
/// not asked for, or the request invalidates hints or ignores what was fetched. Rows of a version with
/// new edits start anew. Other buffers are not touched, nor are hints or settings.
pub proof fn law_requests_that_are_made(
    data: HintData,
    buffer_id: u64,
    version: Seq<u32>,
    chunks: Seq<RowRange>,
    task: RefreshTask,
    other: u64,
)
    ensures
        ({
            let (next, made) = data.scheduled(buffer_id, version, chunks, task);
            let edited = spec_changed_since(version, data.fetched_for(buffer_id).0);
            &&& made <==> edited || !were_asked_for(data, buffer_id, chunks) || !(
            task.invalidate_cache is Keep) || task.ignore_previous_fetches
            &&& were_asked_for(next, buffer_id, chunks)
            &&& made ==> next.hint_refresh_tasks[buffer_id][chunks].last() == task
            &&& next.fetched_for(buffer_id) == if edited {
                (version, Set::<RowRange>::empty())
            } else {
                data.fetched_for(buffer_id)
            }
            &&& other != buffer_id ==> next.fetched_for(other) == data.fetched_for(other)
                && next.hint_refresh_tasks.contains_key(other)
                == data.hint_refresh_tasks.contains_key(other) && next.hint_refresh_tasks[other]
                == data.hint_refresh_tasks[other]
            &&& same_settings(next, data)
            &&& next.added_hints == data.added_hints
            &&& next.invalidate_hints_for_buffers == data.invalidate_hints_for_buffers
        }),
{
}

/// The provider is told of fetched rows exactly if there are any and the request neither invalidates
/// hints nor ignores what was fetched.
pub proof fn law_known_rows_are_told(
    data: HintData,
    buffer_id: u64,
    strategy: InvalidationStrategy,
    ignore: bool,
)
    ensures
        data.known_chunks(buffer_id, strategy, ignore) is Some <==> strategy is Keep && !ignore
            && data.hint_chunk_fetched.contains_key(buffer_id),
        data.known_chunks(buffer_id, strategy, ignore) matches Some(known) ==> known
            == data.fetched_for(buffer_id),
{
}

/// Rows that the provider answers for count as fetched, beside those fetched before, unless the buffer
/// has new edits. Nothing else changes.
pub proof fn law_answered_rows_count_as_fetched(
    data: HintData,
    buffer_id: u64,
    version: Seq<u32>,
    rows: Seq<RowRange>,
    row: RowRange,
    other: u64,
)
    ensures
        ({
            let next = data.chunks_registered(buffer_id, version, rows);
            let edited = spec_changed_since(version, data.fetched_for(buffer_id).0);
            &&& next.fetched_for(buffer_id).0 == if edited {
                version
            } else {
                data.fetched_for(buffer_id).0
            }
            &&& next.fetched_for(buffer_id).1.contains(row) <==> rows.contains(row) || !edited
                && data.fetched_for(buffer_id).1.contains(row)
            &&& other != buffer_id ==> next.fetched_for(other) == data.fetched_for(other)
            &&& same_settings(next, data)
            &&& next.added_hints == data.added_hints
            &&& next.hint_refresh_tasks == data.hint_refresh_tasks
            &&& next.invalidate_hints_for_buffers == data.invalidate_hints_for_buffers
        }),
{
}

/// An answer is awaited exactly if all are, or if its rows are neither known nor listed before.
pub proof fn law_awaited_answers(known: Set<RowRange>, rows: Seq<RowRange>, all: bool, i: int)
    requires
        0 <= i < rows.len(),
    ensures
        awaited(known, rows, all).contains(i) <==> all || !known.contains(rows[i]) && forall|j: int|
            0 <= j < i ==> #[trigger] rows[j] != rows[i],
    decreases rows.len(),
{
    let before = rows.drop_last();
    law_awaited_answers_are_in_order(known, before, all);
    let earlier = awaited(known, before, all);
    let indices = awaited(known, rows, all);
    if i < before.len() {
        law_awaited_answers(known, before, all, i);
        if earlier.contains(i) {
            let k = choose|k: int| 0 <= k < earlier.len() && earlier[k] == i;
            assert(indices[k] == i);
        }
        if indices.contains(i) {
            let k = choose|k: int| 0 <= k < indices.len() && indices[k] == i;
            assert(earlier[k] == i);
        }
        assert(before[i] == rows[i]);
        assert forall|j: int| 0 <= j < i implies before[j] == rows[j] by {}
        if forall|j: int| 0 <= j < i ==> #[trigger] before[j] != before[i] {
            assert forall|j: int| 0 <= j < i implies #[trigger] rows[j] != rows[i] by {
                assert(before[j] != before[i]);
            }
        }
        if forall|j: int| 0 <= j < i ==> #[trigger] rows[j] != rows[i] {
            assert forall|j: int| 0 <= j < i implies #[trigger] before[j] != before[i] by {
                assert(rows[j] != rows[i]);
            }
        }
    } else {
        assert(before.contains(rows[i]) <==> exists|j: int| 0 <= j < i && #[trigger] rows[j]
            == rows[i]) by {
            if before.contains(rows[i]) {
                let j = choose|j: int| 0 <= j < before.len() && before[j] == rows[i];
                assert(rows[j] == rows[i]);
            }
            if exists|j: int| 0 <= j < i && #[trigger] rows[j] == rows[i] {
                let j = choose|j: int| 0 <= j < i && #[trigger] rows[j] == rows[i];
                assert(before[j] == rows[i]);
            }
        }
        if all || !known.union(before.to_set()).contains(rows[i]) {
            assert(indices[indices.len() - 1] == i);
        } else if indices.contains(i) {
            let k = choose|k: int| 0 <= k < earlier.len() && earlier[k] == i;
            assert(earlier[k] < before.len());
        }
    }
}

/// Awaited answers are in order, each once.
pub proof fn law_awaited_answers_are_in_order(
    known: Set<RowRange>,
    rows: Seq<RowRange>,
    all: bool,
)
    ensures
        ({
            let indices = awaited(known, rows, all);
            &&& forall|k: int|
                0 <= k < indices.len() ==> 0 <= #[trigger] indices[k] < rows.len()
            &&& forall|k: int, l: int|
                0 <= k < l < indices.len() ==> #[trigger] indices[k] < #[trigger] indices[l]
        }),
    decreases rows.len(),
{
    let indices = awaited(known, rows, all);
    if rows.len() > 0 {
        let before = rows.drop_last();
        law_awaited_answers_are_in_order(known, before, all);
        let earlier = awaited(known, before, all);
        assert forall|k: int| 0 <= k < indices.len() implies 0 <= #[trigger] indices[k]
            < rows.len() by {
            if k < earlier.len() {
                assert(0 <= earlier[k] < before.len());
            }
        }
        assert forall|k: int, l: int| 0 <= k < l < indices.len() implies #[trigger] indices[k]
            < #[trigger] indices[l] by {
            assert(0 <= earlier[k] < before.len());
            if l < earlier.len() {
                assert(earlier[k] < earlier[l]);
            }
        }
    }
}

/// The language of a buffer is that of the first entry for it, and there is none without an entry.
pub proof fn law_language_of_a_buffer(buffers: Seq<BufferLanguage>, buffer_id: u64, k: int)
    requires
        0 <= k <= buffers.len(),
        forall|j: int| 0 <= j < k ==> (#[trigger] buffers[j]).buffer_id != buffer_id,
        k < buffers.len() ==> buffers[k].buffer_id == buffer_id,
    ensures
        spec_language_of(buffers, buffer_id) == if k < buffers.len() {
            buffers[k].language
        } else {
            None
        },
    decreases buffers.len(),
{
    if k > 0 {
        let rest = buffers.skip(1);
        assert(buffers[0].buffer_id != buffer_id);
        assert forall|j: int| 0 <= j < k - 1 implies (#[trigger] rest[j]).buffer_id
            != buffer_id by {
            assert(buffers[j + 1].buffer_id != buffer_id);
        }
        law_language_of_a_buffer(rest, buffer_id, k - 1);
    }
}

/// The buffers of a language are listed in order.
pub proof fn law_buffers_of_a_language(
    buffers: Seq<BufferLanguage>,
    buffer: BufferLanguage,
    language: u64,
)
    ensures
        spec_buffers_in(Seq::empty(), language) == Seq::<u64>::empty(),
        spec_buffers_in(buffers.push(buffer), language) == if buffer.language == Some(language) {
            spec_buffers_in(buffers, language).push(buffer.buffer_id)
        } else {
            spec_buffers_in(buffers, language)
        },
{
    reveal(Seq::filter);
    assert(buffers.push(buffer).drop_last() =~= buffers);
    assert(spec_buffers_in(Seq::empty(), language) =~= Seq::<u64>::empty());
    if buffer.language == Some(language) {
        assert(spec_buffers_in(buffers.push(buffer), language) =~= spec_buffers_in(
            buffers,
            language,
        ).push(buffer.buffer_id));
    }
}

/// Hints are asked for the visible excerpts, in order, whose buffers are registered and, after an edit,
/// of the edited language.
pub proof fn law_excerpts_that_are_queried(
    excerpts: Seq<VisibleExcerpt>,
    excerpt: VisibleExcerpt,
    registered: Set<u64>,
    affected: Option<u64>,
)
    ensures
        queried(Seq::empty(), registered, affected) == Seq::<VisibleExcerpt>::empty(),
        queried(excerpts.push(excerpt), registered, affected) == if registered.contains(
            excerpt.buffer_id,
        ) && (affected is None || excerpt.language == affected) {
            queried(excerpts, registered, affected).push(excerpt)
        } else {
            queried(excerpts, registered, affected)
        },
{
    reveal(Seq::filter);
    assert(excerpts.push(excerpt).drop_last() =~= excerpts);
}

/// Each excerpt adds its range to those of its buffer, and tells the version of its buffer. Its ends stick
/// to the outer sides. Other buffers are not touched.
pub proof fn law_ranges_by_buffer(excerpts: Seq<VisibleExcerpt>, excerpt: VisibleExcerpt, other: u64)
    ensures
        ({
            let before = by_buffer(excerpts);
            let after = by_buffer(excerpts.push(excerpt));
            let id = excerpt.buffer_id;
            let ranges = after[id].1;
            &&& after.contains_key(id)
            &&& after[id].0 == excerpt.version@
            &&& ranges.len() > 0
            &&& ranges.last().start == (TextAnchor { offset: excerpt.start, bias: Bias::Left })
            &&& ranges.last().end == (TextAnchor { offset: excerpt.end, bias: Bias::Right })
            &&& before.contains_key(id) ==> ranges.drop_last() == before[id].1
            &&& !before.contains_key(id) ==> ranges.len() == 1
            &&& other != id ==> after.contains_key(other) == before.contains_key(other)
                && after[other] == before[other]
        }),
        forall|id: u64| !#[trigger] by_buffer(Seq::empty()).contains_key(id),
{
    assert(excerpts.push(excerpt).drop_last() =~= excerpts);
    let before = by_buffer(excerpts);
    let id = excerpt.buffer_id;
    let after = by_buffer(excerpts.push(excerpt));
    if before.contains_key(id) {
        assert(after[id].1.drop_last() =~= before[id].1);
    }
}

/// Every visible excerpt of a registered buffer, of the edited language after an edit, has its range asked
/// for.
pub proof fn law_every_visible_excerpt_is_queried(
    excerpts: Seq<VisibleExcerpt>,
    registered: Set<u64>,
    affected: Option<u64>,
    i: int,
)
    requires
        0 <= i < excerpts.len(),
        registered.contains(excerpts[i].buffer_id),
        affected is None || excerpts[i].language == affected,
    ensures
        ({
            let buffers = by_buffer(queried(excerpts, registered, affected));
            let ranges = buffers[excerpts[i].buffer_id].1;
            &&& buffers.contains_key(excerpts[i].buffer_id)
            &&& exists|k: int|
                {
                    &&& 0 <= k < ranges.len()
                    &&& (#[trigger] ranges[k]).start.offset == excerpts[i].start
                    &&& ranges[k].end.offset == excerpts[i].end
                }
        }),
    decreases excerpts.len(),
{
    let before = excerpts.drop_last();
    let last = excerpts.last();
    assert(excerpts =~= before.push(last));
    law_excerpts_that_are_queried(before, last, registered, affected);
    let earlier = queried(before, registered, affected);
    let id = excerpts[i].buffer_id;
    law_ranges_by_buffer(earlier, last, id);
    let buffers = by_buffer(queried(excerpts, registered, affected));
    if i < before.len() {
        law_every_visible_excerpt_is_queried(before, registered, affected, i);
        let old_ranges = by_buffer(earlier)[id].1;
        let k = choose|k: int|
            0 <= k < old_ranges.len() && (#[trigger] old_ranges[k]).start.offset
                == excerpts[i].start && old_ranges[k].end.offset == excerpts[i].end;
        let ranges = buffers[id].1;
        assert(ranges[k] == old_ranges[k]);
    } else {
        let ranges = buffers[id].1;
        assert(ranges[ranges.len() - 1].start.offset == excerpts[i].start);
    }
}

/// What a request says: how it invalidates hints, that it ignores what was fetched for keys, toggles and
/// settings, and that it waits only for reasons that the user does not wait for, longer or shorter as
/// hints are invalidated or added to.
pub proof fn law_request_of_a_reason(
    data: HintData,
    reason: InlayHintRefreshReason,
    strategy: InvalidationStrategy,
    id: u64,
)
    ensures
        ({
            let task = task_for(data, reason, strategy, id);
            let by_user = reason is ModifiersChanged || reason is Toggle || reason is SettingsChange;
            &&& task.id == id
            &&& task.invalidate_cache == strategy
            &&& task.ignore_previous_fetches == by_user
            &&& by_user || reason is ExcerptsRemoved ==> task.debounce is None
            &&& !by_user && !(reason is ExcerptsRemoved) ==> task.debounce == if strategy is Keep {
                data.append_debounce
            } else {
                data.invalidate_debounce
            }
        }),
{
}

/// What a plan to ask for hints comes to. Nothing is asked for after an edit of a buffer without a
/// language. Otherwise the request is that of the reason, the visible excerpts are asked for, and after
/// an edit the buffers of the language are invalidated and await removal of their hints.
pub proof fn law_plan(
    data: HintData,
    registered: Set<u64>,
    reason: InlayHintRefreshReason,
    strategy: InvalidationStrategy,
    context: RefreshContext,
    buffer_id: u64,
)
    ensures
        ({
            let (next, query) = planned(data, registered, reason, strategy, context);
            let affected = if reason is BufferEdited {
                spec_language_of(context.buffers@, reason->BufferEdited_0)
            } else {
                None
            };
            &&& query is None <==> reason is BufferEdited && affected is None
            &&& query is None ==> next == data
            &&& same_settings(next, data)
            &&& query is Some && strategy is Keep ==> next.added_hints == data.added_hints
                && next.hint_chunk_fetched == data.hint_chunk_fetched && next.hint_refresh_tasks
                == data.hint_refresh_tasks
            &&& query is Some && !(strategy is Keep) ==> next.added_hints.is_empty()
                && next.hint_chunk_fetched.is_empty() && next.hint_refresh_tasks.is_empty()
            &&& query matches Some(query) ==> {
                &&& query.task == task_for(data, reason, strategy, context.request_id)
                &&& query.buffers == by_buffer(
                    queried(context.visible_excerpts@, registered, affected),
                )
                &&& affected is None ==> query.invalidated_buffers is None
                &&& affected matches Some(language) ==> query.invalidated_buffers == Some(
                    spec_buffers_in(context.buffers@, language),
                )
                &&& next.invalidate_hints_for_buffers.contains(buffer_id) <==> {
                    ||| strategy is Keep && data.invalidate_hints_for_buffers.contains(buffer_id)
                    ||| affected is Some && spec_buffers_in(
                        context.buffers@,
                        affected->0,
                    ).contains(buffer_id)
                }
            }
        }),
{
}

/// A refresh does nothing without a full editor, hints and a provider. Otherwise it deals with the
/// reason, removes what that asks for, and asks for hints exactly if that says so.
pub proof fn law_refresh(
    before: Editor,
    reason: InlayHintRefreshReason,
    context: RefreshContext,
    after: Editor,
    plan: RefreshPlan,
)
    requires
        refreshes(before, reason, context, after, plan),
    ensures
        !before.is_full || !before.has_semantics_provider || before.inlay_hints is None ==> after
            == before && plan.splice is None && plan.query is None,
        before.is_full && before.has_semantics_provider && before.inlay_hints is Some ==> {
            let (handled, removed, strategy) = before.inlay_hints->0@.reason_handled(
                reason,
                context.current_inlays@,
            );
            &&& after.inlay_hints is Some
            &&& (plan.splice is Some) == (removed is Some)
            &&& plan.splice matches Some(splice) ==> splice.to_remove@ == removed->0
                && splice.to_insert@.len() == 0
            &&& strategy is None ==> plan.query is None && after.inlay_hints->0@ == handled
            &&& strategy matches Some(strategy) ==> {
                let (next, query) = planned(
                    handled,
                    before.registered_buffers@,
                    reason,
                    strategy,
                    context,
                );
                &&& after.inlay_hints->0@ == next
                &&& query_parts(plan.query) == query
                &&& (plan.query is Some) == (query is Some)
            }
        },
        after == (Editor { inlay_hints: after.inlay_hints, ..before }),
{
}

/// What was fetched of a buffer is what is on record for it, and nothing where nothing is.
pub proof fn law_fetched_rows(data: HintData, buffer_id: u64)
    ensures
        data.hint_chunk_fetched.contains_key(buffer_id) ==> data.fetched_for(buffer_id)
            == data.hint_chunk_fetched[buffer_id],
        !data.hint_chunk_fetched.contains_key(buffer_id) ==> data.fetched_for(buffer_id).0.len()
            == 0 && data.fetched_for(buffer_id).1.is_empty(),
{
}

/// The hints that go because the buffer's were invalidated come first, and those that awaited removal
/// follow.
pub proof fn law_order_of_removed_hints(
    data: HintData,
    buffer_id: u64,
    strategy: InvalidationStrategy,
    current: Seq<Inlay>,
)
    ensures
        data.removed_on_receipt(buffer_id, strategy, current) == (HintData {
            invalidate_hints_for_buffers: Set::empty(),
            ..data
        }).removed_on_receipt(buffer_id, strategy, current) + data.removed_on_receipt(
            buffer_id,
            InvalidationStrategy::Keep,
            current,
        ),
{
    assert(Set::<u64>::empty().is_empty());
}

/// Inlays are removed in the order in which they are shown: one more inlay is removed behind the others, if
/// it is at all. This holds of hints that settings disallow, of excerpts that go, and of hints that are
/// hidden.
pub proof fn law_inlays_are_removed_in_order(
    data: HintData,
    current: Seq<Inlay>,
    inlay: Inlay,
    excerpts: Vec<u64>,
)
    ensures
        data.disallowed(current.push(inlay)) == if data.added_hints.contains_key(inlay.id)
            && !data.allowed_hint_kinds.has(data.added_hints[inlay.id]) {
            data.disallowed(current).push(inlay.id)
        } else {
            data.disallowed(current)
        },
        ({
            let reason = InlayHintRefreshReason::ExcerptsRemoved(excerpts);
            let before = data.reason_handled(reason, current).1->0;
            let after = data.reason_handled(reason, current.push(inlay)).1->0;
            after == if excerpts@.contains(inlay.position.excerpt_id) {
                before.push(inlay.id)
            } else {
                before
            }
        }),
        ids(hints_among(current.push(inlay))) == if inlay.id is Hint {
            ids(hints_among(current)).push(inlay.id)
        } else {
            ids(hints_among(current))
        },
{
    reveal(Seq::filter);
    assert(current.push(inlay).drop_last() =~= current);
    assert forall|list: Seq<Inlay>| #[trigger] ids(list.push(inlay)) =~= ids(list).push(
        inlay.id,
    ) by {}
}

} // verus!
