//! What holds of popovers and links at inlay hints.

use vstd::prelude::*;

use crate::anchor::Anchor;
use crate::editor::Editor;
use crate::hint_hover::{
    between, hover_block, hovered_hint, in_order, law_hovered_hint_is_the_newest_between, newest,
    skip_before, spec_hint_number, take_until, CachedHint, HintTooltip, HoverBlock, HoveredHint,
    HoveredPart, PointerUpdate, ResolveState,
};
use crate::hover_links::{GotoDefinitionKind, InlayHighlight, InlayId, LinkPlace, TriggerPoint};
use crate::inlay_hints::{hints_among, Inlay};

verus! {

/// The text of a tooltip is shown as it is, and is plain unless it says otherwise.
pub proof fn law_text_of_a_tooltip(tooltip: HintTooltip, block: HoverBlock)
    requires
        call_ensures(hover_block, (tooltip,), block),
    ensures
        tooltip is Plain ==> block.text == tooltip->Plain_0 && block.kind is PlainText,
        tooltip is Markup ==> block.text == tooltip->Markup_1 && block.kind == tooltip->Markup_0,
{
}

/// What is known of a hint that is resolved.
pub open spec fn is_resolved(hovered: Option<HoveredHint>) -> bool {
    hovered is Some && hovered->0.cached is Some && hovered->0.cached->0.resolve_state
        == ResolveState::Resolved
}

/// The part that the pointer is over, if the label has parts and it is over one.
pub open spec fn part_under_pointer(cached: CachedHint) -> Option<HoveredPart> {
    if cached.label is Parts {
        cached.label->Parts_1
    } else {
        None
    }
}

/// The tooltip that belongs under the pointer: that of the whole label, or that of the part.
pub open spec fn tooltip_under_pointer(cached: CachedHint) -> Option<HintTooltip> {
    if cached.label is Whole {
        cached.tooltip
    } else if part_under_pointer(cached) is Some {
        part_under_pointer(cached)->0.tooltip
    } else {
        None
    }
}

/// How many columns of padding stand before the start, and before the end, of a label.
pub open spec fn padding(cached: CachedHint) -> (int, int) {
    (
        if cached.padding_left {
            1
        } else {
            0
        },
        if cached.padding_left && cached.padding_right {
            2
        } else if cached.padding_left || cached.padding_right {
            1
        } else {
            0
        },
    )
}

/// Whether a highlight is that of a hovered hint: the whole text for a whole label, or the part relative to
/// where the hint starts, moved by the padding.
pub open spec fn highlights(highlight: InlayHighlight, hint: HoveredHint, cached: CachedHint) -> bool {
    let (left, right) = padding(cached);
    &&& highlight.inlay == hint.inlay.id
    &&& highlight.inlay_position == hint.inlay.position
    &&& cached.label is Whole ==> highlight.range.start == left && highlight.range.end
        == hint.inlay.text_len + right
    &&& part_under_pointer(cached) matches Some(part) ==> {
        let from = cached.label->Parts_0;
        &&& highlight.range.start == part.range.start - from + left
        &&& highlight.range.end == part.range.end - from + right
    }
}

/// A popover is shown exactly over a resolved hint, or a part of one, that has a tooltip. It shows the
/// tooltip's text, at the stretch of the hint that the pointer is over.
pub proof fn law_popover_over_a_hint(
    editor: &mut Editor,
    hovered: Option<HoveredHint>,
    secondary: bool,
    shift: bool,
    selecting: bool,
    place: Option<LinkPlace>,
    update: Option<PointerUpdate>,
)
    requires
        call_ensures(
            Editor::update_inlay_link_and_hover_points,
            (editor, hovered, secondary, shift, selecting, place),
            update,
        ),
        hovered matches Some(hint) ==> hint.in_bounds(),
    ensures
        update is Some <==> old(editor).has_project,
        update is None ==> *final(editor) == *old(editor),
        update matches Some(update) ==> {
            &&& update.hover is Some <==> is_resolved(hovered) && tooltip_under_pointer(
                hovered->0.cached->0,
            ) is Some
            &&& update.hover matches Some(hover) ==> {
                let tooltip = tooltip_under_pointer(hovered->0.cached->0)->0;
                &&& highlights(hover.range, hovered->0, hovered->0.cached->0)
                &&& tooltip is Plain ==> hover.tooltip.text == tooltip->Plain_0
                    && hover.tooltip.kind is PlainText
                &&& tooltip is Markup ==> hover.tooltip.text == tooltip->Markup_1
                    && hover.tooltip.kind == tooltip->Markup_0
            }
            &&& update.unresolved <==> hovered is Some && hovered->0.cached is Some
                && hovered->0.cached->0.resolve_state == ResolveState::CanResolve
        },
{
}

/// The link of a resolved hint's part is shown while the modifier is held and nothing is being selected. It
/// is searched for like any link, at the part and for the location that the part leads to. Without a link
/// to show, none is known or underlined any more.
pub proof fn law_link_at_a_hint(
    editor: &mut Editor,
    hovered: Option<HoveredHint>,
    secondary: bool,
    shift: bool,
    selecting: bool,
    place: Option<LinkPlace>,
    update: Option<PointerUpdate>,
)
    requires
        call_ensures(
            Editor::update_inlay_link_and_hover_points,
            (editor, hovered, secondary, shift, selecting, place),
            update,
        ),
        hovered matches Some(hint) ==> hint.in_bounds(),
        old(editor).has_project,
    ensures
        update is Some,
        ({
            let cached = hovered->0.cached->0;
            let part = part_under_pointer(cached);
            let shown = is_resolved(hovered) && part is Some && part->0.location is Some && secondary
                && !selecting;
            &&& !shown ==> {
                &&& !update->0.search_started
                &&& final(editor).hovered_link_state is None
                &&& final(editor).link_highlight is None
            }
            &&& shown && (old(editor).pending_rename || place is None)
                ==> !update->0.search_started && final(editor).hovered_link_state is None
            &&& shown && !old(editor).pending_rename && place is Some && old(
                editor,
            ).hovered_link_state is None ==> update->0.search_started
            &&& update->0.search_started ==> {
                let search = final(editor).hovered_link_state->0.task->0;
                let (server_id, location) = part->0.location->0;
                &&& final(editor).hovered_link_state is Some
                &&& final(editor).hovered_link_state->0.task is Some
                &&& search.trigger_point matches TriggerPoint::InlayHint(highlight, leads_to, server)
                &&& highlights(highlight, hovered->0, cached)
                &&& leads_to == location
                &&& server == server_id
                &&& Some(search.place) == place
                &&& search.preferred_kind == GotoDefinitionKind::Type
            }
            &&& *final(editor) == (Editor {
                hovered_link_state: final(editor).hovered_link_state,
                link_highlight: final(editor).link_highlight,
                ..*old(editor)
            })
        }),
{
}

/// Hints are numbered by their identity alone.
pub proof fn law_number_of_a_hint(number: usize, kind: u8)
    ensures
        spec_hint_number(InlayId::Hint(number)) == number,
        spec_hint_number(InlayId::Other(kind, number)) == number,
{
}

/// The leading hints before a position are skipped, up to the first that is not before it.
pub proof fn law_skipped_hints(hints: Seq<Inlay>, anchor: Anchor, k: int)
    requires
        0 <= k <= hints.len(),
        forall|i: int| 0 <= i < k ==> (#[trigger] hints[i]).position.position < anchor.position,
        k < hints.len() ==> hints[k].position.position >= anchor.position,
    ensures
        skip_before(hints, anchor) == hints.skip(k),
    decreases k,
{
    if k > 0 {
        let rest = hints.skip(1);
        assert(hints[0].position.position < anchor.position);
        assert forall|i: int| 0 <= i < k - 1 implies (#[trigger] rest[i]).position.position
            < anchor.position by {
            assert(hints[i + 1].position.position < anchor.position);
        }
        law_skipped_hints(rest, anchor, k - 1);
        assert(rest.skip(k - 1) =~= hints.skip(k));
    } else {
        assert(hints.skip(0) =~= hints);
    }
}

/// The leading hints at or before a position are taken, up to the first that is behind it.
pub proof fn law_taken_hints(hints: Seq<Inlay>, anchor: Anchor, k: int)
    requires
        0 <= k <= hints.len(),
        forall|i: int| 0 <= i < k ==> (#[trigger] hints[i]).position.position <= anchor.position,
        k < hints.len() ==> hints[k].position.position > anchor.position,
    ensures
        take_until(hints, anchor) == hints.take(k),
    decreases k,
{
    if k > 0 {
        let rest = hints.skip(1);
        assert(hints[0].position.position <= anchor.position);
        assert forall|i: int| 0 <= i < k - 1 implies (#[trigger] rest[i]).position.position
            <= anchor.position by {
            assert(hints[i + 1].position.position <= anchor.position);
        }
        law_taken_hints(rest, anchor, k - 1);
        assert(seq![hints[0]] + rest.take(k - 1) =~= hints.take(k));
    } else {
        assert(hints.take(0) =~= Seq::<Inlay>::empty());
    }
}

/// A hint is newer than those before it if its number is not smaller.
pub proof fn law_newest_hint(hints: Seq<Inlay>, hint: Inlay)
    ensures
        newest(Seq::empty()) is None,
        newest(hints.push(hint)) == match newest(hints) {
            Some(best) if spec_hint_number(hint.id) < spec_hint_number(best.id) => Some(best),
            _ => Some(hint),
        },
{
    assert(hints.push(hint).drop_last() =~= hints);
}

/// The pointer is over no hint behind the end of a line. Elsewhere it is over the newest of the hints
/// between the two positions, whenever there is one.
pub proof fn law_hint_under_the_pointer(
    inlays: &Vec<Inlay>,
    overshoot: u32,
    previous: Anchor,
    next: Anchor,
    hint: Option<Inlay>,
    other: Inlay,
)
    requires
        call_ensures(hovered_hint, (inlays, overshoot, previous, next), hint),
        in_order(hints_among(inlays@)),
    ensures
        overshoot > 0 ==> hint is None,
        hint matches Some(best) ==> {
            &&& inlays@.contains(best)
            &&& best.id is Hint
            &&& previous.position <= best.position.position <= next.position
        },
        overshoot == 0 && inlays@.contains(other) && other.id is Hint && previous.position
            <= other.position.position <= next.position ==> hint is Some && spec_hint_number(
            other.id,
        ) <= spec_hint_number(hint->0.id),
{
    law_hovered_hint_is_the_newest_between(inlays@, previous, next);
    let hints = hints_among(inlays@);
    lemma_hint_among(inlays@, other);
    if hint is Some {
        lemma_hint_among(inlays@, hint->0);
    }
    assert(hints.contains(other) && between(other, previous, next) ==> hint is Some || overshoot
        > 0);
}

proof fn lemma_hint_among(inlays: Seq<Inlay>, inlay: Inlay)
    ensures
        hints_among(inlays).contains(inlay) <==> inlays.contains(inlay) && inlay.id is Hint,
    decreases inlays.len(),
{
    crate::hint_data_laws::lemma_picked(inlays, |inlay: Inlay| inlay.id is Hint, inlay);
}

} // verus!
