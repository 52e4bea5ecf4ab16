//! What holds of hovered links.

use std::ops::Range;
use vstd::prelude::*;

use crate::anchor::{Anchor, Bias, TextAnchor};
use crate::editor::Editor;
use crate::hover_links::{
    first_holding, first_origin, shows_definition, spec_leads_elsewhere, spec_links_to_follow,
    spec_preferred_kind, spec_underline, text_range, Definition, GotoDefinitionKind, HoverLink,
    HoveredLinkState, InlayHighlight, LinkHighlight, LinkPlace, LinkResult, Location,
    LocationLink, LspLocation, RangeInEditor, TriggerPoint,
};

verus! {

/// A link leads back exactly if its target is in the clicked buffer and holds the clicked position: the
/// target starts at or before the position and ends behind it, or at it, where only a position that
/// sticks to the right is behind an end that sticks to the left.
pub proof fn law_link_leads_back_if_its_target_holds_the_position(
    buffer: u64,
    position: TextAnchor,
    location: LocationLink,
)
    ensures
        !spec_leads_elsewhere(buffer, position, location) <==> {
            let start = location.target.range.start;
            let end = location.target.range.end;
            &&& location.target.buffer == buffer
            &&& start.offset <= position.offset
            &&& position.offset < end.offset || position.offset == end.offset && !(position.bias
                == Bias::Right && end.bias == Bias::Left)
        },
{
}

/// A link whose target does not hold the clicked position leads elsewhere, whatever its origin.
pub proof fn law_link_to_another_place_leads_elsewhere(
    buffer: u64,
    position: TextAnchor,
    location: LocationLink,
)
    requires
        location.target.buffer != buffer || position.offset < location.target.range.start.offset
            || position.offset > location.target.range.end.offset,
    ensures
        spec_leads_elsewhere(buffer, position, location),
{
}

/// Where a link starts from does not matter for whether it leads back.
pub proof fn law_origin_of_a_link_does_not_matter(
    buffer: u64,
    position: TextAnchor,
    location: LocationLink,
    origin: Option<Location>,
)
    ensures
        spec_leads_elsewhere(buffer, position, location) == spec_leads_elsewhere(
            buffer,
            position,
            (LocationLink { origin, ..location }),
        ),
{
}

/// A link is followed after those before it: all but a text link whose target holds the clicked
/// position are.
pub proof fn law_links_are_followed_in_order(
    links: Seq<HoverLink>,
    buffer: u64,
    position: TextAnchor,
    link: HoverLink,
)
    ensures
        spec_links_to_follow(Seq::empty(), buffer, position) == Seq::<HoverLink>::empty(),
        ({
            let leads_back = link matches HoverLink::Text(location) && {
                let start = location.target.range.start;
                let end = location.target.range.end;
                &&& location.target.buffer == buffer
                &&& start.offset <= position.offset
                &&& position.offset < end.offset || position.offset == end.offset && !(
                position.bias == Bias::Right && end.bias == Bias::Left)
            };
            let before = spec_links_to_follow(links, buffer, position);
            spec_links_to_follow(links.push(link), buffer, position) == if leads_back {
                before
            } else {
                before.push(link)
            }
        }),
{
    reveal(Seq::filter);
    assert(links.push(link).drop_last() =~= links);
}

/// A stretch of text holds exactly the text positions from its start to its end.
pub proof fn law_text_stretch_holds_what_lies_in_it(range: Range<Anchor>, point: Anchor)
    ensures
        RangeInEditor::Text(range).holds(TriggerPoint::Text(point)) <==> range.start.position
            <= point.position && point.position <= range.end.position,
{
}

/// A stretch of an inlay holds exactly those stretches of the same inlay whose two ends both lie in it,
/// its own end not counted.
pub proof fn law_inlay_stretch_holds_what_lies_in_it(
    highlight: InlayHighlight,
    point: InlayHighlight,
    location: LspLocation,
    server_id: u64,
)
    ensures
        RangeInEditor::Inlay(highlight).holds(
            TriggerPoint::InlayHint(point, location, server_id),
        ) <==> {
            &&& point.inlay == highlight.inlay
            &&& highlight.range.start <= point.range.start
            &&& highlight.range.start <= point.range.end
            &&& point.range.start < highlight.range.end
            &&& point.range.end < highlight.range.end
        },
{
}

/// Text never holds an inlay hint, nor an inlay text.
pub proof fn law_text_and_inlays_do_not_mix(
    range: Range<Anchor>,
    highlight: InlayHighlight,
    text: Anchor,
    point: InlayHighlight,
    location: LspLocation,
    server_id: u64,
)
    ensures
        !RangeInEditor::Text(range).holds(TriggerPoint::InlayHint(point, location, server_id)),
        !RangeInEditor::Inlay(highlight).holds(TriggerPoint::Text(text)),
        !TriggerPoint::Text(text).same(TriggerPoint::InlayHint(point, location, server_id)),
        !TriggerPoint::InlayHint(point, location, server_id).same(TriggerPoint::Text(text)),
        TriggerPoint::Text(text).spec_anchor() == text,
        TriggerPoint::InlayHint(point, location, server_id).spec_anchor() == point.inlay_position,
{
}

/// Two trigger points are the same exactly if every part is.
pub proof fn law_same_trigger_points(
    a: Anchor,
    b: Anchor,
    h: InlayHighlight,
    l: LspLocation,
    s: u64,
    i: InlayHighlight,
    m: LspLocation,
    t: u64,
)
    ensures
        TriggerPoint::Text(a).same(TriggerPoint::Text(b)) <==> a == b,
        TriggerPoint::InlayHint(h, l, s).same(TriggerPoint::InlayHint(i, m, t)) <==> {
            &&& h.inlay == i.inlay
            &&& h.inlay_position == i.inlay_position
            &&& h.range.start == i.range.start
            &&& h.range.end == i.range.end
            &&& l.uri@ == m.uri@
            &&& l.start == m.start
            &&& l.end == m.end
            &&& s == t
        },
{
}

/// Definitions of symbols are looked for in text without shift, and of types otherwise.
pub proof fn law_preferred_kind(anchor: Anchor, highlight: InlayHighlight, location: LspLocation, id: u64, shift_held: bool)
    ensures
        spec_preferred_kind(TriggerPoint::Text(anchor), false) == GotoDefinitionKind::Symbol,
        spec_preferred_kind(TriggerPoint::Text(anchor), true) == GotoDefinitionKind::Type,
        spec_preferred_kind(TriggerPoint::InlayHint(highlight, location, id), shift_held)
            == GotoDefinitionKind::Type,
{
}

/// Whether what an editor knows of links makes a search for a trigger point needless: there are links of
/// the kind looked for, or a URL comes first, and they belong to the same trigger point, or to a stretch
/// that holds it.
pub open spec fn is_known(state: HoveredLinkState, point: TriggerPoint, kind: GotoDefinitionKind) -> bool {
    &&& {
        ||| state.preferred_kind == kind
        ||| state.links@.len() > 0 && state.links@[0] is Url
    }
    &&& {
        ||| state.last_trigger_point.same(point)
        ||| state.symbol_range is Some && state.symbol_range->0.holds(point)
    }
}

/// A search is started exactly if no rename is pending, the trigger point is in a buffer, and the links
/// there are not known.
pub proof fn law_search_is_started_unless_links_are_known(
    shift_held: bool,
    before: Editor,
    point: TriggerPoint,
    place: Option<LinkPlace>,
    after: Editor,
    started: bool,
)
    requires
        shows_definition(shift_held, before, point, place, after, started),
    ensures
        started <==> {
            &&& !before.pending_rename
            &&& place is Some
            &&& before.hovered_link_state matches Some(state) ==> !is_known(
                state,
                point,
                spec_preferred_kind(point, shift_held),
            )
        },
{
}

/// The search that is started is for the trigger point, at its place and of the kind looked for. The links
/// known before stay until it ends; those of another kind lose their underline.
pub proof fn law_started_search_is_for_the_trigger_point(
    shift_held: bool,
    before: Editor,
    point: TriggerPoint,
    place: Option<LinkPlace>,
    after: Editor,
)
    requires
        shows_definition(shift_held, before, point, place, after, true),
    ensures
        after.hovered_link_state is Some,
        ({
            let state = after.hovered_link_state->0;
            let kind = spec_preferred_kind(point, shift_held);
            &&& state.task is Some
            &&& state.task->0.trigger_point == point
            &&& state.task->0.preferred_kind == kind
            &&& Some(state.task->0.place) == place
            &&& state.task->0.has_project == before.has_project
            &&& state.task->0.has_provider == before.has_semantics_provider
            &&& match before.hovered_link_state {
                Some(known) => {
                    &&& state.links == known.links
                    &&& state.symbol_range == known.symbol_range
                    &&& state.preferred_kind == known.preferred_kind
                    &&& state.last_trigger_point == known.last_trigger_point
                    &&& after.link_highlight == if known.preferred_kind == kind
                        || known.links@.len() > 0 && known.links@[0] is Url {
                        before.link_highlight
                    } else {
                        None
                    }
                },
                None => {
                    &&& state.links@.len() == 0
                    &&& state.symbol_range is None
                    &&& state.preferred_kind == kind
                    &&& state.last_trigger_point == point
                    &&& after.link_highlight == before.link_highlight
                },
            }
        }),
        after == (Editor {
            hovered_link_state: after.hovered_link_state,
            link_highlight: after.link_highlight,
            ..before
        }),
{
}

/// Where no search is started, known links stay as they are, and otherwise there are none any more.
pub proof fn law_without_a_search_links_stay_or_go(
    shift_held: bool,
    before: Editor,
    point: TriggerPoint,
    place: Option<LinkPlace>,
    after: Editor,
)
    requires
        shows_definition(shift_held, before, point, place, after, false),
    ensures
        before.pending_rename || place is None ==> after.hovered_link_state is None,
        !before.pending_rename && place is Some ==> after == before,
        after == (Editor { hovered_link_state: after.hovered_link_state, ..before }),
{
}

/// The stretch that definitions are for is the first origin that is known.
pub proof fn law_first_known_origin_is_taken(definitions: Seq<Definition>, k: int)
    requires
        0 <= k < definitions.len(),
        definitions[k].origin_range is Some,
        forall|j: int| 0 <= j < k ==> (#[trigger] definitions[j]).origin_range is None,
    ensures
        first_origin(definitions) == definitions[k].origin_range,
        text_range(first_origin(definitions)) == Some(
            RangeInEditor::Text(definitions[k].origin_range->0),
        ),
    decreases definitions.len(),
{
    if k > 0 {
        let rest = definitions.drop_first();
        assert(definitions[0].origin_range is None);
        assert forall|j: int| 0 <= j < k - 1 implies (#[trigger] rest[j]).origin_range is None by {
            assert(definitions[j + 1].origin_range is None);
        }
        law_first_known_origin_is_taken(rest, k - 1);
    }
}

/// Where no origin is known, there is no stretch.
pub proof fn law_no_known_origin(definitions: Seq<Definition>)
    requires
        forall|j: int|
            0 <= j < definitions.len() ==> (#[trigger] definitions[j]).origin_range is None,
    ensures
        text_range(first_origin(definitions)) is None,
    decreases definitions.len(),
{
    if definitions.len() > 0 {
        let rest = definitions.drop_first();
        assert(definitions[0].origin_range is None);
        assert forall|j: int| 0 <= j < rest.len() implies (#[trigger] rest[j]).origin_range
            is None by {
            assert(definitions[j + 1].origin_range is None);
        }
        law_no_known_origin(rest);
    }
}

/// Links are underlined at their stretch; links without one at the word under the pointer or at the
/// hovered part of the hint. Without a stretch and without links, nothing is.
pub proof fn law_links_are_underlined(point: TriggerPoint, result: LinkResult)
    ensures
        result.symbol_range matches Some(range) ==> spec_underline(point, result) == Some(
            LinkHighlight::Range(range),
        ),
        result.symbol_range is None && result.links@.len() == 0 ==> spec_underline(point, result)
            is None,
        result.symbol_range is None && result.links@.len() > 0 ==> match point {
            TriggerPoint::Text(anchor) => spec_underline(point, result) == Some(
                LinkHighlight::SurroundingWord(anchor),
            ),
            TriggerPoint::InlayHint(highlight, _, _) => spec_underline(point, result) == Some(
                LinkHighlight::Range(RangeInEditor::Inlay(highlight)),
            ),
        },
{
}

/// The first stretch that holds the selection is found.
pub proof fn law_first_stretch_at_the_selection_is_found(
    ranges: Seq<RangeInEditor>,
    from: int,
    selection: Anchor,
    k: int,
)
    requires
        0 <= from <= k < ranges.len(),
        ranges[k].holds(TriggerPoint::Text(selection)),
        forall|j: int|
            from <= j < k ==> !(#[trigger] ranges[j]).holds(TriggerPoint::Text(selection)),
    ensures
        first_holding(ranges, from, selection) == Some(k),
    decreases k - from,
{
    if from < k {
        assert(!ranges[from].holds(TriggerPoint::Text(selection)));
        law_first_stretch_at_the_selection_is_found(ranges, from + 1, selection, k);
    }
}

/// Where no stretch holds the selection, none is found.
pub proof fn law_no_stretch_at_the_selection(
    ranges: Seq<RangeInEditor>,
    from: int,
    selection: Anchor,
)
    requires
        0 <= from <= ranges.len(),
        forall|j: int|
            from <= j < ranges.len() ==> !(#[trigger] ranges[j]).holds(
                TriggerPoint::Text(selection),
            ),
    ensures
        first_holding(ranges, from, selection) is None,
    decreases ranges.len() - from,
{
    if from < ranges.len() {
        assert(!ranges[from].holds(TriggerPoint::Text(selection)));
        law_no_stretch_at_the_selection(ranges, from + 1, selection);
    }
}

} // verus!
