//! What the pointer finds in an inlay hint: a tooltip, or a link.

use std::ops::Range;
use vstd::prelude::*;

use crate::anchor::Anchor;
use crate::editor::Editor;
use crate::hover_links::{
    show_link_definition, shows_definition, InlayHighlight, InlayId, LinkPlace, LspLocation,
    TriggerPoint,
};
use crate::inlay_hints::{hints_among, Inlay};

verus! {

/// How the text of a popover is meant.
#[derive(Debug)]
pub enum HoverBlockKind {
    PlainText,
    Markdown,
    /// Code in a language.
    Code(String),
}

/// The text of a popover.
#[derive(Debug)]
pub struct HoverBlock {
    pub text: String,
    pub kind: HoverBlockKind,
}

/// The tooltip of a hint, or of a part of one.
#[derive(Debug)]
pub enum HintTooltip {
    Plain(String),
    Markup(HoverBlockKind, String),
}

/// A part of a hint's label that the pointer is over.
#[derive(Debug)]
pub struct HoveredPart {
    pub tooltip: Option<HintTooltip>,
    /// Where the part leads, and the server that said so.
    pub location: Option<(u64, LspLocation)>,
    /// The part's place in the text with its inlays.
    pub range: Range<usize>,
}

/// The label of a hint.
#[derive(Debug)]
pub enum HintLabel {
    /// A single text.
    Whole,
    /// Several parts. The hint starts at a place in the text with its inlays, and the pointer may be
    /// over one of the parts.
    Parts(usize, Option<HoveredPart>),
}

/// Whether all of a hint is known.
#[derive(Debug, Clone, Copy, PartialEq, Eq, Structural)]
pub enum ResolveState {
    Resolved,
    CanResolve,
    Resolving,
}

/// What a language server said of a hint.
#[derive(Debug)]
pub struct CachedHint {
    pub resolve_state: ResolveState,
    pub padding_left: bool,
    pub padding_right: bool,
    pub label: HintLabel,
    pub tooltip: Option<HintTooltip>,
}

/// The hint that the pointer is over, and what is known of it.
#[derive(Debug)]
pub struct HoveredHint {
    pub inlay: Inlay,
    pub cached: Option<CachedHint>,
}

/// A popover over a stretch of an inlay.
#[derive(Debug)]
pub struct InlayHover {
    pub tooltip: HoverBlock,
    pub range: InlayHighlight,
}

/// What came of a move of the pointer.
#[derive(Debug)]
pub struct PointerUpdate {
    /// The popover to show. If there is none, any other is to be hidden.
    pub hover: Option<InlayHover>,
    /// Whether a search for links was started.
    pub search_started: bool,
    /// Whether a hint that should have been resolved was not.
    pub unresolved: bool,
}

/// The text of a tooltip.
pub open spec fn spec_hover_block(tooltip: HintTooltip) -> HoverBlock {
    match tooltip {
        HintTooltip::Plain(text) => HoverBlock { text, kind: HoverBlockKind::PlainText },
        HintTooltip::Markup(kind, text) => HoverBlock { text, kind },
    }
}

/// The text of a tooltip.
pub fn hover_block(tooltip: HintTooltip) -> (block: HoverBlock)
    ensures
        block == spec_hover_block(tooltip),
{
    match tooltip {
        HintTooltip::Plain(text) => HoverBlock { text, kind: HoverBlockKind::PlainText },
        HintTooltip::Markup(kind, text) => HoverBlock { text, kind },
    }
}

impl CachedHint {
    /// How far padding moves the start of a stretch.
    pub open spec fn shift_left(self) -> int {
        if self.padding_left {
            1
        } else {
            0
        }
    }

    /// How far padding moves the end of a stretch.
    pub open spec fn shift_right(self) -> int {
        self.shift_left() + if self.padding_right {
            1int
        } else {
            0
        }
    }

    /// The part that the pointer is over.
    pub open spec fn hovered_part(self) -> Option<HoveredPart> {
        match self.label {
            HintLabel::Whole => None,
            HintLabel::Parts(_, part) => part,
        }
    }
}

impl HoveredHint {
    /// The stretch of the hint that the pointer is over: the whole label, or the hovered part of it.
    pub open spec fn stretch(self, cached: CachedHint) -> Option<(int, int)> {
        match cached.label {
            HintLabel::Whole => Some(
                (cached.shift_left(), self.inlay.text_len + cached.shift_right()),
            ),
            HintLabel::Parts(hint_start, Some(part)) => Some(
                (
                    part.range.start - hint_start + cached.shift_left(),
                    part.range.end - hint_start + cached.shift_right(),
                ),
            ),
            HintLabel::Parts(_, None) => None,
        }
    }

    /// Whether the stretch of a resolved hint is one that can be counted.
    pub open spec fn in_bounds(self) -> bool {
        resolved_hint(Some(self)) matches Some((_, cached)) ==> (self.stretch(cached) matches Some(
            (start, end),
        ) ==> {
            &&& cached.shift_left() <= start <= usize::MAX
            &&& cached.shift_right() <= end <= usize::MAX
        })
    }

    /// The highlight of the stretch.
    pub open spec fn highlight(self, cached: CachedHint) -> InlayHighlight {
        let (start, end) = self.stretch(cached)->0;
        InlayHighlight {
            inlay: self.inlay.id,
            inlay_position: self.inlay.position,
            range: Range { start: start as usize, end: end as usize },
        }
    }

    /// The popover over a hint whose parts are all known.
    pub open spec fn hover(self, cached: CachedHint) -> Option<InlayHover> {
        let tooltip = match cached.label {
            HintLabel::Whole => cached.tooltip,
            HintLabel::Parts(_, Some(part)) => part.tooltip,
            HintLabel::Parts(_, None) => None,
        };
        match tooltip {
            Some(tooltip) => Some(
                InlayHover { tooltip: spec_hover_block(tooltip), range: self.highlight(cached) },
            ),
            None => None,
        }
    }

    /// The link of a hint whose parts are all known.
    pub open spec fn link(self, cached: CachedHint) -> Option<TriggerPoint> {
        match cached.hovered_part() {
            Some(part) => match part.location {
                Some((server_id, location)) => Some(
                    TriggerPoint::InlayHint(self.highlight(cached), location, server_id),
                ),
                None => None,
            },
            None => None,
        }
    }
}

/// What is known of a hovered hint, once it is resolved.
pub open spec fn resolved_hint(hovered: Option<HoveredHint>) -> Option<(HoveredHint, CachedHint)> {
    match hovered {
        Some(hint) => match hint.cached {
            Some(cached) if cached.resolve_state == ResolveState::Resolved => Some((hint, cached)),
            _ => None,
        },
        None => None,
    }
}

impl Editor {
    /// Shows the tooltip and the link of the hint that the pointer is over. The link is shown only while
    /// the modifier for it is held and nothing is being selected. Where there is no link to show, links
    /// are hidden.
    pub fn update_inlay_link_and_hover_points(
        &mut self,
        hovered: Option<HoveredHint>,
        secondary_held: bool,
        shift_held: bool,
        has_pending_nonempty_selection: bool,
        place: Option<LinkPlace>,
    ) -> (update: Option<PointerUpdate>)
        requires
            hovered matches Some(hint) ==> hint.in_bounds(),
        ensures
            if !old(self).has_project {
                &&& update is None
                &&& *final(self) == *old(self)
            } else {
                let (hover, link) = match resolved_hint(hovered) {
                    Some((hint, cached)) => (hint.hover(cached), hint.link(cached)),
                    None => (None, None),
                };
                &&& update matches Some(update)
                &&& update.hover == hover
                &&& update.unresolved == (hovered matches Some(hint) && hint.cached matches Some(
                    cached,
                ) && cached.resolve_state == ResolveState::CanResolve)
                &&& match link {
                    Some(trigger_point) if secondary_held && !has_pending_nonempty_selection => {
                        shows_definition(
                            shift_held,
                            *old(self),
                            trigger_point,
                            place,
                            *final(self),
                            update.search_started,
                        )
                    },
                    _ => {
                        &&& !update.search_started
                        &&& *final(self) == (Editor {
                            hovered_link_state: None,
                            link_highlight: None,
                            ..*old(self)
                        })
                    },
                }
            },
    {
        if !self.has_project {
            return None;
        }
        let mut update = PointerUpdate { hover: None, search_started: false, unresolved: false };
        let hint = match hovered {
            Some(hint) => hint,
            None => {
                self.hide_hovered_link();
                return Some(update);
            },
        };
        let inlay = hint.inlay;
        let cached = match hint.cached {
            Some(cached) => cached,
            None => {
                self.hide_hovered_link();
                return Some(update);
            },
        };
        let mut go_to_definition_updated = false;
        match cached.resolve_state {
            ResolveState::Resolved => {
                let mut extra_shift_left: usize = 0;
                let mut extra_shift_right: usize = 0;
                if cached.padding_left {
                    extra_shift_left = extra_shift_left + 1;
                    extra_shift_right = extra_shift_right + 1;
                }
                if cached.padding_right {
                    extra_shift_right = extra_shift_right + 1;
                }
                match cached.label {
                    HintLabel::Whole => {
                        if let Some(tooltip) = cached.tooltip {
                            let range = InlayHighlight {
                                inlay: inlay.id,
                                inlay_position: inlay.position,
                                range: extra_shift_left..inlay.text_len + extra_shift_right,
                            };
                            update.hover = Some(
                                InlayHover { tooltip: hover_block(tooltip), range },
                            );
                        }
                    },
                    HintLabel::Parts(hint_start, part) => {
                        if let Some(part) = part {
                            let start = (part.range.start - hint_start) + extra_shift_left;
                            let end = (part.range.end - hint_start) + extra_shift_right;
                            let highlight = InlayHighlight {
                                inlay: inlay.id,
                                inlay_position: inlay.position,
                                range: start..end,
                            };
                            if let Some(tooltip) = part.tooltip {
                                update.hover = Some(
                                    InlayHover {
                                        tooltip: hover_block(tooltip),
                                        range: highlight.clone(),
                                    },
                                );
                            }
                            if let Some((server_id, location)) = part.location {
                                if secondary_held && !has_pending_nonempty_selection {
                                    go_to_definition_updated = true;
                                    update.search_started = show_link_definition(
                                        shift_held,
                                        self,
                                        TriggerPoint::InlayHint(highlight, location, server_id),
                                        place,
                                    );
                                }
                            }
                        }
                    },
                }
            },
            ResolveState::CanResolve => {
                update.unresolved = true;
            },
            ResolveState::Resolving => {},
        }
        if !go_to_definition_updated {
            self.hide_hovered_link();
        }
        Some(update)
    }
}

/// The number of a hint.
pub open spec fn spec_hint_number(id: InlayId) -> usize {
    match id {
        InlayId::Hint(number) => number,
        InlayId::Other(_, number) => number,
    }
}

fn hint_number(id: InlayId) -> (number: usize)
    ensures
        number == spec_hint_number(id),
{
    match id {
        InlayId::Hint(number) => number,
        InlayId::Other(_, number) => number,
    }
}

/// What is left of a list of hints without the leading ones that stand before a position.
pub open spec fn skip_before(hints: Seq<Inlay>, anchor: Anchor) -> Seq<Inlay>
    decreases hints.len(),
{
    if hints.len() == 0 || hints[0].position.position >= anchor.position {
        hints
    } else {
        skip_before(hints.skip(1), anchor)
    }
}

/// The leading hints of a list that stand at or before a position.
pub open spec fn take_until(hints: Seq<Inlay>, anchor: Anchor) -> Seq<Inlay>
    decreases hints.len(),
{
    if hints.len() == 0 || hints[0].position.position > anchor.position {
        Seq::empty()
    } else {
        seq![hints[0]] + take_until(hints.skip(1), anchor)
    }
}

/// The hint of the greatest number, and of several such the last.
pub open spec fn newest(hints: Seq<Inlay>) -> Option<Inlay>
    decreases hints.len(),
{
    if hints.len() == 0 {
        None
    } else {
        match newest(hints.drop_last()) {
            Some(best) if spec_hint_number(best.id) > spec_hint_number(hints.last().id) => Some(
                best,
            ),
            _ => Some(hints.last()),
        }
    }
}

/// The hint that the pointer is over, between two positions.
pub open spec fn spec_hovered_hint(
    current_inlays: Seq<Inlay>,
    previous_valid: Anchor,
    next_valid: Anchor,
) -> Option<Inlay> {
    newest(take_until(skip_before(hints_among(current_inlays), previous_valid), next_valid))
}

/// Finds the hint that the pointer is over, between the positions in the text before and after it.
/// Behind the end of a line there is none.
pub fn hovered_hint(
    current_inlays: &Vec<Inlay>,
    column_overshoot_after_line_end: u32,
    previous_valid: Anchor,
    next_valid: Anchor,
) -> (hint: Option<Inlay>)
    ensures
        hint == if column_overshoot_after_line_end == 0 {
            spec_hovered_hint(current_inlays@, previous_valid, next_valid)
        } else {
            None
        },
{
    if column_overshoot_after_line_end != 0 {
        return None;
    }
    let hints = Editor::visible_inlay_hints(current_inlays);
    let mut i: usize = 0;
    assert(hints@.skip(0) =~= hints@);
    while i < hints.len() && hints[i].position.position < previous_valid.position
        invariant
            i <= hints@.len(),
            skip_before(hints@, previous_valid) == skip_before(
                hints@.skip(i as int),
                previous_valid,
            ),
        decreases hints@.len() - i,
    {
        assert(hints@.skip(i as int).skip(1) =~= hints@.skip(i + 1));
        i = i + 1;
    }
    let ghost from = i as int;
    let ghost window = take_until(hints@.skip(from), next_valid);
    let mut best: Option<Inlay> = None;
    assert(hints@.subrange(from, from) + window =~= window);
    while i < hints.len() && hints[i].position.position <= next_valid.position
        invariant
            0 <= from <= i <= hints@.len(),
            window == hints@.subrange(from, i as int) + take_until(
                hints@.skip(i as int),
                next_valid,
            ),
            best == newest(hints@.subrange(from, i as int)),
        decreases hints@.len() - i,
    {
        proof {
            assert(hints@.skip(i as int).skip(1) =~= hints@.skip(i + 1));
            assert(hints@.subrange(from, i + 1).drop_last() =~= hints@.subrange(from, i as int));
            assert(hints@.subrange(from, i as int) + (seq![hints@[i as int]] + take_until(
                hints@.skip(i + 1),
                next_valid,
            )) =~= hints@.subrange(from, i + 1) + take_until(hints@.skip(i + 1), next_valid));
        }
        let hint = hints[i];
        best = match best {
            Some(best) => if hint_number(best.id) > hint_number(hint.id) {
                Some(best)
            } else {
                Some(hint)
            },
            None => Some(hint),
        };
        i = i + 1;
    }
    assert(window =~= hints@.subrange(from, i as int));
    best
}

/// Whether inlays are in the order of their positions, as an editor keeps them.
pub open spec fn in_order(inlays: Seq<Inlay>) -> bool {
    forall|i: int, j: int|
        0 <= i <= j < inlays.len() ==> inlays[i].position.position <= inlays[j].position.position
}

/// Whether a hint stands between two positions.
pub open spec fn between(hint: Inlay, previous_valid: Anchor, next_valid: Anchor) -> bool {
    previous_valid.position <= hint.position.position <= next_valid.position
}

proof fn lemma_skip_before(hints: Seq<Inlay>, anchor: Anchor)
    requires
        in_order(hints),
    ensures
        in_order(skip_before(hints, anchor)),
        forall|hint: Inlay| #[trigger]
            skip_before(hints, anchor).contains(hint) <==> hints.contains(hint)
                && hint.position.position >= anchor.position,
    decreases hints.len(),
{
    if hints.len() > 0 && hints[0].position.position < anchor.position {
        let rest = hints.skip(1);
        assert(in_order(rest));
        lemma_skip_before(rest, anchor);
        assert forall|hint: Inlay|
            hint.position.position >= anchor.position implies rest.contains(hint)
            == #[trigger] hints.contains(hint) by {
            if hints.contains(hint) {
                let i = choose|i: int| 0 <= i < hints.len() && hints[i] == hint;
                assert(rest[i - 1] == hint);
            }
            if rest.contains(hint) {
                let i = choose|i: int| 0 <= i < rest.len() && rest[i] == hint;
                assert(hints[i + 1] == hint);
            }
        }
    }
}

proof fn lemma_take_until(hints: Seq<Inlay>, anchor: Anchor)
    requires
        in_order(hints),
    ensures
        forall|hint: Inlay| #[trigger]
            take_until(hints, anchor).contains(hint) <==> hints.contains(hint)
                && hint.position.position <= anchor.position,
    decreases hints.len(),
{
    if hints.len() > 0 && hints[0].position.position <= anchor.position {
        let rest = hints.skip(1);
        assert(in_order(rest));
        lemma_take_until(rest, anchor);
        let taken = take_until(hints, anchor);
        assert forall|hint: Inlay| #[trigger] taken.contains(hint) <==> hints.contains(hint)
            && hint.position.position <= anchor.position by {
            if taken.contains(hint) {
                let i = choose|i: int| 0 <= i < taken.len() && taken[i] == hint;
                if i > 0 {
                    assert(take_until(rest, anchor)[i - 1] == hint);
                    assert(take_until(rest, anchor).contains(hint));
                    let j = choose|j: int| 0 <= j < rest.len() && rest[j] == hint;
                    assert(hints[j + 1] == hint);
                }
            }
            if hints.contains(hint) && hint.position.position <= anchor.position {
                let i = choose|i: int| 0 <= i < hints.len() && hints[i] == hint;
                if i > 0 {
                    assert(rest[i - 1] == hint);
                    assert(take_until(rest, anchor).contains(hint));
                    let j = choose|j: int|
                        0 <= j < take_until(rest, anchor).len() && take_until(rest, anchor)[j]
                            == hint;
                    assert(taken[j + 1] == hint);
                } else {
                    assert(taken[0] == hint);
                }
            }
        }
    }
}

proof fn lemma_newest(hints: Seq<Inlay>)
    ensures
        match newest(hints) {
            Some(best) => hints.contains(best) && forall|hint: Inlay| #[trigger]
                hints.contains(hint) ==> spec_hint_number(hint.id) <= spec_hint_number(best.id),
            None => hints.len() == 0,
        },
    decreases hints.len(),
{
    if hints.len() > 0 {
        let before = hints.drop_last();
        lemma_newest(before);
        let best = newest(hints)->0;
        if before.contains(best) {
            let i = choose|i: int| 0 <= i < before.len() && before[i] == best;
            assert(hints[i] == best);
        }
        assert forall|hint: Inlay| #[trigger] hints.contains(hint) implies spec_hint_number(hint.id)
            <= spec_hint_number(best.id) by {
            let i = choose|i: int| 0 <= i < hints.len() && hints[i] == hint;
            if i < before.len() {
                assert(before[i] == hint);
                assert(before.contains(hint));
            }
        }
    }
}

/// The hint that the pointer is over is the newest of those between the two positions, and there is
/// one whenever any hint stands between them.
pub proof fn law_hovered_hint_is_the_newest_between(
    current_inlays: Seq<Inlay>,
    previous_valid: Anchor,
    next_valid: Anchor,
)
    requires
        in_order(hints_among(current_inlays)),
    ensures
        match spec_hovered_hint(current_inlays, previous_valid, next_valid) {
            Some(best) => {
                &&& hints_among(current_inlays).contains(best)
                &&& between(best, previous_valid, next_valid)
                &&& forall|hint: Inlay| #[trigger]
                    hints_among(current_inlays).contains(hint) && between(
                        hint,
                        previous_valid,
                        next_valid,
                    ) ==> spec_hint_number(hint.id) <= spec_hint_number(best.id)
            },
            None => forall|hint: Inlay| #[trigger]
                hints_among(current_inlays).contains(hint) ==> !between(
                    hint,
                    previous_valid,
                    next_valid,
                ),
        },
{
    let hints = hints_among(current_inlays);
    let rest = skip_before(hints, previous_valid);
    let window = take_until(rest, next_valid);
    lemma_skip_before(hints, previous_valid);
    lemma_take_until(rest, next_valid);
    lemma_newest(window);
    assert forall|hint: Inlay| #[trigger] hints.contains(hint) implies (between(
        hint,
        previous_valid,
        next_valid,
    ) <==> window.contains(hint)) by {
        assert(rest.contains(hint) <==> hint.position.position >= previous_valid.position);
    }
    if let Some(best) = newest(window) {
        assert(window.contains(best));
        assert(rest.contains(best));
    }
}

} // verus!
