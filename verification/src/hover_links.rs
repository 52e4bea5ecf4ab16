//! Links that appear while the pointer hovers over text or over an inlay hint.

use std::ops::Range;
use vstd::prelude::*;

use crate::anchor::{spec_anchored, Anchor, TextAnchor};
use crate::editor::Editor;
use crate::file_links::ResolvedPath;
use crate::text::{index_of, is_boundary, BufferSnapshot};
use crate::url_links::{find_url, spec_find_url, token_start_in_limit};

verus! {

/// Identity of an inlay.
#[derive(Debug, Clone, Copy, PartialEq, Eq, Structural)]
pub enum InlayId {
    /// A hint of a language server.
    Hint(usize),
    /// An inlay of another kind, which the number tells apart.
    Other(u8, usize),
}

/// A line and a character within it, as language servers count them.
#[derive(Debug, Clone, Copy, PartialEq, Eq, Structural)]
pub struct LspPosition {
    pub line: u32,
    pub character: u32,
}

/// A place in a document, as language servers name it.
#[derive(Debug)]
pub struct LspLocation {
    pub uri: String,
    pub start: LspPosition,
    pub end: LspPosition,
}

impl Clone for LspLocation {
    fn clone(&self) -> (copy: Self)
        ensures
            copy == *self,
    {
        LspLocation { uri: self.uri.clone(), start: self.start, end: self.end }
    }
}

/// A stretch of an inlay's text.
#[derive(Debug)]
pub struct InlayHighlight {
    pub inlay: InlayId,
    pub inlay_position: Anchor,
    pub range: Range<usize>,
}

impl Clone for InlayHighlight {
    fn clone(&self) -> (copy: Self)
        ensures
            copy == *self,
    {
        InlayHighlight {
            inlay: self.inlay,
            inlay_position: self.inlay_position,
            range: self.range.start..self.range.end,
        }
    }
}

/// What the pointer is over.
#[derive(Debug)]
pub enum TriggerPoint {
    Text(Anchor),
    /// A part of an inlay hint that leads to a location, and the server that said so.
    InlayHint(InlayHighlight, LspLocation, u64),
}

impl Clone for TriggerPoint {
    fn clone(&self) -> (copy: Self)
        ensures
            copy == *self,
    {
        match self {
            TriggerPoint::Text(anchor) => TriggerPoint::Text(*anchor),
            TriggerPoint::InlayHint(highlight, location, server_id) => TriggerPoint::InlayHint(
                highlight.clone(),
                location.clone(),
                *server_id,
            ),
        }
    }
}

impl TriggerPoint {
    /// Whether two trigger points are alike in every part.
    pub open spec fn same(self, other: TriggerPoint) -> bool {
        match (self, other) {
            (TriggerPoint::Text(a), TriggerPoint::Text(b)) => a == b,
            (TriggerPoint::InlayHint(h, l, s), TriggerPoint::InlayHint(i, m, t)) => {
                &&& h == i
                &&& l.uri@ == m.uri@
                &&& l.start == m.start
                &&& l.end == m.end
                &&& s == t
            },
            _ => false,
        }
    }

    /// The position that a trigger point stands at.
    pub open spec fn spec_anchor(self) -> Anchor {
        match self {
            TriggerPoint::Text(anchor) => anchor,
            TriggerPoint::InlayHint(highlight, _, _) => highlight.inlay_position,
        }
    }

    /// The position that a trigger point stands at.
    pub fn anchor(&self) -> (anchor: &Anchor)
        ensures
            *anchor == self.spec_anchor(),
    {
        match self {
            TriggerPoint::Text(anchor) => anchor,
            TriggerPoint::InlayHint(highlight, _, _) => &highlight.inlay_position,
        }
    }
}

impl PartialEq for TriggerPoint {
    fn eq(&self, other: &Self) -> (result: bool) {
        match (self, other) {
            (TriggerPoint::Text(a), TriggerPoint::Text(b)) => *a == *b,
            (TriggerPoint::InlayHint(h, l, s), TriggerPoint::InlayHint(i, m, t)) => {
                h.inlay == i.inlay && h.inlay_position == i.inlay_position && h.range.start
                    == i.range.start && h.range.end == i.range.end && l.uri == m.uri && l.start
                    == m.start && l.end == m.end && *s == *t
            },
            _ => false,
        }
    }
}

impl vstd::std_specs::cmp::PartialEqSpecImpl for TriggerPoint {
    open spec fn obeys_eq_spec() -> bool {
        true
    }

    open spec fn eq_spec(&self, other: &Self) -> bool {
        self.same(*other)
    }
}

/// A stretch of what the editor shows.
#[derive(Debug)]
pub enum RangeInEditor {
    Text(Range<Anchor>),
    Inlay(InlayHighlight),
}

impl Clone for RangeInEditor {
    fn clone(&self) -> (copy: Self)
        ensures
            copy == *self,
    {
        match self {
            RangeInEditor::Text(range) => RangeInEditor::Text(range.start..range.end),
            RangeInEditor::Inlay(highlight) => RangeInEditor::Inlay(highlight.clone()),
        }
    }
}

impl RangeInEditor {
    /// Whether a stretch holds a trigger point. Text holds its ends; an inlay's stretch holds those
    /// stretches of the same inlay that start and end before its own end.
    pub open spec fn holds(self, trigger_point: TriggerPoint) -> bool {
        match (self, trigger_point) {
            (RangeInEditor::Text(range), TriggerPoint::Text(point)) => {
                range.start.position <= point.position <= range.end.position
            },
            (RangeInEditor::Inlay(highlight), TriggerPoint::InlayHint(point, _, _)) => {
                &&& highlight.inlay == point.inlay
                &&& highlight.range.start <= point.range.start < highlight.range.end
                &&& highlight.range.start <= point.range.end < highlight.range.end
            },
            _ => false,
        }
    }

    /// The stretch of text that this is, if it is one.
    pub fn as_text_range(&self) -> (range: Option<Range<Anchor>>)
        ensures
            range == match *self {
                RangeInEditor::Text(range) => Some(range),
                RangeInEditor::Inlay(_) => None,
            },
    {
        match self {
            RangeInEditor::Text(range) => Some(range.start..range.end),
            RangeInEditor::Inlay(_) => None,
        }
    }

    /// Tells whether a stretch holds a trigger point.
    pub fn point_within_range(&self, trigger_point: &TriggerPoint) -> (result: bool)
        ensures
            result == self.holds(*trigger_point),
    {
        match (self, trigger_point) {
            (RangeInEditor::Text(range), TriggerPoint::Text(point)) => {
                range.start.position <= point.position && range.end.position >= point.position
            },
            (RangeInEditor::Inlay(highlight), TriggerPoint::InlayHint(point, _, _)) => {
                highlight.inlay == point.inlay && highlight.range.start <= point.range.start
                    && point.range.start < highlight.range.end && highlight.range.start
                    <= point.range.end && point.range.end < highlight.range.end
            },
            _ => false,
        }
    }
}

/// A place in a buffer.
#[derive(Debug)]
pub struct Location {
    pub buffer: u64,
    pub range: Range<TextAnchor>,
}

impl Clone for Location {
    fn clone(&self) -> (copy: Self)
        ensures
            copy == *self,
    {
        Location { buffer: self.buffer, range: self.range.start..self.range.end }
    }
}

/// A link from a place to its definition.
#[derive(Debug)]
pub struct LocationLink {
    pub origin: Option<Location>,
    pub target: Location,
}

impl Clone for LocationLink {
    fn clone(&self) -> (copy: Self)
        ensures
            copy == *self,
    {
        let origin = match &self.origin {
            Some(origin) => Some(origin.clone()),
            None => None,
        };
        LocationLink { origin, target: self.target.clone() }
    }
}

/// Where a hovered link leads.
#[derive(Debug)]
pub enum HoverLink {
    Url(String),
    File(ResolvedPath),
    Text(LocationLink),
    InlayHint(LspLocation, u64),
}

impl Clone for HoverLink {
    fn clone(&self) -> (copy: Self)
        ensures
            copy == *self,
    {
        match self {
            HoverLink::Url(url) => HoverLink::Url(url.clone()),
            HoverLink::File(path) => HoverLink::File(path.clone()),
            HoverLink::Text(link) => HoverLink::Text(link.clone()),
            HoverLink::InlayHint(location, server_id) => HoverLink::InlayHint(
                location.clone(),
                *server_id,
            ),
        }
    }
}

/// What to go to.
#[derive(Debug, Clone, Copy, PartialEq, Eq, Structural)]
pub enum GotoDefinitionKind {
    Symbol,
    Type,
}

/// What is underlined as a link.
#[derive(Debug)]
pub enum LinkHighlight {
    Range(RangeInEditor),
    /// The word around a position.
    SurroundingWord(Anchor),
}

/// The place in a buffer that a trigger point stands for.
#[derive(Debug, Clone, Copy, PartialEq, Eq, Structural)]
pub struct LinkPlace {
    pub buffer: u64,
    pub excerpt_id: u64,
    /// Byte offset in the buffer.
    pub offset: usize,
}

/// A search for the links at a trigger point, which runs while the editor waits.
#[derive(Debug)]
pub struct LinkSearch {
    pub trigger_point: TriggerPoint,
    pub preferred_kind: GotoDefinitionKind,
    pub place: LinkPlace,
    pub has_project: bool,
    pub has_provider: bool,
}

/// The links under the pointer, as far as they are known.
#[derive(Debug)]
pub struct HoveredLinkState {
    pub last_trigger_point: TriggerPoint,
    pub preferred_kind: GotoDefinitionKind,
    pub symbol_range: Option<RangeInEditor>,
    pub links: Vec<HoverLink>,
    /// The last search that was started.
    pub task: Option<LinkSearch>,
}

/// What the definition search at a trigger point looks for.
pub open spec fn spec_preferred_kind(
    trigger_point: TriggerPoint,
    shift_held: bool,
) -> GotoDefinitionKind {
    if trigger_point is Text && !shift_held {
        GotoDefinitionKind::Symbol
    } else {
        GotoDefinitionKind::Type
    }
}

impl HoveredLinkState {
    /// Whether the known links are of a given kind; a URL is of every kind.
    pub open spec fn is_kind(self, kind: GotoDefinitionKind) -> bool {
        self.preferred_kind == kind || self.links@.len() > 0 && self.links@[0] is Url
    }

    /// Whether what is known of an earlier trigger point holds for a new one.
    pub open spec fn answers(self, trigger_point: TriggerPoint, kind: GotoDefinitionKind) -> bool {
        &&& self.is_kind(kind)
        &&& {
            ||| self.last_trigger_point.same(trigger_point)
            ||| self.symbol_range matches Some(range) && range.holds(trigger_point)
        }
    }
}

/// Tells whether a link leads elsewhere than back to the position that it starts from.
pub open spec fn spec_leads_elsewhere(
    buffer: u64,
    position: TextAnchor,
    location: LocationLink,
) -> bool {
    let target = location.target;
    !(buffer == target.buffer && target.range.start.spec_le(position.spec_bias_right())
        && position.spec_le(target.range.end))
}

/// Tells whether a link leads elsewhere than back to the position that it starts from, as it does
/// when the cursor is upon the definition.
pub fn exclude_link_to_position(
    buffer: u64,
    current_position: &TextAnchor,
    location: &LocationLink,
) -> (result: bool)
    ensures
        result == spec_leads_elsewhere(buffer, *current_position, *location),
{
    !(buffer == location.target.buffer && location.target.range.start.le(
        &current_position.bias_right(),
    ) && current_position.le(&location.target.range.end))
}

/// How showing the links at a trigger point changes an editor, and whether it starts a search.
///
/// A pending rename, or a trigger point without a buffer, forgets the links. Links that answer the
/// trigger point are kept. Otherwise a search is started; links of another kind lose their underline
/// at once.
pub open spec fn shows_definition(
    shift_held: bool,
    before: Editor,
    trigger_point: TriggerPoint,
    place: Option<LinkPlace>,
    after: Editor,
    started: bool,
) -> bool {
    let kind = spec_preferred_kind(trigger_point, shift_held);
    if before.pending_rename || place is None {
        &&& !started
        &&& after == Editor { hovered_link_state: None, ..before }
    } else {
        let search = LinkSearch {
            trigger_point,
            preferred_kind: kind,
            place: place->0,
            has_project: before.has_project,
            has_provider: before.has_semantics_provider,
        };
        match before.hovered_link_state {
            Some(state) => if state.answers(trigger_point, kind) {
                &&& !started
                &&& after == before
            } else {
                &&& started
                &&& after == Editor {
                    hovered_link_state: Some(HoveredLinkState { task: Some(search), ..state }),
                    link_highlight: if state.is_kind(kind) {
                        before.link_highlight
                    } else {
                        None
                    },
                    ..before
                }
            },
            None => {
                &&& started
                &&& after == Editor { hovered_link_state: after.hovered_link_state, ..before }
                &&& after.hovered_link_state matches Some(state)
                &&& state.last_trigger_point == trigger_point
                &&& state.preferred_kind == kind
                &&& state.symbol_range is None
                &&& state.links@.len() == 0
                &&& state.task == Some(search)
            },
        }
    }
}

impl Editor {
    /// Forgets the hovered links and takes their underline away.
    pub fn hide_hovered_link(&mut self)
        ensures
            *final(self) == (Editor {
                hovered_link_state: None,
                link_highlight: None,
                ..*old(self)
            }),
    {
        self.hovered_link_state = None;
        self.link_highlight = None;
    }
}

/// Shows the links at a trigger point, and returns whether a search for them was started. `place` is
/// the place in a buffer that the trigger point stands for, if there is one.
pub fn show_link_definition(
    shift_held: bool,
    editor: &mut Editor,
    trigger_point: TriggerPoint,
    place: Option<LinkPlace>,
) -> (started: bool)
    ensures
        shows_definition(shift_held, *old(editor), trigger_point, place, *final(editor), started),
{
    let preferred_kind = match &trigger_point {
        TriggerPoint::Text(_) => if shift_held {
            GotoDefinitionKind::Type
        } else {
            GotoDefinitionKind::Symbol
        },
        TriggerPoint::InlayHint(_, _, _) => GotoDefinitionKind::Type,
    };
    let existing = editor.hovered_link_state.take();
    if editor.pending_rename {
        return false;
    }
    let place = match place {
        Some(place) => place,
        None => {
            return false;
        },
    };
    let (mut state, is_cached) = match existing {
        Some(state) => (state, true),
        None => (
            HoveredLinkState {
                last_trigger_point: trigger_point.clone(),
                preferred_kind,
                symbol_range: None,
                links: Vec::new(),
                task: None,
            },
            false,
        ),
    };
    let first_is_url = state.links.len() > 0 && match &state.links[0] {
        HoverLink::Url(_) => true,
        _ => false,
    };
    let same_kind = state.preferred_kind == preferred_kind || first_is_url;
    if same_kind {
        let within = match &state.symbol_range {
            Some(range) => range.point_within_range(&trigger_point),
            None => false,
        };
        if (is_cached && state.last_trigger_point == trigger_point) || within {
            editor.hovered_link_state = Some(state);
            return false;
        }
    } else {
        editor.hide_hovered_link();
    }
    state.task = Some(
        LinkSearch {
            trigger_point,
            preferred_kind,
            place,
            has_project: editor.has_project,
            has_provider: editor.has_semantics_provider,
        },
    );
    editor.hovered_link_state = Some(state);
    true
}

/// What a search found: the stretch that the links are for, if it is known, and the links.
#[derive(Debug)]
pub struct LinkResult {
    pub symbol_range: Option<RangeInEditor>,
    pub links: Vec<HoverLink>,
}

/// What a search for links needs next.
#[derive(Debug)]
pub enum LinkStep {
    /// A URL was found: ask for the anchors of its range within the excerpt.
    AnchorUrl { range: Range<TextAnchor>, url: String },
    /// Ask for the file that the text names.
    FindFile,
    /// Ask the provider for definitions.
    FindDefinitions,
    /// The search is over.
    Done(Option<LinkResult>),
}

/// A definition that a provider found, with the anchors that its origin has within the excerpt of
/// the trigger point. A definition without an origin, or with one that lies outside, has none.
#[derive(Debug)]
pub struct Definition {
    pub link: LocationLink,
    pub origin_range: Option<Range<Anchor>>,
}

/// The anchors of a stretch of text, as a stretch of the editor.
pub open spec fn text_range(range: Option<Range<Anchor>>) -> Option<RangeInEditor> {
    match range {
        Some(range) => Some(RangeInEditor::Text(range)),
        None => None,
    }
}

/// The first origin among definitions.
pub open spec fn first_origin(definitions: Seq<Definition>) -> Option<Range<Anchor>>
    decreases definitions.len(),
{
    if definitions.len() == 0 {
        None
    } else if definitions[0].origin_range is Some {
        definitions[0].origin_range
    } else {
        first_origin(definitions.drop_first())
    }
}

impl LinkSearch {
    /// A search in text starts where the text can be scanned.
    pub open spec fn can_scan(self, buffer: Seq<char>) -> bool {
        self.trigger_point is Text ==> is_boundary(buffer, self.place.offset as int)
            && token_start_in_limit(buffer, index_of(buffer, self.place.offset as int))
    }

    /// Takes the first step of a search. An inlay hint brings its link along. In text, a URL goes
    /// before the name of a file.
    pub fn begin(&self, buffer: &BufferSnapshot) -> (step: LinkStep)
        requires
            self.can_scan(buffer@),
        ensures
            match self.trigger_point {
                TriggerPoint::InlayHint(highlight, location, server_id) => {
                    &&& step matches LinkStep::Done(Some(result))
                    &&& result.symbol_range == Some(RangeInEditor::Inlay(highlight))
                    &&& result.links@ == seq![HoverLink::InlayHint(location, server_id)]
                },
                TriggerPoint::Text(_) => match spec_find_url(
                    buffer@,
                    index_of(buffer@, self.place.offset as int),
                ) {
                    Some((start, end, text)) => {
                        &&& step matches LinkStep::AnchorUrl { range, url }
                        &&& range == spec_anchored(start as usize, end as usize)
                        &&& url@ == text
                    },
                    None => step is FindFile,
                },
            },
    {
        match &self.trigger_point {
            TriggerPoint::InlayHint(highlight, location, server_id) => {
                let mut links: Vec<HoverLink> = Vec::new();
                links.push(HoverLink::InlayHint(location.clone(), *server_id));
                LinkStep::Done(
                    Some(
                        LinkResult {
                            symbol_range: Some(RangeInEditor::Inlay(highlight.clone())),
                            links,
                        },
                    ),
                )
            },
            TriggerPoint::Text(_) => match find_url(buffer, self.place.offset) {
                Some((range, url)) => LinkStep::AnchorUrl { range, url },
                None => LinkStep::FindFile,
            },
        }
    }

    /// Ends a search with a URL, given the anchors of its range.
    pub fn url_anchored(url: String, range: Option<Range<Anchor>>) -> (result: LinkResult)
        ensures
            result.symbol_range == text_range(range),
            result.links@ == seq![HoverLink::Url(url)],
    {
        let mut links: Vec<HoverLink> = Vec::new();
        links.push(HoverLink::Url(url));
        let symbol_range = match range {
            Some(range) => Some(RangeInEditor::Text(range)),
            None => None,
        };
        LinkResult { symbol_range, links }
    }

    /// Goes on once it is known whether the text names a file, and with which anchors. Definitions are
    /// looked for only where there is no file and there is a provider.
    pub fn file_searched(&self, found: Option<(Option<Range<Anchor>>, ResolvedPath)>) -> (step:
        LinkStep)
        ensures
            match found {
                Some((range, path)) => {
                    &&& step matches LinkStep::Done(Some(result))
                    &&& result.symbol_range == text_range(range)
                    &&& result.links@ == seq![HoverLink::File(path)]
                },
                None => step == if self.has_provider {
                    LinkStep::FindDefinitions
                } else {
                    LinkStep::Done(None)
                },
            },
    {
        match found {
            Some((range, path)) => {
                let mut links: Vec<HoverLink> = Vec::new();
                links.push(HoverLink::File(path));
                let symbol_range = match range {
                    Some(range) => Some(RangeInEditor::Text(range)),
                    None => None,
                };
                LinkStep::Done(Some(LinkResult { symbol_range, links }))
            },
            None => if self.has_provider {
                LinkStep::FindDefinitions
            } else {
                LinkStep::Done(None)
            },
        }
    }

    /// Ends a search with what the provider answered. The stretch is that of the first definition
    /// whose origin is known.
    pub fn definitions_found(definitions: Option<Vec<Definition>>) -> (result: Option<LinkResult>)
        ensures
            match definitions {
                Some(definitions) => {
                    &&& result matches Some(result)
                    &&& result.symbol_range == text_range(first_origin(definitions@))
                    &&& result.links@ == definitions@.map_values(
                        |definition: Definition| HoverLink::Text(definition.link),
                    )
                },
                None => result is None,
            },
    {
        let definitions = match definitions {
            Some(definitions) => definitions,
            None => {
                return None;
            },
        };
        let mut symbol_range: Option<RangeInEditor> = None;
        let mut links: Vec<HoverLink> = Vec::new();
        let mut i: usize = 0;
        assert(definitions@.skip(0) =~= definitions@);
        while i < definitions.len()
            invariant
                i <= definitions@.len(),
                links@ == definitions@.take(i as int).map_values(
                    |definition: Definition| HoverLink::Text(definition.link),
                ),
                text_range(first_origin(definitions@)) == if symbol_range is Some {
                    symbol_range
                } else {
                    text_range(first_origin(definitions@.skip(i as int)))
                },
            decreases definitions@.len() - i,
        {
            let definition = &definitions[i];
            proof {
                let rest = definitions@.skip(i as int);
                assert(rest[0] == definition);
                assert(rest.drop_first() =~= definitions@.skip(i + 1));
                assert(definitions@.take(i + 1) =~= definitions@.take(i as int).push(*definition));
            }
            if symbol_range.is_none() {
                if let Some(range) = &definition.origin_range {
                    symbol_range = Some(RangeInEditor::Text(range.start..range.end));
                }
            }
            links.push(HoverLink::Text(definition.link.clone()));
            assert(links@ =~= definitions@.take(i + 1).map_values(
                |definition: Definition| HoverLink::Text(definition.link),
            ));
            i = i + 1;
        }
        assert(definitions@.take(i as int) =~= definitions@);
        assert(definitions@.skip(i as int) =~= Seq::<Definition>::empty());
        Some(LinkResult { symbol_range, links })
    }
}

/// What is underlined once links are known: their stretch, or else what the trigger point is over,
/// provided that there is a stretch or a link at all.
pub open spec fn spec_underline(trigger_point: TriggerPoint, result: LinkResult) -> Option<
    LinkHighlight,
> {
    match result.symbol_range {
        Some(range) => Some(LinkHighlight::Range(range)),
        None => if result.links@.len() == 0 {
            None
        } else {
            match trigger_point {
                TriggerPoint::Text(anchor) => Some(LinkHighlight::SurroundingWord(anchor)),
                TriggerPoint::InlayHint(highlight, _, _) => Some(
                    LinkHighlight::Range(RangeInEditor::Inlay(highlight)),
                ),
            }
        },
    }
}

impl Editor {
    /// Takes in what a search found. A search that found nothing forgets the links; so does one whose
    /// state is gone.
    pub fn finish_link_search(
        &mut self,
        trigger_point: &TriggerPoint,
        preferred_kind: GotoDefinitionKind,
        result: Option<LinkResult>,
    )
        ensures
            match (old(self).hovered_link_state, result) {
                (Some(state), Some(result)) => *final(self) == (Editor {
                    hovered_link_state: Some(
                        HoveredLinkState {
                            preferred_kind,
                            symbol_range: result.symbol_range,
                            links: result.links,
                            ..state
                        },
                    ),
                    link_highlight: spec_underline(*trigger_point, result),
                    ..*old(self)
                }),
                _ => *final(self) == (Editor {
                    hovered_link_state: None,
                    link_highlight: None,
                    ..*old(self)
                }),
            },
    {
        self.link_highlight = None;
        let mut state = match self.hovered_link_state.take() {
            Some(state) => state,
            None => {
                self.hide_hovered_link();
                return ;
            },
        };
        match result {
            Some(result) => {
                let highlight = match &result.symbol_range {
                    Some(range) => Some(LinkHighlight::Range(range.clone())),
                    None => if result.links.len() == 0 {
                        None
                    } else {
                        match trigger_point {
                            TriggerPoint::Text(anchor) => Some(
                                LinkHighlight::SurroundingWord(*anchor),
                            ),
                            TriggerPoint::InlayHint(highlight, _, _) => Some(
                                LinkHighlight::Range(RangeInEditor::Inlay(highlight.clone())),
                            ),
                        }
                    },
                };
                state.preferred_kind = preferred_kind;
                state.symbol_range = result.symbol_range;
                state.links = result.links;
                self.hovered_link_state = Some(state);
                self.link_highlight = highlight;
            },
            None => {
                self.hide_hovered_link();
            },
        }
    }
}

/// The modifier keys held down.
#[derive(Debug, Clone, Copy, PartialEq, Eq, Structural)]
pub struct Modifiers {
    pub shift: bool,
    pub alt: bool,
}

/// What a move of the pointer asks for.
#[derive(Debug, Clone, Copy, PartialEq, Eq, Structural)]
pub enum HoverAction {
    /// Nothing: links were hidden.
    Hidden,
    /// Show the definition at the text under the pointer.
    ShowDefinition { shift_held: bool },
    /// Look at the inlay under the pointer.
    UpdateInlayPoints { secondary_held: bool, shift_held: bool },
}

/// What a click on a link asks for.
#[derive(Debug)]
pub enum ClickReveal {
    /// Nothing is navigated to. The editor is focused first where asked.
    NotNavigated { focus: bool },
    /// Follow the links, then end the selection. The editor is focused first where asked.
    FollowLinks { focus: bool, links: Vec<HoverLink>, split: bool },
    /// Select the clicked position, and go to its definition if a kind is given.
    SelectAndGo { definition: Option<GotoDefinitionKind>, split: bool },
}

/// The links to follow from a position: all but those that lead back to it.
pub open spec fn spec_links_to_follow(
    links: Seq<HoverLink>,
    buffer: u64,
    position: TextAnchor,
) -> Seq<HoverLink> {
    links.filter(
        |link: HoverLink|
            link matches HoverLink::Text(location) ==> spec_leads_elsewhere(
                buffer,
                position,
                location,
            ),
    )
}

/// Keeps the links that do not lead back to a position.
pub fn links_to_follow(
    links: &Vec<HoverLink>,
    buffer: u64,
    position: &TextAnchor,
) -> (kept: Vec<HoverLink>)
    ensures
        kept@ == spec_links_to_follow(links@, buffer, *position),
{
    let ghost keep = |link: HoverLink|
        link matches HoverLink::Text(location) ==> spec_leads_elsewhere(
            buffer,
            *position,
            location,
        );
    let mut kept: Vec<HoverLink> = Vec::new();
    let mut i: usize = 0;
    proof {
        reveal(Seq::filter);
        assert(links@.take(0) =~= Seq::<HoverLink>::empty());
    }
    while i < links.len()
        invariant
            i <= links@.len(),
            keep == |link: HoverLink|
                link matches HoverLink::Text(location) ==> spec_leads_elsewhere(
                    buffer,
                    *position,
                    location,
                ),
            kept@ == links@.take(i as int).filter(keep),
        decreases links@.len() - i,
    {
        proof {
            reveal(Seq::filter);
            assert(links@.take(i + 1).drop_last() =~= links@.take(i as int));
        }
        let link = &links[i];
        let keeps = match link {
            HoverLink::Text(location) => exclude_link_to_position(buffer, position, location),
            _ => true,
        };
        if keeps {
            kept.push(link.clone());
        }
        i = i + 1;
    }
    assert(links@.take(i as int) =~= links@);
    kept
}

/// How far a request to go to a definition got.
#[derive(Debug, Clone, Copy, PartialEq, Eq, Structural)]
pub enum Navigated {
    Yes,
    No,
}

/// What to do where a definition was not found.
#[derive(Debug, Clone, Copy, PartialEq, Eq, Structural)]
pub enum GoToDefinitionFallback {
    Nothing,
    FindAllReferences,
}

/// Tells whether to look for all references after a click, given how far the click got, if it did
/// not fail.
pub fn find_references_after_click(
    revealed: Option<Navigated>,
    fallback: GoToDefinitionFallback,
) -> (result: bool)
    ensures
        result == (revealed != Some(Navigated::Yes) && fallback
            == GoToDefinitionFallback::FindAllReferences),
{
    let definition_revealed = match revealed {
        Some(revealed) => revealed,
        None => Navigated::No,
    };
    if definition_revealed == Navigated::Yes {
        return false;
    }
    match fallback {
        GoToDefinitionFallback::Nothing => false,
        GoToDefinitionFallback::FindAllReferences => true,
    }
}

/// What scrolls when a hover is to be scrolled.
#[derive(Debug, Clone, Copy, PartialEq, Eq, Structural)]
pub enum ScrollTarget {
    /// The popover of this index.
    Popover(usize),
    ContextMenu,
    Nothing,
}

/// The first of given stretches, from an index on, that holds a position.
pub open spec fn first_holding(ranges: Seq<RangeInEditor>, from: int, selection: Anchor) -> Option<
    int,
>
    decreases ranges.len() - from,
{
    if from < 0 || from >= ranges.len() {
        None
    } else if ranges[from].holds(TriggerPoint::Text(selection)) {
        Some(from)
    } else {
        first_holding(ranges, from + 1, selection)
    }
}

impl Editor {
    /// Decides what a move of the pointer asks for. Links are shown only while the modifier for them is
    /// held and nothing is being selected; otherwise they are hidden. Where the pointer is not over
    /// text, it may be over an inlay.
    pub fn update_hovered_link(
        &mut self,
        hovered_link_modifier: bool,
        has_pending_selection: bool,
        point_is_valid: bool,
        modifiers: Modifiers,
    ) -> (action: HoverAction)
        ensures
            if !hovered_link_modifier || has_pending_selection {
                &&& action == HoverAction::Hidden
                &&& *final(self) == (Editor {
                    hovered_link_state: None,
                    link_highlight: None,
                    ..*old(self)
                })
            } else {
                &&& action == if point_is_valid {
                    HoverAction::ShowDefinition { shift_held: modifiers.shift }
                } else {
                    HoverAction::UpdateInlayPoints {
                        secondary_held: true,
                        shift_held: modifiers.shift,
                    }
                }
                &&& *final(self) == *old(self)
            },
    {
        if !hovered_link_modifier || has_pending_selection {
            self.hide_hovered_link();
            return HoverAction::Hidden;
        }
        if point_is_valid {
            HoverAction::ShowDefinition { shift_held: modifiers.shift }
        } else {
            HoverAction::UpdateInlayPoints {
                secondary_held: hovered_link_modifier,
                shift_held: modifiers.shift,
            }
        }
    }

    /// Decides what a click with the link modifier asks for. Known links are followed, but for those
    /// that lead back to the clicked position; `clicked` is that position, if it lies in a buffer.
    /// Without known links, the definition at the clicked position is looked up.
    pub fn cmd_click_reveal_task(
        &mut self,
        is_focused: bool,
        clicked: Option<(u64, TextAnchor)>,
        point_is_valid: bool,
        modifiers: Modifiers,
    ) -> (reveal: ClickReveal)
        ensures
            *final(self) == (Editor {
                hovered_link_state: None,
                link_highlight: if old(self).hovered_link_state is Some {
                    None
                } else {
                    old(self).link_highlight
                },
                ..*old(self)
            }),
            match old(self).hovered_link_state {
                Some(state) if state.links@.len() > 0 => match clicked {
                    Some((buffer, position)) => {
                        &&& reveal matches ClickReveal::FollowLinks { focus, links, split }
                        &&& focus == !is_focused
                        &&& links@ == spec_links_to_follow(state.links@, buffer, position)
                        &&& split == modifiers.alt
                    },
                    None => {
                        &&& reveal matches ClickReveal::NotNavigated { focus }
                        &&& focus == !is_focused
                    },
                },
                _ => {
                    &&& reveal matches ClickReveal::SelectAndGo { definition, split }
                    &&& definition == if !point_is_valid {
                        None
                    } else if modifiers.shift {
                        Some(GotoDefinitionKind::Type)
                    } else {
                        Some(GotoDefinitionKind::Symbol)
                    }
                    &&& split == modifiers.alt
                },
            },
    {
        if let Some(state) = self.hovered_link_state.take() {
            self.hide_hovered_link();
            if state.links.len() > 0 {
                let focus = !is_focused;
                return match clicked {
                    Some((buffer, position)) => {
                        let links = links_to_follow(&state.links, buffer, &position);
                        ClickReveal::FollowLinks { focus, links, split: modifiers.alt }
                    },
                    None => ClickReveal::NotNavigated { focus },
                };
            }
        }
        let definition = if point_is_valid {
            if modifiers.shift {
                Some(GotoDefinitionKind::Type)
            } else {
                Some(GotoDefinitionKind::Symbol)
            }
        } else {
            None
        };
        ClickReveal::SelectAndGo { definition, split: modifiers.alt }
    }

    /// Decides what scrolls when a hover is to be scrolled: the first popover whose stretch holds the
    /// newest selection, or else an open context menu.
    pub fn scroll_hover(
        &self,
        popovers: &Vec<RangeInEditor>,
        selection: Anchor,
        context_menu_open: bool,
    ) -> (target: ScrollTarget)
        ensures
            match first_holding(popovers@, 0, selection) {
                Some(i) => target == ScrollTarget::Popover(i as usize) && 0 <= i < popovers@.len(),
                None => target == if context_menu_open {
                    ScrollTarget::ContextMenu
                } else {
                    ScrollTarget::Nothing
                },
            },
    {
        let point = TriggerPoint::Text(selection);
        let mut i: usize = 0;
        while i < popovers.len()
            invariant
                i <= popovers@.len(),
                point == TriggerPoint::Text(selection),
                first_holding(popovers@, 0, selection) == first_holding(
                    popovers@,
                    i as int,
                    selection,
                ),
            decreases popovers@.len() - i,
        {
            if popovers[i].point_within_range(&point) {
                return ScrollTarget::Popover(i);
            }
            i = i + 1;
        }
        if context_menu_open {
            ScrollTarget::ContextMenu
        } else {
            ScrollTarget::Nothing
        }
    }
}

/// Asking again for the links at the same trigger point, of the same kind, changes nothing and
/// starts no second search.
pub proof fn law_showing_again_changes_nothing(
    shift_held: bool,
    before: Editor,
    trigger_point: TriggerPoint,
    place: LinkPlace,
    shown: Editor,
    started: bool,
    shown_again: Editor,
    started_again: bool,
)
    requires
        before.hovered_link_state is None,
        shows_definition(shift_held, before, trigger_point, Some(place), shown, started),
        shows_definition(
            shift_held,
            shown,
            trigger_point,
            Some(place),
            shown_again,
            started_again,
        ),
    ensures
        !started_again,
        shown_again == shown,
{
}

/// Links that a search found for a stretch are not searched for again while the pointer stays within
/// that stretch.
pub proof fn law_known_links_are_not_searched_again(
    shift_held: bool,
    searched: Editor,
    result: LinkResult,
    trigger_point: TriggerPoint,
    place: LinkPlace,
    shown: Editor,
    started: bool,
)
    requires
        !searched.pending_rename,
        searched.hovered_link_state matches Some(state) && {
            &&& state.preferred_kind == spec_preferred_kind(trigger_point, shift_held)
            &&& state.symbol_range == result.symbol_range
            &&& state.links == result.links
        },
        result.symbol_range matches Some(range) && range.holds(trigger_point),
        shows_definition(shift_held, searched, trigger_point, Some(place), shown, started),
    ensures
        !started,
        shown == searched,
{
}

/// None of the links that are followed leads back to the clicked position, and every link that leads
/// elsewhere is followed.
pub proof fn law_links_back_are_not_followed(
    links: Seq<HoverLink>,
    buffer: u64,
    position: TextAnchor,
    link: HoverLink,
)
    ensures
        spec_links_to_follow(links, buffer, position).contains(link) <==> links.contains(link) && (
        link matches HoverLink::Text(location) ==> spec_leads_elsewhere(
            buffer,
            position,
            location,
        )),
{
    let keep = |link: HoverLink|
        link matches HoverLink::Text(location) ==> spec_leads_elsewhere(
            buffer,
            position,
            location,
        );
    lemma_filter_contains(links, keep, link);
}

proof fn lemma_filter_contains(
    links: Seq<HoverLink>,
    keep: spec_fn(HoverLink) -> bool,
    link: HoverLink,
)
    ensures
        links.filter(keep).contains(link) <==> links.contains(link) && keep(link),
    decreases links.len(),
{
    reveal(Seq::filter);
    if links.len() > 0 {
        let before = links.drop_last();
        lemma_filter_contains(before, keep, link);
        assert(links =~= before.push(links.last()));
        assert(links.contains(link) <==> before.contains(link) || links.last() == link) by {
            if links.contains(link) {
                let i = choose|i: int| 0 <= i < links.len() && links[i] == link;
                if i < before.len() {
                    assert(before[i] == link);
                }
            }
            if before.contains(link) {
                let i = choose|i: int| 0 <= i < before.len() && before[i] == link;
                assert(links[i] == link);
            }
            assert(links[links.len() - 1] == links.last());
        }
        let kept = before.filter(keep);
        if keep(links.last()) {
            let all = links.filter(keep);
            assert(all =~= kept.push(links.last()));
            if kept.contains(link) {
                let i = choose|i: int| 0 <= i < kept.len() && kept[i] == link;
                assert(all[i] == link);
            }
            if all.contains(link) {
                let i = choose|i: int| 0 <= i < all.len() && all[i] == link;
                if i < kept.len() {
                    assert(kept[i] == link);
                }
            }
            assert(all[all.len() - 1] == links.last());
        }
    }
}

} // verus!
