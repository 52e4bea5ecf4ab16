//! Inlay hints: which of them an editor shows, and when it asks for new ones.

use std::collections::{HashMap, HashSet};
use std::ops::ControlFlow;
use vstd::prelude::*;

use crate::anchor::Anchor;
use crate::clock::{spec_changed_since, Global};
use crate::collections::{MapKey, VecMap, VecSet};
use crate::editor::Editor;
use crate::hover_links::InlayId;

verus! {

broadcast use vstd::std_specs::hash::group_hash_axioms;

/// What an inlay hint tells about.
#[derive(Debug, Clone, Copy, PartialEq, Eq, Structural)]
pub enum InlayHintKind {
    Type,
    Parameter,
}

/// A set of hint kinds. Some hints are of no kind.
#[derive(Debug, Clone, Copy, PartialEq, Eq, Structural)]
pub struct HintKinds {
    pub type_hints: bool,
    pub parameter_hints: bool,
    pub other_hints: bool,
}

impl HintKinds {
    /// Whether a kind is in the set.
    pub open spec fn has(self, kind: Option<InlayHintKind>) -> bool {
        match kind {
            Some(InlayHintKind::Type) => self.type_hints,
            Some(InlayHintKind::Parameter) => self.parameter_hints,
            None => self.other_hints,
        }
    }

    /// Tells whether a kind is in the set.
    pub fn contains(&self, kind: Option<InlayHintKind>) -> (result: bool)
        ensures
            result == self.has(kind),
    {
        match kind {
            Some(InlayHintKind::Type) => self.type_hints,
            Some(InlayHintKind::Parameter) => self.parameter_hints,
            None => self.other_hints,
        }
    }
}

/// What the user wants of inlay hints.
#[derive(Debug, Clone, Copy, PartialEq, Eq, Structural)]
pub struct InlayHintSettings {
    pub enabled: bool,
    /// The kinds of hints to show.
    pub hint_kinds: HintKinds,
    /// How long to wait after an edit, in milliseconds; zero stands for not at all.
    pub edit_debounce_ms: u64,
    /// How long to wait after scrolling, in milliseconds; zero stands for not at all.
    pub scroll_debounce_ms: u64,
}

/// The wait that a number of milliseconds stands for.
pub open spec fn spec_debounce_value(debounce_ms: u64) -> Option<u64> {
    if debounce_ms > 0 {
        Some(debounce_ms)
    } else {
        None
    }
}

/// The wait that a number of milliseconds stands for, if it is a wait at all.
pub fn debounce_value(debounce_ms: u64) -> (debounce: Option<u64>)
    ensures
        debounce == spec_debounce_value(debounce_ms),
{
    if debounce_ms > 0 {
        Some(debounce_ms)
    } else {
        None
    }
}

impl View for InlayId {
    type V = InlayId;

    open spec fn view(&self) -> InlayId {
        *self
    }
}

impl MapKey for InlayId {
    fn same_key(&self, other: &Self) -> (result: bool) {
        *self == *other
    }
}

/// An inlay that the editor shows.
#[derive(Debug, Clone, Copy, PartialEq, Eq, Structural)]
pub struct Inlay {
    pub id: InlayId,
    pub position: Anchor,
    /// Length of its text in bytes.
    pub text_len: usize,
}

/// A change of the inlays that the editor shows.
#[derive(Debug)]
pub struct InlaySplice {
    pub to_remove: Vec<InlayId>,
    /// The hints to insert, each at a position.
    pub to_insert: Vec<(InlayId, Anchor)>,
}

impl InlaySplice {
    /// What is removed and what is inserted.
    pub open spec fn parts(self) -> (Seq<InlayId>, Seq<(InlayId, Anchor)>) {
        (self.to_remove@, self.to_insert@)
    }
}

/// What a change of inlays says, as plain values.
pub open spec fn splice_parts(splice: Option<InlaySplice>) -> Option<
    (Seq<InlayId>, Seq<(InlayId, Anchor)>),
> {
    match splice {
        Some(splice) => Some(splice.parts()),
        None => None,
    }
}

/// A change that removes inlays only.
pub open spec fn removal(ids: Seq<InlayId>) -> (Seq<InlayId>, Seq<(InlayId, Anchor)>) {
    (ids, Seq::empty())
}

/// Rows of a buffer for which hints are asked at once: the first row, and the row behind the last.
#[derive(Debug, Clone, Copy, PartialEq, Eq, Structural)]
pub struct RowRange {
    pub start: u32,
    pub end: u32,
}

impl View for RowRange {
    type V = RowRange;

    open spec fn view(&self) -> RowRange {
        *self
    }
}

impl MapKey for RowRange {
    fn same_key(&self, other: &Self) -> (result: bool) {
        *self == *other
    }
}

impl MapKey for Vec<RowRange> {
    fn same_key(&self, other: &Self) -> (result: bool) {
        if self.len() != other.len() {
            return false;
        }
        let mut i: usize = 0;
        while i < self.len()
            invariant
                i <= self@.len() == other@.len(),
                forall|j: int| 0 <= j < i ==> self@[j] == other@[j],
            decreases self@.len() - i,
        {
            if self[i] != other[i] {
                return false;
            }
            i = i + 1;
        }
        assert(self@ =~= other@);
        true
    }
}

/// How much of the hints known so far an update invalidates.
#[derive(Debug, Clone, Copy, PartialEq, Eq, Structural)]
pub enum InvalidationStrategy {
    /// Nothing.
    Keep,
    /// All of them, since a buffer was edited.
    BufferEdited,
    /// All of them, since a language server asked for it.
    RefreshRequested(u64),
}

impl InvalidationStrategy {
    /// Whether hints are invalidated.
    pub open spec fn invalidates(self) -> bool {
        self != InvalidationStrategy::Keep
    }

    /// Tells whether hints are invalidated.
    pub fn should_invalidate(&self) -> (result: bool)
        ensures
            result == self.invalidates(),
    {
        match self {
            InvalidationStrategy::Keep => false,
            InvalidationStrategy::BufferEdited => true,
            InvalidationStrategy::RefreshRequested(_) => true,
        }
    }
}

/// A request for the hints of some rows of a buffer.
#[derive(Debug, Clone, Copy, PartialEq, Eq, Structural)]
pub struct RefreshTask {
    /// Tells the request from others for the same rows.
    pub id: u64,
    pub invalidate_cache: InvalidationStrategy,
    pub ignore_previous_fetches: bool,
    /// How long to wait first, in milliseconds.
    pub debounce: Option<u64>,
}

/// The rows of a buffer whose hints were fetched for a version of it.
#[derive(Debug)]
pub struct FetchedChunks {
    pub version: Global,
    pub chunks: VecSet<RowRange>,
}

impl View for FetchedChunks {
    type V = (Seq<u32>, Set<RowRange>);

    open spec fn view(&self) -> (Seq<u32>, Set<RowRange>) {
        (self.version@, self.chunks@)
    }
}

/// The requests for a buffer, by the rows that they are for.
pub type BufferTasks = VecMap<Vec<RowRange>, Vec<RefreshTask>>;

/// The requests for a buffer, as plain values.
pub open spec fn tasks_view(tasks: BufferTasks) -> Map<Seq<RowRange>, Seq<RefreshTask>> {
    tasks@.map_values(|list: Vec<RefreshTask>| list@)
}

/// What an editor knows of its inlay hints.
#[derive(Debug)]
pub struct LspInlayHintData {
    enabled: bool,
    modifiers_override: bool,
    enabled_in_settings: bool,
    allowed_hint_kinds: HintKinds,
    invalidate_debounce: Option<u64>,
    append_debounce: Option<u64>,
    hint_refresh_tasks: HashMap<u64, BufferTasks>,
    hint_chunk_fetched: HashMap<u64, FetchedChunks>,
    invalidate_hints_for_buffers: HashSet<u64>,
    added_hints: VecMap<InlayId, Option<InlayHintKind>>,
}

/// What an editor knows of its inlay hints, as plain values.
#[verifier::ext_equal]
pub struct HintData {
    /// Whether hints are shown, as far as no modifier key reverses it.
    pub enabled: bool,
    /// Whether a modifier key reverses what is shown.
    pub modifiers_override: bool,
    pub enabled_in_settings: bool,
    pub allowed_hint_kinds: HintKinds,
    /// How long to wait before hints are asked for anew, in milliseconds.
    pub invalidate_debounce: Option<u64>,
    /// How long to wait before more hints are asked for, in milliseconds.
    pub append_debounce: Option<u64>,
    /// The requests made, by buffer and by rows.
    pub hint_refresh_tasks: Map<u64, Map<Seq<RowRange>, Seq<RefreshTask>>>,
    /// The rows fetched, by buffer, and the version of the buffer that they were fetched for.
    pub hint_chunk_fetched: Map<u64, (Seq<u32>, Set<RowRange>)>,
    /// The buffers whose shown hints are to be removed.
    pub invalidate_hints_for_buffers: Set<u64>,
    /// The hints known to the editor, with their kinds.
    pub added_hints: Map<InlayId, Option<InlayHintKind>>,
}

impl View for LspInlayHintData {
    type V = HintData;

    closed spec fn view(&self) -> HintData {
        HintData {
            enabled: self.enabled,
            modifiers_override: self.modifiers_override,
            enabled_in_settings: self.enabled_in_settings,
            allowed_hint_kinds: self.allowed_hint_kinds,
            invalidate_debounce: self.invalidate_debounce,
            append_debounce: self.append_debounce,
            hint_refresh_tasks: self.hint_refresh_tasks@.map_values(
                |tasks: BufferTasks| tasks_view(tasks),
            ),
            hint_chunk_fetched: self.hint_chunk_fetched@.map_values(
                |fetched: FetchedChunks| fetched@,
            ),
            invalidate_hints_for_buffers: self.invalidate_hints_for_buffers@,
            added_hints: self.added_hints@,
        }
    }
}

/// The identities of inlays.
pub open spec fn ids(inlays: Seq<Inlay>) -> Seq<InlayId> {
    inlays.map_values(|inlay: Inlay| inlay.id)
}

/// A list if it is not empty.
pub open spec fn unless_empty(list: Seq<InlayId>) -> Option<Seq<InlayId>> {
    if list.len() == 0 {
        None
    } else {
        Some(list)
    }
}

impl HintData {
    /// The state before anything is known of any hint.
    pub open spec fn initial(settings: InlayHintSettings) -> HintData {
        HintData {
            enabled: settings.enabled,
            modifiers_override: false,
            enabled_in_settings: settings.enabled,
            allowed_hint_kinds: settings.hint_kinds,
            invalidate_debounce: spec_debounce_value(settings.edit_debounce_ms),
            append_debounce: spec_debounce_value(settings.scroll_debounce_ms),
            hint_refresh_tasks: Map::empty(),
            hint_chunk_fetched: Map::empty(),
            invalidate_hints_for_buffers: Set::empty(),
            added_hints: Map::empty(),
        }
    }

    /// The state once all the hints are forgotten.
    pub open spec fn cleared(self) -> HintData {
        HintData {
            hint_refresh_tasks: Map::empty(),
            hint_chunk_fetched: Map::empty(),
            invalidate_hints_for_buffers: Set::empty(),
            added_hints: Map::empty(),
            ..self
        }
    }

    /// Whether hints are shown now.
    pub open spec fn shown(self) -> bool {
        self.enabled != self.modifiers_override
    }

    /// The state after a modifier key is pressed or released, and whether hints are shown then, if
    /// that changed.
    pub open spec fn modifiers_changed(self, new_override: bool) -> (HintData, Option<bool>) {
        if self.modifiers_override == new_override {
            (self, None)
        } else {
            let next = HintData { modifiers_override: new_override, ..self };
            if next.shown() {
                (next, Some(true))
            } else {
                (next.cleared(), Some(false))
            }
        }
    }

    /// The state after hints are switched on or off, and whether that changed anything.
    pub open spec fn toggled(self, enabled: bool) -> (HintData, bool) {
        if self.enabled == enabled {
            (self, false)
        } else {
            let next = HintData { enabled, modifiers_override: false, ..self };
            if enabled {
                (next, true)
            } else {
                (next.cleared(), true)
            }
        }
    }

    /// The known hints among given inlays that are of no allowed kind.
    pub open spec fn disallowed(self, inlays: Seq<Inlay>) -> Seq<InlayId> {
        ids(
            inlays.filter(
                |inlay: Inlay|
                    self.added_hints.contains_key(inlay.id) && !self.allowed_hint_kinds.has(
                        self.added_hints[inlay.id],
                    ),
            ),
        )
    }

    /// The state under changed settings while some hints are visible, whether hints are to be
    /// refreshed, and which inlays are to be removed.
    ///
    /// Only a change of the setting itself switches hints on or off, so that other settings leave alone
    /// what the user toggled.
    pub open spec fn settings_updated(
        self,
        settings: InlayHintSettings,
        visible: Seq<Inlay>,
    ) -> (HintData, bool, Option<Seq<InlayId>>) {
        let switched = settings.enabled != self.enabled_in_settings;
        let next = HintData {
            enabled: if switched {
                settings.enabled
            } else {
                self.enabled
            },
            modifiers_override: if switched {
                false
            } else {
                self.modifiers_override
            },
            enabled_in_settings: settings.enabled,
            allowed_hint_kinds: settings.hint_kinds,
            invalidate_debounce: spec_debounce_value(settings.edit_debounce_ms),
            append_debounce: spec_debounce_value(settings.scroll_debounce_ms),
            ..self
        };
        if !next.enabled {
            if self.enabled && visible.len() > 0 {
                (next.cleared(), false, Some(ids(visible)))
            } else {
                (next, false, None)
            }
        } else if self.enabled && settings.hint_kinds == self.allowed_hint_kinds {
            (next, false, None)
        } else {
            (next, true, unless_empty(next.disallowed(visible)))
        }
    }
}

/// What an update of the settings asks for: whether to go on to a refresh, and what to splice.
pub open spec fn flow_parts(flow: ControlFlow<Option<InlaySplice>, Option<InlaySplice>>) -> (
    bool,
    Option<(Seq<InlayId>, Seq<(InlayId, Anchor)>)>,
) {
    match flow {
        ControlFlow::Break(splice) => (false, splice_parts(splice)),
        ControlFlow::Continue(splice) => (true, splice_parts(splice)),
    }
}

/// A removal of inlays, if there is one.
pub open spec fn removal_of(list: Option<Seq<InlayId>>) -> Option<
    (Seq<InlayId>, Seq<(InlayId, Anchor)>),
> {
    match list {
        Some(list) => Some(removal(list)),
        None => None,
    }
}

/// Lists the identities of inlays.
pub(crate) fn inlay_ids(inlays: &Vec<Inlay>) -> (list: Vec<InlayId>)
    ensures
        list@ == ids(inlays@),
{
    let mut list: Vec<InlayId> = Vec::new();
    let mut i: usize = 0;
    while i < inlays.len()
        invariant
            i <= inlays@.len(),
            list@ == ids(inlays@.take(i as int)),
        decreases inlays@.len() - i,
    {
        list.push(inlays[i].id);
        i = i + 1;
        assert(inlays@.take(i as int) =~= inlays@.take(i - 1).push(inlays@[i - 1]));
        assert(list@ =~= ids(inlays@.take(i as int)));
    }
    assert(inlays@.take(i as int) =~= inlays@);
    list
}

impl LspInlayHintData {
    /// The state before anything is known of any hint.
    pub fn new(settings: InlayHintSettings) -> (data: Self)
        ensures
            data@ == HintData::initial(settings),
    {
        let data = LspInlayHintData {
            enabled: settings.enabled,
            modifiers_override: false,
            enabled_in_settings: settings.enabled,
            allowed_hint_kinds: settings.hint_kinds,
            invalidate_debounce: debounce_value(settings.edit_debounce_ms),
            append_debounce: debounce_value(settings.scroll_debounce_ms),
            hint_refresh_tasks: HashMap::new(),
            hint_chunk_fetched: HashMap::new(),
            invalidate_hints_for_buffers: HashSet::new(),
            added_hints: VecMap::new(),
        };
        assert(data@ =~= HintData::initial(settings));
        data
    }

    /// Tells whether hints are shown, as far as no modifier key reverses it.
    pub(crate) fn is_enabled(&self) -> (enabled: bool)
        ensures
            enabled == self@.enabled,
    {
        self.enabled
    }

    /// The hints known to the editor, with their kinds.
    pub fn added_hints(&self) -> (hints: &VecMap<InlayId, Option<InlayHintKind>>)
        ensures
            hints@ == self@.added_hints,
    {
        &self.added_hints
    }

    /// The hints known to the editor, to be changed.
    pub fn added_hints_mut(&mut self) -> (hints: &mut VecMap<InlayId, Option<InlayHintKind>>)
        ensures
            hints@ == old(self)@.added_hints,
            final(self)@ == (HintData { added_hints: final(hints)@, ..old(self)@ }),
    {
        &mut self.added_hints
    }

    /// Takes note that a modifier key is pressed or released, and returns whether hints are shown then,
    /// if that changed. Hints that are no longer shown are forgotten.
    pub fn modifiers_override(&mut self, new_override: bool) -> (shown: Option<bool>)
        ensures
            (final(self)@, shown) == old(self)@.modifiers_changed(new_override),
    {
        if self.modifiers_override == new_override {
            return None;
        }
        self.modifiers_override = new_override;
        if (self.enabled && self.modifiers_override) || (!self.enabled && !self.modifiers_override)
        {
            self.clear();
            Some(false)
        } else {
            Some(true)
        }
    }

    /// Switches hints on or off, and returns whether that changed anything.
    pub fn toggle(&mut self, enabled: bool) -> (toggled: bool)
        ensures
            (final(self)@, toggled) == old(self)@.toggled(enabled),
    {
        if self.enabled == enabled {
            return false;
        }
        self.enabled = enabled;
        self.modifiers_override = false;
        if !enabled {
            self.clear();
        }
        true
    }

    /// Forgets all the hints.
    pub fn clear(&mut self)
        ensures
            final(self)@ == old(self)@.cleared(),
    {
        self.hint_refresh_tasks.clear();
        self.hint_chunk_fetched.clear();
        self.added_hints.clear();
        self.invalidate_hints_for_buffers.clear();
        assert(self@ =~= old(self)@.cleared());
    }

    /// The known hints among given inlays that are of no allowed kind.
    fn disallowed(&self, inlays: &Vec<Inlay>) -> (list: Vec<InlayId>)
        ensures
            list@ == self@.disallowed(inlays@),
    {
        let ghost data = self@;
        let ghost unwanted = |inlay: Inlay|
            data.added_hints.contains_key(inlay.id) && !data.allowed_hint_kinds.has(
                data.added_hints[inlay.id],
            );
        let mut list: Vec<InlayId> = Vec::new();
        let mut i: usize = 0;
        proof {
            reveal(Seq::filter);
            assert(inlays@.take(0) =~= Seq::<Inlay>::empty());
            assert(list@ =~= ids(inlays@.take(0).filter(unwanted)));
        }
        while i < inlays.len()
            invariant
                i <= inlays@.len(),
                data == self@,
                unwanted == |inlay: Inlay|
                    data.added_hints.contains_key(inlay.id) && !data.allowed_hint_kinds.has(
                        data.added_hints[inlay.id],
                    ),
                list@ == ids(inlays@.take(i as int).filter(unwanted)),
            decreases inlays@.len() - i,
        {
            let id = inlays[i].id;
            let ghost before = inlays@.take(i as int).filter(unwanted);
            proof {
                reveal(Seq::filter);
                assert(inlays@.take(i + 1).drop_last() =~= inlays@.take(i as int));
            }
            if let Some(kind) = self.added_hints.get(&id) {
                if !self.allowed_hint_kinds.contains(*kind) {
                    list.push(id);
                    assert(list@ =~= ids(before.push(inlays@[i as int])));
                }
            }
            i = i + 1;
        }
        assert(inlays@.take(i as int) =~= inlays@);
        list
    }

    /// Takes in changed settings. Returns what to splice, and whether to go on to a refresh.
    ///
    /// Hints are switched on or off only by a change of the setting itself. Switching off removes all
    /// the visible hints; a change of kinds removes those that are of no allowed kind. Only switching
    /// on, or a change of kinds while hints are on, goes on to a refresh.
    ///
    /// When switching off removes visible hints, the editor forgets which hints it has, which rows were
    /// fetched and which requests were made, so that switching on again inserts the hints anew. A change
    /// of kinds forgets nothing. What the provider keeps of the hints is left alone in every case.
    pub fn update_settings(
        &mut self,
        new_hint_settings: InlayHintSettings,
        visible_hints: &Vec<Inlay>,
    ) -> (flow: ControlFlow<Option<InlaySplice>, Option<InlaySplice>>)
        ensures
            ({
                let (next, go_on, removed) = old(self)@.settings_updated(
                    new_hint_settings,
                    visible_hints@,
                );
                &&& final(self)@ == next
                &&& flow_parts(flow) == (go_on, removal_of(removed))
            }),
    {
        let old_enabled = self.enabled;
        if new_hint_settings.enabled != self.enabled_in_settings {
            self.enabled = new_hint_settings.enabled;
            self.enabled_in_settings = new_hint_settings.enabled;
            self.modifiers_override = false;
        }
        self.invalidate_debounce = debounce_value(new_hint_settings.edit_debounce_ms);
        self.append_debounce = debounce_value(new_hint_settings.scroll_debounce_ms);
        let kinds_changed = new_hint_settings.hint_kinds != self.allowed_hint_kinds;
        self.allowed_hint_kinds = new_hint_settings.hint_kinds;
        if !self.enabled {
            if old_enabled && visible_hints.len() > 0 {
                self.clear();
                let to_remove = inlay_ids(visible_hints);
                return ControlFlow::Break(Some(InlaySplice { to_remove, to_insert: Vec::new() }));
            }
            return ControlFlow::Break(None);
        }
        if old_enabled && !kinds_changed {
            return ControlFlow::Break(None);
        }
        let to_remove = self.disallowed(visible_hints);
        if to_remove.len() == 0 {
            ControlFlow::Continue(None)
        } else {
            ControlFlow::Continue(Some(InlaySplice { to_remove, to_insert: Vec::new() }))
        }
    }
}

/// Why hints are refreshed.
#[derive(Debug)]
pub enum InlayHintRefreshReason {
    /// Whether the modifier key that reverses what is shown is held.
    ModifiersChanged(bool),
    Toggle(bool),
    SettingsChange(InlayHintSettings),
    NewLinesShown,
    /// The buffer that was edited.
    BufferEdited(u64),
    /// The language server that asked.
    RefreshRequested(u64),
    /// The excerpts that were removed.
    ExcerptsRemoved(Vec<u64>),
}

impl Clone for InlayHintRefreshReason {
    fn clone(&self) -> (copy: Self)
        ensures
            match (*self, copy) {
                (
                    InlayHintRefreshReason::ExcerptsRemoved(excerpts),
                    InlayHintRefreshReason::ExcerptsRemoved(copied),
                ) => excerpts@ == copied@,
                _ => copy == *self,
            },
    {
        match self {
            InlayHintRefreshReason::ModifiersChanged(held) => {
                InlayHintRefreshReason::ModifiersChanged(*held)
            },
            InlayHintRefreshReason::Toggle(enabled) => InlayHintRefreshReason::Toggle(*enabled),
            InlayHintRefreshReason::SettingsChange(settings) => {
                InlayHintRefreshReason::SettingsChange(*settings)
            },
            InlayHintRefreshReason::NewLinesShown => InlayHintRefreshReason::NewLinesShown,
            InlayHintRefreshReason::BufferEdited(buffer_id) => {
                InlayHintRefreshReason::BufferEdited(*buffer_id)
            },
            InlayHintRefreshReason::RefreshRequested(server_id) => {
                InlayHintRefreshReason::RefreshRequested(*server_id)
            },
            InlayHintRefreshReason::ExcerptsRemoved(excerpts) => {
                let copied = excerpts.clone();
                assert(copied@ =~= excerpts@);
                InlayHintRefreshReason::ExcerptsRemoved(copied)
            },
        }
    }
}

/// The hints of language servers among inlays.
pub open spec fn hints_among(inlays: Seq<Inlay>) -> Seq<Inlay> {
    inlays.filter(|inlay: Inlay| inlay.id is Hint)
}

/// The inlays within given excerpts.
pub open spec fn within_excerpts(inlays: Seq<Inlay>, excerpts: Seq<u64>) -> Seq<Inlay> {
    inlays.filter(|inlay: Inlay| excerpts.contains(inlay.position.excerpt_id))
}

impl HintData {
    /// The state once some hints are no longer known.
    pub open spec fn without(self, list: Seq<InlayId>) -> HintData {
        HintData { added_hints: self.added_hints.remove_keys(list.to_set()), ..self }
    }

    /// The state after a reason to refresh is dealt with, which inlays are removed on that account, and
    /// how to go on to ask for hints, if at all.
    pub open spec fn reason_handled(
        self,
        reason: InlayHintRefreshReason,
        current: Seq<Inlay>,
    ) -> (HintData, Option<Seq<InlayId>>, Option<InvalidationStrategy>) {
        let visible = ids(hints_among(current));
        match reason {
            InlayHintRefreshReason::ModifiersChanged(held) => {
                let (next, shown) = self.modifiers_changed(held);
                match shown {
                    Some(true) => (next, None, Some(InvalidationStrategy::Keep)),
                    Some(false) => (next.without(visible), Some(visible), None),
                    None => (next, None, None),
                }
            },
            InlayHintRefreshReason::Toggle(enabled) => {
                let (next, toggled) = self.toggled(enabled);
                if !toggled {
                    (next, None, None)
                } else if enabled {
                    (next, None, Some(InvalidationStrategy::Keep))
                } else {
                    (next.without(visible), Some(visible), None)
                }
            },
            InlayHintRefreshReason::SettingsChange(settings) => {
                let (next, go_on, removed) = self.settings_updated(
                    settings,
                    hints_among(current),
                );
                (
                    next,
                    removed,
                    if go_on {
                        Some(InvalidationStrategy::Keep)
                    } else {
                        None
                    },
                )
            },
            InlayHintRefreshReason::ExcerptsRemoved(excerpts) => (
                self,
                Some(ids(within_excerpts(current, excerpts@))),
                None,
            ),
            InlayHintRefreshReason::NewLinesShown => (
                self,
                None,
                self.if_enabled(InvalidationStrategy::Keep),
            ),
            InlayHintRefreshReason::BufferEdited(_) => (
                self,
                None,
                self.if_enabled(InvalidationStrategy::BufferEdited),
            ),
            InlayHintRefreshReason::RefreshRequested(server_id) => (
                self,
                None,
                self.if_enabled(InvalidationStrategy::RefreshRequested(server_id)),
            ),
        }
    }

    /// A way to ask for hints, if hints are enabled.
    pub open spec fn if_enabled(self, strategy: InvalidationStrategy) -> Option<
        InvalidationStrategy,
    > {
        if self.enabled {
            Some(strategy)
        } else {
            None
        }
    }
}

impl LspInlayHintData {
    /// Forgets what was fetched and asked for removed buffers.
    pub fn remove_inlay_chunk_data(&mut self, removed_buffer_ids: &Vec<u64>)
        ensures
            final(self)@ == (HintData {
                hint_refresh_tasks: old(self)@.hint_refresh_tasks.remove_keys(
                    removed_buffer_ids@.to_set(),
                ),
                hint_chunk_fetched: old(self)@.hint_chunk_fetched.remove_keys(
                    removed_buffer_ids@.to_set(),
                ),
                ..old(self)@
            }),
    {
        let mut i: usize = 0;
        assert(removed_buffer_ids@.take(0).to_set() =~= Set::<u64>::empty());
        assert(self@ =~= (HintData {
            hint_refresh_tasks: old(self)@.hint_refresh_tasks.remove_keys(
                removed_buffer_ids@.take(0).to_set(),
            ),
            hint_chunk_fetched: old(self)@.hint_chunk_fetched.remove_keys(
                removed_buffer_ids@.take(0).to_set(),
            ),
            ..old(self)@
        }));
        while i < removed_buffer_ids.len()
            invariant
                i <= removed_buffer_ids@.len(),
                self@ == (HintData {
                    hint_refresh_tasks: old(self)@.hint_refresh_tasks.remove_keys(
                        removed_buffer_ids@.take(i as int).to_set(),
                    ),
                    hint_chunk_fetched: old(self)@.hint_chunk_fetched.remove_keys(
                        removed_buffer_ids@.take(i as int).to_set(),
                    ),
                    ..old(self)@
                }),
            decreases removed_buffer_ids@.len() - i,
        {
            let id = removed_buffer_ids[i];
            let ghost before = self@;
            self.hint_refresh_tasks.remove(&id);
            self.hint_chunk_fetched.remove(&id);
            proof {
                assert(self@ =~= (HintData {
                    hint_refresh_tasks: before.hint_refresh_tasks.remove(id),
                    hint_chunk_fetched: before.hint_chunk_fetched.remove(id),
                    ..before
                }));
                lemma_take_next_to_set(removed_buffer_ids@, i as int);
                lemma_remove_next_key(
                    old(self)@.hint_refresh_tasks,
                    removed_buffer_ids@.take(i as int).to_set(),
                    id,
                );
                lemma_remove_next_key(
                    old(self)@.hint_chunk_fetched,
                    removed_buffer_ids@.take(i as int).to_set(),
                    id,
                );
            }
            i = i + 1;
        }
        assert(removed_buffer_ids@.take(i as int) =~= removed_buffer_ids@);
    }

    /// Forgets some hints.
    fn forget(&mut self, list: &Vec<InlayId>)
        ensures
            final(self)@ == old(self)@.without(list@),
    {
        let mut i: usize = 0;
        assert(list@.take(0).to_set() =~= Set::<InlayId>::empty());
        assert(self@ =~= old(self)@.without(list@.take(0)));
        while i < list.len()
            invariant
                i <= list@.len(),
                self@ == old(self)@.without(list@.take(i as int)),
            decreases list@.len() - i,
        {
            let ghost before = self@;
            self.added_hints.remove(&list[i]);
            proof {
                assert(self@ =~= (HintData {
                    added_hints: before.added_hints.remove(list@[i as int]),
                    ..before
                }));
                lemma_take_next_to_set(list@, i as int);
                lemma_remove_next_key(
                    old(self)@.added_hints,
                    list@.take(i as int).to_set(),
                    list@[i as int],
                );
            }
            i = i + 1;
        }
        assert(list@.take(i as int) =~= list@);
    }
}

proof fn lemma_take_next_to_set<A>(list: Seq<A>, i: int)
    requires
        0 <= i < list.len(),
    ensures
        list.take(i + 1).to_set() == list.take(i).to_set().insert(list[i]),
{
    assert(list.take(i + 1) =~= list.take(i).push(list[i]));
    assert forall|a: A| #[trigger]
        list.take(i + 1).to_set().contains(a) == list.take(i).to_set().insert(list[i]).contains(
            a,
        ) by {
        if list.take(i).contains(a) {
            let j = choose|j: int| 0 <= j < i && #[trigger] list.take(i)[j] == a;
            assert(list.take(i + 1)[j] == a);
        }
        if a == list[i] {
            assert(list.take(i + 1)[i] == a);
        }
    }
    assert(list.take(i + 1).to_set() =~= list.take(i).to_set().insert(list[i]));
}

proof fn lemma_remove_next_key<K, V>(map: Map<K, V>, keys: Set<K>, key: K)
    ensures
        map.remove_keys(keys).remove(key) == map.remove_keys(keys.insert(key)),
{
    assert(map.remove_keys(keys).remove(key) =~= map.remove_keys(keys.insert(key)));
}

/// What a reason to refresh comes to.
#[derive(Debug)]
pub struct RefreshDecision {
    /// A change of inlays that is due at once.
    pub splice: Option<InlaySplice>,
    /// How to go on to ask for hints, if at all.
    pub invalidate_cache: Option<InvalidationStrategy>,
}

impl Editor {
    /// Tells whether hints can be had for any of the editor's buffers, given for each of them whether
    /// the provider has them.
    pub fn supports_inlay_hints(&self, supported: &Vec<bool>) -> (result: bool)
        ensures
            result == (self.has_semantics_provider && supported@.contains(true)),
    {
        if !self.has_semantics_provider {
            return false;
        }
        let mut supports = false;
        let mut i: usize = 0;
        while i < supported.len()
            invariant
                i <= supported@.len(),
                supports == supported@.take(i as int).contains(true),
            decreases supported@.len() - i,
        {
            let ghost before = supported@.take(i as int);
            assert(supported@.take(i + 1) =~= before.push(supported@[i as int]));
            if supported[i] {
                assert(supported@.take(i + 1)[i as int]);
                supports = true;
            } else {
                proof {
                    if before.contains(true) {
                        let j = choose|j: int| 0 <= j < before.len() && #[trigger] before[j];
                        assert(supported@.take(i + 1)[j]);
                    }
                }
            }
            i = i + 1;
        }
        assert(supported@.take(i as int) =~= supported@);
        supports
    }

    /// Switches inline values on or off.
    pub fn toggle_inline_values(&mut self)
        ensures
            *final(self) == (Editor {
                inline_values_enabled: !old(self).inline_values_enabled,
                ..*old(self)
            }),
    {
        self.inline_values_enabled = !self.inline_values_enabled;
    }

    /// Whether hints are enabled.
    pub open spec fn hints_enabled(self) -> bool {
        self.inlay_hints matches Some(data) && data@.enabled
    }

    /// Tells whether hints are enabled.
    pub fn inlay_hints_enabled(&self) -> (enabled: bool)
        ensures
            enabled == self.hints_enabled(),
    {
        match &self.inlay_hints {
            Some(data) => data.enabled,
            None => false,
        }
    }

    /// Picks the hints of language servers among the inlays that are shown.
    pub fn visible_inlay_hints(current_inlays: &Vec<Inlay>) -> (hints: Vec<Inlay>)
        ensures
            hints@ == hints_among(current_inlays@),
    {
        let mut hints: Vec<Inlay> = Vec::new();
        let mut i: usize = 0;
        let ghost is_hint = |inlay: Inlay| inlay.id is Hint;
        proof {
            reveal(Seq::filter);
            assert(current_inlays@.take(0) =~= Seq::<Inlay>::empty());
        }
        while i < current_inlays.len()
            invariant
                i <= current_inlays@.len(),
                is_hint == |inlay: Inlay| inlay.id is Hint,
                hints@ == current_inlays@.take(i as int).filter(is_hint),
            decreases current_inlays@.len() - i,
        {
            proof {
                reveal(Seq::filter);
                assert(current_inlays@.take(i + 1).drop_last() =~= current_inlays@.take(i as int));
            }
            let inlay = current_inlays[i];
            if let InlayId::Hint(_) = inlay.id {
                hints.push(inlay);
            }
            i = i + 1;
        }
        assert(current_inlays@.take(i as int) =~= current_inlays@);
        hints
    }

    /// Forgets the hints that are shown, and returns the change that removes them.
    pub fn clear_inlay_hints(&mut self, current_inlays: &Vec<Inlay>) -> (splice: InlaySplice)
        ensures
            splice.parts() == removal(ids(hints_among(current_inlays@))),
            *final(self) == (Editor { inlay_hints: final(self).inlay_hints, ..*old(self) }),
            match old(self).inlay_hints {
                Some(data) => {
                    &&& final(self).inlay_hints matches Some(next)
                    &&& next@ == data@.without(ids(hints_among(current_inlays@)))
                },
                None => final(self).inlay_hints is None,
            },
    {
        let to_remove = inlay_ids(&Self::visible_inlay_hints(current_inlays));
        if let Some(mut data) = self.inlay_hints.take() {
            data.forget(&to_remove);
            self.inlay_hints = Some(data);
        }
        InlaySplice { to_remove, to_insert: Vec::new() }
    }
}

/// Picks the inlays within given excerpts.
pub(crate) fn inlays_within(inlays: &Vec<Inlay>, excerpts: &Vec<u64>) -> (within: Vec<Inlay>)
    ensures
        within@ == within_excerpts(inlays@, excerpts@),
{
    let ghost wanted = |inlay: Inlay| excerpts@.contains(inlay.position.excerpt_id);
    let mut within: Vec<Inlay> = Vec::new();
    let mut i: usize = 0;
    proof {
        reveal(Seq::filter);
        assert(inlays@.take(0) =~= Seq::<Inlay>::empty());
    }
    while i < inlays.len()
        invariant
            i <= inlays@.len(),
            wanted == |inlay: Inlay| excerpts@.contains(inlay.position.excerpt_id),
            within@ == inlays@.take(i as int).filter(wanted),
        decreases inlays@.len() - i,
    {
        proof {
            reveal(Seq::filter);
            assert(inlays@.take(i + 1).drop_last() =~= inlays@.take(i as int));
        }
        let inlay = inlays[i];
        if list_contains(excerpts, inlay.position.excerpt_id) {
            within.push(inlay);
        }
        i = i + 1;
    }
    assert(inlays@.take(i as int) =~= inlays@);
    within
}

/// Tells whether a list holds a number.
fn list_contains(list: &Vec<u64>, number: u64) -> (result: bool)
    ensures
        result == list@.contains(number),
{
    let mut i: usize = 0;
    while i < list.len()
        invariant
            i <= list@.len(),
            forall|j: int| 0 <= j < i ==> list@[j] != number,
        decreases list@.len() - i,
    {
        if list[i] == number {
            return true;
        }
        i = i + 1;
    }
    false
}

/// A hint that a language server sent.
#[derive(Debug)]
pub struct FetchedHint {
    pub id: InlayId,
    pub kind: Option<InlayHintKind>,
    /// For each excerpt in turn, where it shows the hint, if it does.
    pub anchors: Vec<Option<Anchor>>,
}

/// The hints of some rows of a buffer.
#[derive(Debug)]
pub struct ChunkHints {
    pub chunk: RowRange,
    /// The hints, unless they could not be had.
    pub hints: Option<Vec<FetchedHint>>,
}

/// The first position of a list that is known.
pub open spec fn first_anchor(anchors: Seq<Option<Anchor>>) -> Option<Anchor>
    decreases anchors.len(),
{
    if anchors.len() == 0 {
        None
    } else if anchors[0] is Some {
        anchors[0]
    } else {
        first_anchor(anchors.skip(1))
    }
}

/// All the hints of several chunks.
pub open spec fn all_hints(chunks: Seq<ChunkHints>) -> Seq<FetchedHint>
    decreases chunks.len(),
{
    if chunks.len() == 0 {
        Seq::empty()
    } else {
        all_hints(chunks.drop_last()) + match chunks.last().hints {
            Some(hints) => hints@,
            None => Seq::empty(),
        }
    }
}

/// The chunks whose hints could not be had.
pub open spec fn failed_chunks(chunks: Seq<ChunkHints>) -> Set<RowRange>
    decreases chunks.len(),
{
    if chunks.len() == 0 {
        Set::empty()
    } else {
        let failed = failed_chunks(chunks.drop_last());
        if chunks.last().hints is None {
            failed.insert(chunks.last().chunk)
        } else {
            failed
        }
    }
}

/// The hints known after some are received, and those of them to insert.
///
/// Only hints of an allowed kind are taken note of. One is inserted when it was not known before and
/// some excerpt shows it.
pub open spec fn hints_added(
    added: Map<InlayId, Option<InlayHintKind>>,
    allowed: HintKinds,
    hints: Seq<FetchedHint>,
) -> (Map<InlayId, Option<InlayHintKind>>, Seq<(InlayId, Anchor)>)
    decreases hints.len(),
{
    if hints.len() == 0 {
        (added, Seq::empty())
    } else {
        let (known, inserted) = hints_added(added, allowed, hints.drop_last());
        let hint = hints.last();
        if !allowed.has(hint.kind) {
            (known, inserted)
        } else {
            let anchor = first_anchor(hint.anchors@);
            (
                known.insert(hint.id, hint.kind),
                if !known.contains_key(hint.id) && anchor is Some {
                    inserted.push((hint.id, anchor->0))
                } else {
                    inserted
                },
            )
        }
    }
}

/// Whether a request is among given ones.
pub open spec fn has_request(requests: Seq<RefreshTask>, id: u64) -> bool {
    exists|i: int| 0 <= i < requests.len() && (#[trigger] requests[i]).id == id
}

/// The inlays at positions in a buffer.
pub open spec fn within_buffer(inlays: Seq<Inlay>, buffer_id: u64) -> Seq<Inlay> {
    inlays.filter(|inlay: Inlay| inlay.position.buffer_id == Some(buffer_id))
}

/// The inlays whose positions are not known to lie outside given buffers.
pub open spec fn not_outside_buffers(inlays: Seq<Inlay>, buffers: Set<u64>) -> Seq<Inlay> {
    inlays.filter(
        |inlay: Inlay| inlay.position.buffer_id matches Some(id) ==> buffers.contains(id),
    )
}

impl HintData {
    /// The version that a buffer's hints were fetched for last, and the rows fetched.
    pub open spec fn fetched_for(self, buffer_id: u64) -> (Seq<u32>, Set<RowRange>) {
        if self.hint_chunk_fetched.contains_key(buffer_id) {
            self.hint_chunk_fetched[buffer_id]
        } else {
            (Seq::empty(), Set::empty())
        }
    }

    /// What is fetched of a version of a buffer: nothing, if it holds edits that were not known yet.
    pub open spec fn fetched_at(self, buffer_id: u64, version: Seq<u32>) -> (
        Seq<u32>,
        Set<RowRange>,
    ) {
        if spec_changed_since(version, self.fetched_for(buffer_id).0) {
            (version, Set::empty())
        } else {
            self.fetched_for(buffer_id)
        }
    }

    /// The state after a request for some rows of a version of a buffer is considered, and whether it
    /// is made. It is not made if the same rows were asked for before, unless that is to be ignored.
    pub open spec fn scheduled(
        self,
        buffer_id: u64,
        version: Seq<u32>,
        chunks: Seq<RowRange>,
        task: RefreshTask,
    ) -> (HintData, bool) {
        let outdated = spec_changed_since(version, self.fetched_for(buffer_id).0);
        let earlier = if !outdated && self.hint_refresh_tasks.contains_key(buffer_id) {
            self.hint_refresh_tasks[buffer_id]
        } else {
            Map::empty()
        };
        let made = !earlier.contains_key(chunks) || task.invalidate_cache.invalidates()
            || task.ignore_previous_fetches;
        let queue = if earlier.contains_key(chunks) {
            earlier[chunks]
        } else {
            Seq::empty()
        };
        let next = HintData {
            hint_chunk_fetched: self.hint_chunk_fetched.insert(
                buffer_id,
                self.fetched_at(buffer_id, version),
            ),
            hint_refresh_tasks: self.hint_refresh_tasks.insert(
                buffer_id,
                if made {
                    earlier.insert(chunks, queue.push(task))
                } else {
                    earlier
                },
            ),
            ..self
        };
        (next, made)
    }

    /// Whether a request for some rows of a buffer is on record. One that is not any more, since its record
    /// was cleared or replaced, is to be given up.
    pub open spec fn records(self, buffer_id: u64, chunks: Seq<RowRange>, id: u64) -> bool {
        &&& self.hint_refresh_tasks.contains_key(buffer_id)
        &&& self.hint_refresh_tasks[buffer_id].contains_key(chunks)
        &&& has_request(self.hint_refresh_tasks[buffer_id][chunks], id)
    }

    /// What a provider is told of the rows of a buffer fetched before, if that is not to be ignored.
    pub open spec fn known_chunks(
        self,
        buffer_id: u64,
        invalidate_cache: InvalidationStrategy,
        ignore_previous_fetches: bool,
    ) -> Option<(Seq<u32>, Set<RowRange>)> {
        if !ignore_previous_fetches && !invalidate_cache.invalidates()
            && self.hint_chunk_fetched.contains_key(buffer_id) {
            Some(self.hint_chunk_fetched[buffer_id])
        } else {
            None
        }
    }

    /// The state once rows of a version of a buffer count as fetched.
    pub open spec fn chunks_registered(
        self,
        buffer_id: u64,
        version: Seq<u32>,
        rows: Seq<RowRange>,
    ) -> HintData {
        let (known_version, known_chunks) = self.fetched_at(buffer_id, version);
        HintData {
            hint_chunk_fetched: self.hint_chunk_fetched.insert(
                buffer_id,
                (known_version, known_chunks.union(rows.to_set())),
            ),
            ..self
        }
    }

    /// The rows fetched by buffer once some turned out not to be had for a version of a buffer.
    pub open spec fn without_failed(
        self,
        buffer_id: u64,
        version: Seq<u32>,
        failed: Set<RowRange>,
    ) -> Map<u64, (Seq<u32>, Set<RowRange>)> {
        let fetched = self.hint_chunk_fetched;
        if fetched.contains_key(buffer_id) && fetched[buffer_id].0 == version {
            fetched.insert(buffer_id, (version, fetched[buffer_id].1.difference(failed)))
        } else {
            fetched
        }
    }

    /// The state after hints of a version of a buffer are received, and which of them to insert.
    pub open spec fn hints_received(
        self,
        buffer_id: u64,
        version: Seq<u32>,
        chunks: Seq<ChunkHints>,
    ) -> (HintData, Seq<(InlayId, Anchor)>) {
        let (added_hints, inserted) = hints_added(
            self.added_hints,
            self.allowed_hint_kinds,
            all_hints(chunks),
        );
        let next = HintData {
            added_hints,
            hint_chunk_fetched: self.without_failed(buffer_id, version, failed_chunks(chunks)),
            invalidate_hints_for_buffers: Set::empty(),
            ..self
        };
        (next, inserted)
    }

    /// The inlays to remove when hints of a buffer are received: those of the buffer, if its hints
    /// were invalidated, and those of the buffers whose hints await removal.
    pub open spec fn removed_on_receipt(
        self,
        buffer_id: u64,
        invalidate_cache: InvalidationStrategy,
        current: Seq<Inlay>,
    ) -> Seq<InlayId> {
        let visible = hints_among(current);
        let of_buffer = if invalidate_cache.invalidates() {
            ids(within_buffer(visible, buffer_id))
        } else {
            Seq::empty()
        };
        let awaiting = if self.invalidate_hints_for_buffers.is_empty() {
            Seq::empty()
        } else {
            ids(not_outside_buffers(visible, self.invalidate_hints_for_buffers))
        };
        of_buffer + awaiting
    }
}

/// The indices of the rows to await among those that a provider answers for: all of them, or those
/// that are neither known nor listed before.
pub open spec fn awaited(known: Set<RowRange>, rows: Seq<RowRange>, all: bool) -> Seq<int>
    decreases rows.len(),
{
    if rows.len() == 0 {
        Seq::empty()
    } else {
        let before = rows.drop_last();
        let indices = awaited(known, before, all);
        if all || !known.union(before.to_set()).contains(rows.last()) {
            indices.push(rows.len() - 1)
        } else {
            indices
        }
    }
}

/// Finds the first position of a list that is known.
fn find_anchor(anchors: &Vec<Option<Anchor>>) -> (anchor: Option<Anchor>)
    ensures
        anchor == first_anchor(anchors@),
{
    let mut i: usize = 0;
    assert(anchors@.skip(0) =~= anchors@);
    while i < anchors.len()
        invariant
            i <= anchors@.len(),
            first_anchor(anchors@) == first_anchor(anchors@.skip(i as int)),
        decreases anchors@.len() - i,
    {
        let anchor = anchors[i];
        if anchor.is_some() {
            return anchor;
        }
        assert(anchors@.skip(i as int).skip(1) =~= anchors@.skip(i + 1));
        i = i + 1;
    }
    None
}

/// Lists the hints among inlays that lie in a buffer.
fn ids_within_buffer(inlays: &Vec<Inlay>, buffer_id: u64) -> (list: Vec<InlayId>)
    ensures
        list@ == ids(within_buffer(inlays@, buffer_id)),
{
    let ghost wanted = |inlay: Inlay| inlay.position.buffer_id == Some(buffer_id);
    let mut list: Vec<InlayId> = Vec::new();
    let mut i: usize = 0;
    proof {
        reveal(Seq::filter);
        assert(inlays@.take(0) =~= Seq::<Inlay>::empty());
        assert(list@ =~= ids(inlays@.take(0).filter(wanted)));
    }
    while i < inlays.len()
        invariant
            i <= inlays@.len(),
            wanted == |inlay: Inlay| inlay.position.buffer_id == Some(buffer_id),
            list@ == ids(inlays@.take(i as int).filter(wanted)),
        decreases inlays@.len() - i,
    {
        let ghost before = inlays@.take(i as int).filter(wanted);
        proof {
            reveal(Seq::filter);
            assert(inlays@.take(i + 1).drop_last() =~= inlays@.take(i as int));
        }
        let inlay = inlays[i];
        let lies_within = match inlay.position.buffer_id {
            Some(id) => id == buffer_id,
            None => false,
        };
        if lies_within {
            list.push(inlay.id);
            assert(list@ =~= ids(before.push(inlay)));
        }
        i = i + 1;
    }
    assert(inlays@.take(i as int) =~= inlays@);
    list
}

/// Adds to a list those inlays whose positions are not known to lie outside given buffers.
fn append_not_outside(list: &mut Vec<InlayId>, inlays: &Vec<Inlay>, buffers: &HashSet<u64>)
    ensures
        final(list)@ == old(list)@ + ids(not_outside_buffers(inlays@, buffers@)),
{
    let ghost wanted = |inlay: Inlay|
        inlay.position.buffer_id matches Some(id) ==> buffers@.contains(id);
    let ghost start = list@;
    let mut i: usize = 0;
    proof {
        reveal(Seq::filter);
        assert(inlays@.take(0) =~= Seq::<Inlay>::empty());
        assert(list@ =~= start + ids(inlays@.take(0).filter(wanted)));
    }
    while i < inlays.len()
        invariant
            i <= inlays@.len(),
            wanted == |inlay: Inlay|
                inlay.position.buffer_id matches Some(id) ==> buffers@.contains(id),
            list@ == start + ids(inlays@.take(i as int).filter(wanted)),
        decreases inlays@.len() - i,
    {
        let ghost before = inlays@.take(i as int).filter(wanted);
        proof {
            reveal(Seq::filter);
            assert(inlays@.take(i + 1).drop_last() =~= inlays@.take(i as int));
        }
        let inlay = inlays[i];
        let remains = match inlay.position.buffer_id {
            Some(id) => buffers.contains(&id),
            None => true,
        };
        if remains {
            list.push(inlay.id);
            assert(list@ =~= start + ids(before.push(inlay)));
        }
        i = i + 1;
    }
    assert(inlays@.take(i as int) =~= inlays@);
}

impl HintData {
    proof fn lemma_without_next_failed(
        self,
        buffer_id: u64,
        version: Seq<u32>,
        failed: Set<RowRange>,
        chunk: RowRange,
    )
        ensures
            ({
                let fetched = self.without_failed(buffer_id, version, failed);
                let next = HintData { hint_chunk_fetched: fetched, ..self };
                next.without_failed(buffer_id, version, Set::empty().insert(chunk))
                    == self.without_failed(buffer_id, version, failed.insert(chunk))
            }),
    {
        let chunks = self.fetched_for(buffer_id).1;
        assert(chunks.difference(failed).difference(Set::empty().insert(chunk))
            =~= chunks.difference(failed.insert(chunk)));
        let next = HintData {
            hint_chunk_fetched: self.without_failed(buffer_id, version, failed),
            ..self
        };
        assert(next.without_failed(buffer_id, version, Set::empty().insert(chunk))
            =~= self.without_failed(buffer_id, version, failed.insert(chunk)));
    }
}

impl LspInlayHintData {
    /// How long to wait before hints are asked for, in milliseconds.
    pub(crate) fn debounce(&self, invalidate_cache: InvalidationStrategy) -> (debounce: Option<u64>)
        ensures
            debounce == if invalidate_cache.invalidates() {
                self@.invalidate_debounce
            } else {
                self@.append_debounce
            },
    {
        if invalidate_cache.should_invalidate() {
            self.invalidate_debounce
        } else {
            self.append_debounce
        }
    }

    /// Takes note of buffers whose shown hints are to be removed.
    pub(crate) fn invalidate_buffers(&mut self, buffer_ids: &Vec<u64>)
        ensures
            final(self)@ == (HintData {
                invalidate_hints_for_buffers: old(self)@.invalidate_hints_for_buffers.union(
                    buffer_ids@.to_set(),
                ),
                ..old(self)@
            }),
    {
        let mut i: usize = 0;
        assert(buffer_ids@.take(0).to_set() =~= Set::<u64>::empty());
        assert(self@ =~= (HintData {
            invalidate_hints_for_buffers: old(self)@.invalidate_hints_for_buffers.union(
                buffer_ids@.take(0).to_set(),
            ),
            ..old(self)@
        }));
        while i < buffer_ids.len()
            invariant
                i <= buffer_ids@.len(),
                self@ == (HintData {
                    invalidate_hints_for_buffers: old(self)@.invalidate_hints_for_buffers.union(
                        buffer_ids@.take(i as int).to_set(),
                    ),
                    ..old(self)@
                }),
            decreases buffer_ids@.len() - i,
        {
            let ghost before = self@;
            self.invalidate_hints_for_buffers.insert(buffer_ids[i]);
            proof {
                lemma_take_next_to_set(buffer_ids@, i as int);
                assert(self@ =~= (HintData {
                    invalidate_hints_for_buffers: before.invalidate_hints_for_buffers.insert(
                        buffer_ids@[i as int],
                    ),
                    ..before
                }));
                assert(self@.invalidate_hints_for_buffers
                    =~= old(self)@.invalidate_hints_for_buffers.union(
                    buffer_ids@.take(i + 1).to_set(),
                ));
            }
            i = i + 1;
        }
        assert(buffer_ids@.take(i as int) =~= buffer_ids@);
    }

    /// Takes out what is fetched of a version of a buffer.
    fn take_fetched(&mut self, buffer_id: u64, version: &Global) -> (fetched: FetchedChunks)
        ensures
            fetched@ == old(self)@.fetched_at(buffer_id, version@),
            final(self)@ == (HintData {
                hint_chunk_fetched: old(self)@.hint_chunk_fetched.remove(buffer_id),
                ..old(self)@
            }),
    {
        let mut fetched = match self.hint_chunk_fetched.remove(&buffer_id) {
            Some(fetched) => fetched,
            None => FetchedChunks { version: Global::new(), chunks: VecSet::new() },
        };
        assert(self@ =~= (HintData {
            hint_chunk_fetched: old(self)@.hint_chunk_fetched.remove(buffer_id),
            ..old(self)@
        }));
        if version.changed_since(&fetched.version) {
            fetched.chunks.clear();
            fetched.version = version.clone();
        }
        fetched
    }

    /// Puts in what is fetched of a buffer.
    fn put_fetched(&mut self, buffer_id: u64, fetched: FetchedChunks)
        ensures
            final(self)@ == (HintData {
                hint_chunk_fetched: old(self)@.hint_chunk_fetched.insert(buffer_id, fetched@),
                ..old(self)@
            }),
    {
        self.hint_chunk_fetched.insert(buffer_id, fetched);
        assert(self@ =~= (HintData {
            hint_chunk_fetched: old(self)@.hint_chunk_fetched.insert(buffer_id, fetched@),
            ..old(self)@
        }));
    }

    /// Considers a request for some rows of a version of a buffer, and returns whether it is made.
    pub(crate) fn schedule(
        &mut self,
        buffer_id: u64,
        version: &Global,
        chunks: Vec<RowRange>,
        task: RefreshTask,
    ) -> (made: bool)
        ensures
            (final(self)@, made) == old(self)@.scheduled(buffer_id, version@, chunks@, task),
    {
        let ghost start = self@;
        let outdated = match self.hint_chunk_fetched.get(&buffer_id) {
            Some(fetched) => version.changed_since(&fetched.version),
            None => version.changed_since(&Global::new()),
        };
        assert(outdated == spec_changed_since(version@, start.fetched_for(buffer_id).0));
        let fetched = self.take_fetched(buffer_id, version);
        self.put_fetched(buffer_id, fetched);
        assert(self@.hint_chunk_fetched =~= start.hint_chunk_fetched.insert(
            buffer_id,
            start.fetched_at(buffer_id, version@),
        ));
        let ghost between = self@;
        let known = self.hint_refresh_tasks.remove(&buffer_id);
        assert(self@ =~= (HintData {
            hint_refresh_tasks: start.hint_refresh_tasks.remove(buffer_id),
            ..between
        }));
        let ghost earlier = if !outdated && start.hint_refresh_tasks.contains_key(buffer_id) {
            start.hint_refresh_tasks[buffer_id]
        } else {
            Map::empty()
        };
        let mut tasks: BufferTasks = match known {
            Some(tasks) => {
                if outdated {
                    VecMap::new()
                } else {
                    tasks
                }
            },
            None => VecMap::new(),
        };
        assert(tasks_view(tasks) =~= earlier);
        let ghost chunk_rows = chunks@;
        let known_list = tasks.remove(&chunks);
        let mut made = true;
        let mut list: Vec<RefreshTask> = match known_list {
            Some(list) => {
                made = task.invalidate_cache.should_invalidate() || task.ignore_previous_fetches;
                list
            },
            None => Vec::new(),
        };
        if made {
            list.push(task);
        }
        tasks.insert(chunks, list);
        let ghost queue = if earlier.contains_key(chunk_rows) {
            earlier[chunk_rows]
        } else {
            Seq::empty()
        };
        let ghost next_tasks = if made {
            earlier.insert(chunk_rows, queue.push(task))
        } else {
            earlier
        };
        assert(tasks_view(tasks) =~= next_tasks);
        self.hint_refresh_tasks.insert(buffer_id, tasks);
        assert(self@.hint_refresh_tasks =~= start.hint_refresh_tasks.insert(buffer_id, next_tasks));
        assert(self@ =~= start.scheduled(buffer_id, version@, chunk_rows, task).0);
        made
    }

    /// Tells whether a request for some rows of a buffer is on record.
    pub(crate) fn records_request(
        &self,
        buffer_id: u64,
        chunks: &Vec<RowRange>,
        id: u64,
    ) -> (result: bool)
        ensures
            result == self@.records(buffer_id, chunks@, id),
    {
        let tasks = match self.hint_refresh_tasks.get(&buffer_id) {
            Some(tasks) => tasks,
            None => {
                return false;
            },
        };
        assert(self@.hint_refresh_tasks[buffer_id] == tasks_view(*tasks));
        let list = match tasks.get(chunks) {
            Some(list) => list,
            None => {
                return false;
            },
        };
        let mut i: usize = 0;
        while i < list.len()
            invariant
                i <= list@.len(),
                forall|j: int| 0 <= j < i ==> (#[trigger] list@[j]).id != id,
                list@ == self@.hint_refresh_tasks[buffer_id][chunks@],
                self@.hint_refresh_tasks.contains_key(buffer_id),
                self@.hint_refresh_tasks[buffer_id].contains_key(chunks@),
            decreases list@.len() - i,
        {
            if list[i].id == id {
                assert(list@[i as int].id == id);
                return true;
            }
            i = i + 1;
        }
        false
    }

    /// What a provider is told of the rows of a buffer fetched before.
    pub(crate) fn known_chunks(
        &self,
        buffer_id: u64,
        invalidate_cache: InvalidationStrategy,
        ignore_previous_fetches: bool,
    ) -> (known: Option<FetchedChunks>)
        ensures
            match self@.known_chunks(buffer_id, invalidate_cache, ignore_previous_fetches) {
                Some(expected) => known matches Some(chunks) && chunks@ == expected,
                None => known is None,
            },
    {
        if ignore_previous_fetches || invalidate_cache.should_invalidate() {
            return None;
        }
        match self.hint_chunk_fetched.get(&buffer_id) {
            Some(fetched) => Some(
                FetchedChunks { version: fetched.version.clone(), chunks: fetched.chunks.copied() },
            ),
            None => None,
        }
    }

    /// Takes note that rows of a version of a buffer are fetched, and returns the indices of those to
    /// await.
    pub(crate) fn register_chunks(
        &mut self,
        buffer_id: u64,
        version: &Global,
        rows: &Vec<RowRange>,
        all: bool,
    ) -> (indices: Vec<usize>)
        ensures
            final(self)@ == old(self)@.chunks_registered(buffer_id, version@, rows@),
            indices@.map_values(|index: usize| index as int) == awaited(
                old(self)@.fetched_at(buffer_id, version@).1,
                rows@,
                all,
            ),
    {
        let ghost start = self@;
        let mut fetched = self.take_fetched(buffer_id, version);
        let ghost known_version = fetched@.0;
        let ghost known = fetched@.1;
        let mut indices: Vec<usize> = Vec::new();
        let mut i: usize = 0;
        proof {
            assert(rows@.take(0).to_set() =~= Set::<RowRange>::empty());
            assert(fetched@.1 =~= known.union(rows@.take(0).to_set()));
            assert(indices@.map_values(|index: usize| index as int) =~= awaited(
                known,
                rows@.take(0),
                all,
            ));
        }
        while i < rows.len()
            invariant
                i <= rows@.len(),
                fetched@ == (known_version, known.union(rows@.take(i as int).to_set())),
                indices@.map_values(|index: usize| index as int) == awaited(
                    known,
                    rows@.take(i as int),
                    all,
                ),
            decreases rows@.len() - i,
        {
            let ghost before = indices@.map_values(|index: usize| index as int);
            proof {
                lemma_take_next_to_set(rows@, i as int);
                assert(rows@.take(i + 1).drop_last() =~= rows@.take(i as int));
                assert(known.union(rows@.take(i + 1).to_set()) =~= known.union(
                    rows@.take(i as int).to_set(),
                ).insert(rows@[i as int]));
            }
            let inserted = fetched.chunks.insert(rows[i]);
            if inserted || all {
                indices.push(i);
                assert(indices@.map_values(|index: usize| index as int) =~= before.push(i as int));
            }
            i = i + 1;
        }
        assert(rows@.take(i as int) =~= rows@);
        self.put_fetched(buffer_id, fetched);
        assert(self@ =~= start.chunks_registered(buffer_id, version@, rows@));
        indices
    }

    /// Takes note of a received hint, and of whether it is to be inserted.
    fn receive_hint(&mut self, hint: &FetchedHint, to_insert: &mut Vec<(InlayId, Anchor)>)
        ensures
            ({
                let (added_hints, inserted) = hints_added(
                    old(self)@.added_hints,
                    old(self)@.allowed_hint_kinds,
                    seq![*hint],
                );
                &&& final(self)@ == (HintData { added_hints, ..old(self)@ })
                &&& final(to_insert)@ == old(to_insert)@ + inserted
            }),
    {
        proof {
            reveal_with_fuel(hints_added, 2);
            assert(seq![*hint].drop_last() =~= Seq::empty());
        }
        if self.allowed_hint_kinds.contains(hint.kind) {
            let replaced = self.added_hints.insert(hint.id, hint.kind);
            if replaced.is_none() {
                if let Some(anchor) = find_anchor(&hint.anchors) {
                    to_insert.push((hint.id, anchor));
                }
            }
        }
        assert(self@ =~= (HintData {
            added_hints: hints_added(
                old(self)@.added_hints,
                old(self)@.allowed_hint_kinds,
                seq![*hint],
            ).0,
            ..old(self)@
        }));
    }

    /// Takes note that rows of a version of a buffer could not be had.
    fn drop_failed_chunk(&mut self, buffer_id: u64, query_version: &Global, chunk: RowRange)
        ensures
            final(self)@ == (HintData {
                hint_chunk_fetched: old(self)@.without_failed(
                    buffer_id,
                    query_version@,
                    Set::empty().insert(chunk),
                ),
                ..old(self)@
            }),
    {
        let ghost start = self@;
        if let Some(mut fetched) = self.hint_chunk_fetched.remove(&buffer_id) {
            let ghost before = fetched@;
            if fetched.version.same(query_version) {
                fetched.chunks.remove(&chunk);
                assert(fetched@.1 =~= before.1.difference(Set::empty().insert(chunk)));
            }
            self.hint_chunk_fetched.insert(buffer_id, fetched);
            assert(self@.hint_chunk_fetched =~= start.hint_chunk_fetched.insert(
                buffer_id,
                fetched@,
            ));
            assert(self@.hint_chunk_fetched =~= start.without_failed(
                buffer_id,
                query_version@,
                Set::empty().insert(chunk),
            ));
        }
        assert(self@ =~= (HintData {
            hint_chunk_fetched: start.without_failed(
                buffer_id,
                query_version@,
                Set::empty().insert(chunk),
            ),
            ..start
        }));
    }

    /// Takes in the hints received for rows of a version of a buffer, and returns those to insert.
    pub(crate) fn receive_hints(
        &mut self,
        buffer_id: u64,
        query_version: &Global,
        new_hints: &Vec<ChunkHints>,
    ) -> (to_insert: Vec<(InlayId, Anchor)>)
        ensures
            (final(self)@, to_insert@) == old(self)@.hints_received(
                buffer_id,
                query_version@,
                new_hints@,
            ),
    {
        let ghost start = self@;
        let ghost version = query_version@;
        let mut to_insert: Vec<(InlayId, Anchor)> = Vec::new();
        let mut i: usize = 0;
        proof {
            assert(new_hints@.take(0) =~= Seq::empty());
            assert(start.fetched_for(buffer_id).1.difference(Set::empty())
                =~= start.fetched_for(buffer_id).1);
            assert(start.without_failed(buffer_id, version, Set::empty())
                =~= start.hint_chunk_fetched);
        }
        while i < new_hints.len()
            invariant
                i <= new_hints@.len(),
                version == query_version@,
                (self@.added_hints, to_insert@) == hints_added(
                    start.added_hints,
                    start.allowed_hint_kinds,
                    all_hints(new_hints@.take(i as int)),
                ),
                self@ == (HintData {
                    added_hints: self@.added_hints,
                    hint_chunk_fetched: start.without_failed(
                        buffer_id,
                        version,
                        failed_chunks(new_hints@.take(i as int)),
                    ),
                    ..start
                }),
            decreases new_hints@.len() - i,
        {
            let ghost so_far = all_hints(new_hints@.take(i as int));
            let ghost failed = failed_chunks(new_hints@.take(i as int));
            assert(new_hints@.take(i + 1).drop_last() =~= new_hints@.take(i as int));
            match &new_hints[i].hints {
                Some(hints) => {
                    let ghost fetched = self@.hint_chunk_fetched;
                    let mut j: usize = 0;
                    assert(so_far + hints@.take(0) =~= so_far);
                    while j < hints.len()
                        invariant
                            j <= hints@.len(),
                            (self@.added_hints, to_insert@) == hints_added(
                                start.added_hints,
                                start.allowed_hint_kinds,
                                so_far + hints@.take(j as int),
                            ),
                            self@ == (HintData {
                                added_hints: self@.added_hints,
                                hint_chunk_fetched: fetched,
                                ..start
                            }),
                        decreases hints@.len() - j,
                    {
                        self.receive_hint(&hints[j], &mut to_insert);
                        proof {
                            reveal_with_fuel(hints_added, 2);
                            let next = so_far + hints@.take(j + 1);
                            assert(next.drop_last() =~= so_far + hints@.take(j as int));
                            assert(next.last() == hints@[j as int]);
                            assert(seq![hints@[j as int]].drop_last() =~= Seq::empty());
                        }
                        j = j + 1;
                    }
                    assert(hints@.take(j as int) =~= hints@);
                },
                None => {
                    let chunk = new_hints[i].chunk;
                    self.drop_failed_chunk(buffer_id, query_version, chunk);
                    proof {
                        start.lemma_without_next_failed(buffer_id, version, failed, chunk);
                        assert(all_hints(new_hints@.take(i + 1)) =~= so_far);
                    }
                },
            }
            i = i + 1;
        }
        assert(new_hints@.take(i as int) =~= new_hints@);
        self.invalidate_hints_for_buffers.clear();
        assert(self@ =~= start.hints_received(buffer_id, version, new_hints@).0);
        to_insert
    }

    /// Lists the inlays to remove when hints of a buffer are received.
    pub(crate) fn removed_on_receipt(
        &self,
        buffer_id: u64,
        invalidate_cache: InvalidationStrategy,
        current_inlays: &Vec<Inlay>,
    ) -> (to_remove: Vec<InlayId>)
        ensures
            to_remove@ == self@.removed_on_receipt(buffer_id, invalidate_cache, current_inlays@),
    {
        let visible = Editor::visible_inlay_hints(current_inlays);
        let mut to_remove: Vec<InlayId> = Vec::new();
        if invalidate_cache.should_invalidate() {
            to_remove = ids_within_buffer(&visible, buffer_id);
        }
        if !self.invalidate_hints_for_buffers.is_empty() {
            append_not_outside(&mut to_remove, &visible, &self.invalidate_hints_for_buffers);
        }
        assert(to_remove@ =~= self@.removed_on_receipt(
            buffer_id,
            invalidate_cache,
            current_inlays@,
        ));
        to_remove
    }
}

} // verus!
