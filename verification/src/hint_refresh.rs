//! When an editor asks for inlay hints, for which rows, and what it does with the answers.

use std::collections::{HashMap, HashSet};
use std::ops::{ControlFlow, Range};
use vstd::prelude::*;

use crate::anchor::{anchored, spec_anchored, TextAnchor};
use crate::clock::Global;
use crate::editor::Editor;
use crate::inlay_hints::{
    awaited, inlay_ids, inlays_within, removal_of, splice_parts, ChunkHints, FetchedChunks,
    HintData, Inlay, InlayHintRefreshReason, InlaySplice, InvalidationStrategy, RefreshDecision,
    RefreshTask, RowRange,
};

verus! {

broadcast use vstd::std_specs::hash::group_hash_axioms;

/// A part of a buffer that the editor shows.
#[derive(Debug)]
pub struct VisibleExcerpt {
    pub buffer_id: u64,
    /// Identity of the buffer's language, if it has one.
    pub language: Option<u64>,
    pub version: Global,
    /// Byte offset in the buffer.
    pub start: usize,
    /// Byte offset in the buffer.
    pub end: usize,
}

/// A buffer of the editor and its language.
#[derive(Debug, Clone, Copy, PartialEq, Eq, Structural)]
pub struct BufferLanguage {
    pub buffer_id: u64,
    /// Identity of the buffer's language, if it has one.
    pub language: Option<u64>,
}

/// What the editor shows while hints are refreshed.
#[derive(Debug)]
pub struct RefreshContext {
    /// Tells the request that a refresh leads to from others.
    pub request_id: u64,
    pub current_inlays: Vec<Inlay>,
    pub visible_excerpts: Vec<VisibleExcerpt>,
    pub buffers: Vec<BufferLanguage>,
}

/// The parts of a buffer to ask hints for.
#[derive(Debug)]
pub struct BufferQuery {
    pub version: Global,
    pub ranges: Vec<Range<TextAnchor>>,
}

impl View for BufferQuery {
    type V = (Seq<u32>, Seq<Range<TextAnchor>>);

    open spec fn view(&self) -> (Seq<u32>, Seq<Range<TextAnchor>>) {
        (self.version@, self.ranges@)
    }
}

/// Which hints to ask for.
pub struct HintsQuery {
    pub task: RefreshTask,
    /// The buffers whose hints the provider is to forget first.
    pub invalidated_buffers: Option<Vec<u64>>,
    /// What to ask for, by buffer.
    pub buffers: HashMap<u64, BufferQuery>,
}

/// Which hints to ask for, as plain values.
#[verifier::ext_equal]
pub struct QueryParts {
    pub task: RefreshTask,
    pub invalidated_buffers: Option<Seq<u64>>,
    pub buffers: Map<u64, (Seq<u32>, Seq<Range<TextAnchor>>)>,
}

impl View for HintsQuery {
    type V = QueryParts;

    open spec fn view(&self) -> QueryParts {
        QueryParts {
            task: self.task,
            invalidated_buffers: match self.invalidated_buffers {
                Some(list) => Some(list@),
                None => None,
            },
            buffers: self.buffers@.map_values(|query: BufferQuery| query@),
        }
    }
}

/// What a refresh of the hints comes to.
pub struct RefreshPlan {
    /// A change of inlays that is due at once.
    pub splice: Option<InlaySplice>,
    /// Which hints to ask for.
    pub query: Option<HintsQuery>,
}

/// The language of a buffer, if the buffer is there and has one.
pub open spec fn spec_language_of(buffers: Seq<BufferLanguage>, buffer_id: u64) -> Option<u64>
    decreases buffers.len(),
{
    if buffers.len() == 0 {
        None
    } else if buffers[0].buffer_id == buffer_id {
        buffers[0].language
    } else {
        spec_language_of(buffers.skip(1), buffer_id)
    }
}

/// The buffers of a language.
pub open spec fn spec_buffers_in(buffers: Seq<BufferLanguage>, language: u64) -> Seq<u64> {
    buffers.filter(|buffer: BufferLanguage| buffer.language == Some(language)).map_values(
        |buffer: BufferLanguage| buffer.buffer_id,
    )
}

/// Whether hints are asked for an excerpt: its buffer must be registered, and of the language that
/// an edit affects, if there was one.
pub open spec fn is_queried(
    excerpt: VisibleExcerpt,
    registered: Set<u64>,
    affected: Option<u64>,
) -> bool {
    registered.contains(excerpt.buffer_id) && (affected is Some ==> excerpt.language == affected)
}

/// Whether the buffer of an excerpt is among given ones, with the same language.
pub open spec fn is_listed(excerpt: VisibleExcerpt, buffers: Seq<BufferLanguage>) -> bool {
    buffers.contains(
        BufferLanguage { buffer_id: excerpt.buffer_id, language: excerpt.language },
    )
}

/// The excerpts that hints are asked for.
pub open spec fn queried(
    excerpts: Seq<VisibleExcerpt>,
    registered: Set<u64>,
    affected: Option<u64>,
) -> Seq<VisibleExcerpt> {
    excerpts.filter(|excerpt: VisibleExcerpt| is_queried(excerpt, registered, affected))
}

/// The stretches of excerpts by buffer, with the version that the last excerpt of the buffer shows.
pub open spec fn by_buffer(excerpts: Seq<VisibleExcerpt>) -> Map<
    u64,
    (Seq<u32>, Seq<Range<TextAnchor>>),
>
    decreases excerpts.len(),
{
    if excerpts.len() == 0 {
        Map::empty()
    } else {
        let before = by_buffer(excerpts.drop_last());
        let excerpt = excerpts.last();
        let ranges = if before.contains_key(excerpt.buffer_id) {
            before[excerpt.buffer_id].1
        } else {
            Seq::empty()
        };
        before.insert(
            excerpt.buffer_id,
            (excerpt.version@, ranges.push(spec_anchored(excerpt.start, excerpt.end))),
        )
    }
}

impl InlayHintRefreshReason {
    /// Whether the user waits for the outcome, so that hints are asked for at once.
    pub open spec fn is_urgent(self) -> bool {
        match self {
            InlayHintRefreshReason::SettingsChange(_) => true,
            InlayHintRefreshReason::Toggle(_) => true,
            InlayHintRefreshReason::ExcerptsRemoved(_) => true,
            InlayHintRefreshReason::ModifiersChanged(_) => true,
            _ => false,
        }
    }

    /// Whether hints are asked for even where they were asked for before.
    pub open spec fn ignores_fetches(self) -> bool {
        match self {
            InlayHintRefreshReason::SettingsChange(_) => true,
            InlayHintRefreshReason::Toggle(_) => true,
            InlayHintRefreshReason::ModifiersChanged(_) => true,
            _ => false,
        }
    }
}

/// The request that a reason to refresh leads to.
pub open spec fn task_for(
    data: HintData,
    reason: InlayHintRefreshReason,
    strategy: InvalidationStrategy,
    id: u64,
) -> RefreshTask {
    RefreshTask {
        id,
        invalidate_cache: strategy,
        ignore_previous_fetches: reason.ignores_fetches(),
        debounce: if reason.is_urgent() {
            None
        } else if strategy.invalidates() {
            data.invalidate_debounce
        } else {
            data.append_debounce
        },
    }
}

/// The language that an edit affects.
pub open spec fn affected_language(
    reason: InlayHintRefreshReason,
    buffers: Seq<BufferLanguage>,
) -> Option<u64> {
    match reason {
        InlayHintRefreshReason::BufferEdited(buffer_id) => spec_language_of(buffers, buffer_id),
        _ => None,
    }
}

/// The state once hints are asked for, and which ones are. After an edit of a buffer without a
/// language none are.
pub open spec fn planned(
    data: HintData,
    registered: Set<u64>,
    reason: InlayHintRefreshReason,
    strategy: InvalidationStrategy,
    context: RefreshContext,
) -> (HintData, Option<QueryParts>) {
    let affected = affected_language(reason, context.buffers@);
    if reason is BufferEdited && affected is None {
        (data, None)
    } else {
        let invalidated = match affected {
            Some(language) => Some(spec_buffers_in(context.buffers@, language)),
            None => None,
        };
        let base = if strategy.invalidates() {
            data.cleared()
        } else {
            data
        };
        let next = match invalidated {
            Some(list) => HintData {
                invalidate_hints_for_buffers: base.invalidate_hints_for_buffers.union(
                    list.to_set(),
                ),
                ..base
            },
            None => base,
        };
        let query = QueryParts {
            task: task_for(data, reason, strategy, context.request_id),
            invalidated_buffers: invalidated,
            buffers: by_buffer(queried(context.visible_excerpts@, registered, affected)),
        };
        (next, Some(query))
    }
}

/// What a plan asks for, as plain values.
pub open spec fn query_parts(query: Option<HintsQuery>) -> Option<QueryParts> {
    match query {
        Some(query) => Some(query@),
        None => None,
    }
}

/// Whether a refresh for a reason takes an editor from one state to another and comes to a plan.
///
/// Only a full editor with hints and a provider does anything. The reason is dealt with first; where
/// that says so, hints are asked for.
pub open spec fn refreshes(
    before: Editor,
    reason: InlayHintRefreshReason,
    context: RefreshContext,
    after: Editor,
    plan: RefreshPlan,
) -> bool {
    &&& after == (Editor { inlay_hints: after.inlay_hints, ..before })
    &&& match before.inlay_hints {
        Some(data) if before.is_full && before.has_semantics_provider => {
            let (handled, removed, strategy) = data@.reason_handled(
                reason,
                context.current_inlays@,
            );
            let (next, query) = match strategy {
                Some(strategy) => planned(
                    handled,
                    before.registered_buffers@,
                    reason,
                    strategy,
                    context,
                ),
                None => (handled, None),
            };
            &&& after.inlay_hints matches Some(data) && data@ == next
            &&& splice_parts(plan.splice) == removal_of(removed)
            &&& query_parts(plan.query) == query
        },
        _ => {
            &&& after == before
            &&& plan.splice is None
            &&& plan.query is None
        },
    }
}

/// Finds the language of a buffer.
fn language_of(buffers: &Vec<BufferLanguage>, buffer_id: u64) -> (language: Option<u64>)
    ensures
        language == spec_language_of(buffers@, buffer_id),
{
    let mut i: usize = 0;
    assert(buffers@.skip(0) =~= buffers@);
    while i < buffers.len()
        invariant
            i <= buffers@.len(),
            spec_language_of(buffers@, buffer_id) == spec_language_of(
                buffers@.skip(i as int),
                buffer_id,
            ),
        decreases buffers@.len() - i,
    {
        if buffers[i].buffer_id == buffer_id {
            return buffers[i].language;
        }
        assert(buffers@.skip(i as int).skip(1) =~= buffers@.skip(i + 1));
        i = i + 1;
    }
    None
}

/// Lists the buffers of a language.
fn buffers_in(buffers: &Vec<BufferLanguage>, language: u64) -> (list: Vec<u64>)
    ensures
        list@ == spec_buffers_in(buffers@, language),
{
    let ghost wanted = |buffer: BufferLanguage| buffer.language == Some(language);
    let ghost id_of = |buffer: BufferLanguage| buffer.buffer_id;
    let mut list: Vec<u64> = Vec::new();
    let mut i: usize = 0;
    proof {
        reveal(Seq::filter);
        assert(buffers@.take(0) =~= Seq::<BufferLanguage>::empty());
        assert(list@ =~= buffers@.take(0).filter(wanted).map_values(id_of));
    }
    while i < buffers.len()
        invariant
            i <= buffers@.len(),
            wanted == |buffer: BufferLanguage| buffer.language == Some(language),
            id_of == |buffer: BufferLanguage| buffer.buffer_id,
            list@ == buffers@.take(i as int).filter(wanted).map_values(id_of),
        decreases buffers@.len() - i,
    {
        let ghost before = buffers@.take(i as int).filter(wanted);
        proof {
            reveal(Seq::filter);
            assert(buffers@.take(i + 1).drop_last() =~= buffers@.take(i as int));
        }
        let buffer = buffers[i];
        if is_language(buffer.language, language) {
            list.push(buffer.buffer_id);
            assert(list@ =~= before.push(buffer).map_values(id_of));
        }
        i = i + 1;
    }
    assert(buffers@.take(i as int) =~= buffers@);
    list
}

fn is_language(language: Option<u64>, wanted: u64) -> (result: bool)
    ensures
        result == (language == Some(wanted)),
{
    match language {
        Some(language) => language == wanted,
        None => false,
    }
}

/// Gathers by buffer the excerpts that hints are asked for.
fn gather_queries(
    excerpts: &Vec<VisibleExcerpt>,
    registered: &HashSet<u64>,
    affected: Option<u64>,
) -> (buffers: HashMap<u64, BufferQuery>)
    ensures
        buffers@.map_values(|query: BufferQuery| query@) == by_buffer(
            queried(excerpts@, registered@, affected),
        ),
{
    let ghost wanted = |excerpt: VisibleExcerpt| is_queried(excerpt, registered@, affected);
    let ghost parts = |query: BufferQuery| query@;
    let mut buffers: HashMap<u64, BufferQuery> = HashMap::new();
    let mut i: usize = 0;
    proof {
        reveal(Seq::filter);
        assert(excerpts@.take(0) =~= Seq::<VisibleExcerpt>::empty());
        assert(buffers@.map_values(parts) =~= by_buffer(excerpts@.take(0).filter(wanted)));
    }
    while i < excerpts.len()
        invariant
            i <= excerpts@.len(),
            wanted == |excerpt: VisibleExcerpt| is_queried(excerpt, registered@, affected),
            parts == |query: BufferQuery| query@,
            buffers@.map_values(parts) == by_buffer(excerpts@.take(i as int).filter(wanted)),
        decreases excerpts@.len() - i,
    {
        let ghost before = excerpts@.take(i as int).filter(wanted);
        let ghost gathered = buffers@.map_values(parts);
        proof {
            reveal(Seq::filter);
            assert(excerpts@.take(i + 1).drop_last() =~= excerpts@.take(i as int));
            assert(before.push(excerpts@[i as int]).drop_last() =~= before);
        }
        let excerpt = &excerpts[i];
        let of_language = match affected {
            Some(language) => is_language(excerpt.language, language),
            None => true,
        };
        if of_language && registered.contains(&excerpt.buffer_id) {
            let mut query = match buffers.remove(&excerpt.buffer_id) {
                Some(query) => query,
                None => BufferQuery { version: excerpt.version.clone(), ranges: Vec::new() },
            };
            let ghost ranges = query.ranges@;
            query.version = excerpt.version.clone();
            query.ranges.push(anchored(excerpt.start, excerpt.end));
            buffers.insert(excerpt.buffer_id, query);
            assert(buffers@.map_values(parts) =~= gathered.insert(
                excerpt.buffer_id,
                (excerpt.version@, ranges.push(spec_anchored(excerpt.start, excerpt.end))),
            ));
        }
        i = i + 1;
    }
    assert(excerpts@.take(i as int) =~= excerpts@);
    buffers
}

impl Editor {
    /// Deals with a reason to refresh, as far as no hints need to be asked for.
    pub fn refresh_editor_data(
        &mut self,
        reason: &InlayHintRefreshReason,
        current_inlays: &Vec<Inlay>,
    ) -> (decision: RefreshDecision)
        ensures
            *final(self) == (Editor { inlay_hints: final(self).inlay_hints, ..*old(self) }),
            match old(self).inlay_hints {
                Some(data) => {
                    let (next, removed, strategy) = data@.reason_handled(*reason, current_inlays@);
                    &&& final(self).inlay_hints matches Some(data) && data@ == next
                    &&& splice_parts(decision.splice) == removal_of(removed)
                    &&& decision.invalidate_cache == strategy
                },
                None => {
                    &&& final(self).inlay_hints is None
                    &&& decision.splice is None
                    &&& decision.invalidate_cache is None
                },
            },
    {
        let mut data = match self.inlay_hints.take() {
            Some(data) => data,
            None => {
                return RefreshDecision { splice: None, invalidate_cache: None };
            },
        };
        let mut splice: Option<InlaySplice> = None;
        let mut invalidate_cache: Option<InvalidationStrategy> = None;
        match reason {
            InlayHintRefreshReason::ModifiersChanged(held) => {
                match data.modifiers_override(*held) {
                    Some(shown) => {
                        if shown {
                            invalidate_cache = Some(InvalidationStrategy::Keep);
                        } else {
                            self.inlay_hints = Some(data);
                            let splice = self.clear_inlay_hints(current_inlays);
                            return RefreshDecision { splice: Some(splice), invalidate_cache: None };
                        }
                    },
                    None => {},
                }
            },
            InlayHintRefreshReason::Toggle(enabled) => {
                if data.toggle(*enabled) {
                    if *enabled {
                        invalidate_cache = Some(InvalidationStrategy::Keep);
                    } else {
                        self.inlay_hints = Some(data);
                        let splice = self.clear_inlay_hints(current_inlays);
                        return RefreshDecision { splice: Some(splice), invalidate_cache: None };
                    }
                }
            },
            InlayHintRefreshReason::SettingsChange(settings) => {
                let visible = Self::visible_inlay_hints(current_inlays);
                match data.update_settings(*settings, &visible) {
                    ControlFlow::Break(change) => {
                        splice = change;
                    },
                    ControlFlow::Continue(change) => {
                        splice = change;
                        invalidate_cache = Some(InvalidationStrategy::Keep);
                    },
                }
            },
            InlayHintRefreshReason::ExcerptsRemoved(excerpts) => {
                let to_remove = inlay_ids(&inlays_within(current_inlays, excerpts));
                splice = Some(InlaySplice { to_remove, to_insert: Vec::new() });
            },
            InlayHintRefreshReason::NewLinesShown => {
                if data.is_enabled() {
                    invalidate_cache = Some(InvalidationStrategy::Keep);
                }
            },
            InlayHintRefreshReason::BufferEdited(_) => {
                if data.is_enabled() {
                    invalidate_cache = Some(InvalidationStrategy::BufferEdited);
                }
            },
            InlayHintRefreshReason::RefreshRequested(server_id) => {
                if data.is_enabled() {
                    invalidate_cache = Some(InvalidationStrategy::RefreshRequested(*server_id));
                }
            },
        }
        self.inlay_hints = Some(data);
        RefreshDecision { splice, invalidate_cache }
    }

    /// Plans how the hints of what is visible are updated. Depending on the reason, what is known of
    /// them is forgotten, or is added to.
    pub fn refresh_inlay_hints(
        &mut self,
        reason: InlayHintRefreshReason,
        context: &RefreshContext,
    ) -> (plan: RefreshPlan)
        ensures
            refreshes(*old(self), reason, *context, *final(self), plan),
    {
        if !self.is_full || self.inlay_hints.is_none() || !self.has_semantics_provider {
            return RefreshPlan { splice: None, query: None };
        }
        let decision = self.refresh_editor_data(&reason, &context.current_inlays);
        let strategy = match decision.invalidate_cache {
            Some(strategy) => strategy,
            None => {
                return RefreshPlan { splice: decision.splice, query: None };
            },
        };
        let mut data = match self.inlay_hints.take() {
            Some(data) => data,
            None => {
                return RefreshPlan { splice: decision.splice, query: None };
            },
        };
        let ghost handled = data@;
        let debounce = match &reason {
            InlayHintRefreshReason::SettingsChange(_)
            | InlayHintRefreshReason::Toggle(_)
            | InlayHintRefreshReason::ExcerptsRemoved(_)
            | InlayHintRefreshReason::ModifiersChanged(_) => None,
            _ => data.debounce(strategy),
        };
        let mut invalidated: Option<Vec<u64>> = None;
        let mut affected: Option<u64> = None;
        let ignore_previous_fetches = match &reason {
            InlayHintRefreshReason::ModifiersChanged(_)
            | InlayHintRefreshReason::Toggle(_)
            | InlayHintRefreshReason::SettingsChange(_) => true,
            InlayHintRefreshReason::NewLinesShown
            | InlayHintRefreshReason::RefreshRequested(_)
            | InlayHintRefreshReason::ExcerptsRemoved(_) => false,
            InlayHintRefreshReason::BufferEdited(buffer_id) => {
                let language = match language_of(&context.buffers, *buffer_id) {
                    Some(language) => language,
                    None => {
                        self.inlay_hints = Some(data);
                        return RefreshPlan { splice: decision.splice, query: None };
                    },
                };
                affected = Some(language);
                invalidated = Some(buffers_in(&context.buffers, language));
                false
            },
        };
        if strategy.should_invalidate() {
            data.clear();
        }
        if let Some(list) = &invalidated {
            data.invalidate_buffers(list);
        }
        self.inlay_hints = Some(data);
        let buffers = gather_queries(
            &context.visible_excerpts,
            &self.registered_buffers,
            affected,
        );
        let task = RefreshTask {
            id: context.request_id,
            invalidate_cache: strategy,
            ignore_previous_fetches,
            debounce,
        };
        let query = HintsQuery { task, invalidated_buffers: invalidated, buffers };
        proof {
            let expected = planned(
                handled,
                self.registered_buffers@,
                reason,
                strategy,
                *context,
            );
            assert(data@ =~= expected.0);
            assert(query@ =~= expected.1->0);
        }
        RefreshPlan { splice: decision.splice, query: Some(query) }
    }

    /// Switches hints on if they are off, and off if they are on.
    pub fn toggle_inlay_hints(&mut self, context: &RefreshContext) -> (plan: RefreshPlan)
        ensures
            refreshes(
                *old(self),
                InlayHintRefreshReason::Toggle(!old(self).hints_enabled()),
                *context,
                *final(self),
                plan,
            ),
    {
        let enabled = self.inlay_hints_enabled();
        self.refresh_inlay_hints(InlayHintRefreshReason::Toggle(!enabled), context)
    }

    /// Considers a request for the hints of a buffer. Given the rows that it comes to, unless the buffer
    /// is gone, returns whether to make it.
    pub fn schedule_hints_refresh(
        &mut self,
        buffer_id: u64,
        query: &BufferQuery,
        applicable_chunks: Option<Vec<RowRange>>,
        task: RefreshTask,
    ) -> (made: bool)
        ensures
            *final(self) == (Editor { inlay_hints: final(self).inlay_hints, ..*old(self) }),
            match (old(self).inlay_hints, applicable_chunks) {
                (Some(data), Some(chunks)) => {
                    let (next, expected) = data@.scheduled(
                        buffer_id,
                        query.version@,
                        chunks@,
                        task,
                    );
                    &&& final(self).inlay_hints matches Some(data) && data@ == next
                    &&& made == expected
                },
                _ => *final(self) == *old(self) && !made,
            },
    {
        let chunks = match applicable_chunks {
            Some(chunks) => chunks,
            None => {
                return false;
            },
        };
        match self.inlay_hints.take() {
            Some(mut data) => {
                let made = data.schedule(buffer_id, &query.version, chunks, task);
                self.inlay_hints = Some(data);
                made
            },
            None => false,
        }
    }

    /// Tells whether a request that was made is still wanted. It is not once the hints are forgotten, the
    /// buffer is removed or its rows are asked for in a newer version.
    pub fn is_request_wanted(&self, buffer_id: u64, chunks: &Vec<RowRange>, id: u64) -> (result:
        bool)
        ensures
            result == (self.inlay_hints matches Some(data) && data@.records(
                buffer_id,
                chunks@,
                id,
            )),
    {
        match &self.inlay_hints {
            Some(data) => data.records_request(buffer_id, chunks, id),
            None => false,
        }
    }

    /// What the provider is told of the rows of a buffer fetched before. Without a provider or hints,
    /// it is not asked at all.
    pub fn known_inlay_chunks(
        &self,
        buffer_id: u64,
        invalidate_cache: InvalidationStrategy,
        ignore_previous_fetches: bool,
    ) -> (known: Option<Option<FetchedChunks>>)
        ensures
            match self.inlay_hints {
                Some(data) if self.has_semantics_provider => {
                    match data@.known_chunks(buffer_id, invalidate_cache, ignore_previous_fetches) {
                        Some(expected) => known matches Some(Some(chunks)) && chunks@ == expected,
                        None => known matches Some(None),
                    }
                },
                _ => known is None,
            },
    {
        if !self.has_semantics_provider {
            return None;
        }
        match &self.inlay_hints {
            Some(data) => Some(
                data.known_chunks(buffer_id, invalidate_cache, ignore_previous_fetches),
            ),
            None => None,
        }
    }

    /// Takes note of the rows of a buffer that the provider answers for, and returns the indices of
    /// those whose hints to await.
    pub fn inlay_hints_for_buffer(
        &mut self,
        buffer_id: u64,
        query: &BufferQuery,
        invalidate_cache: InvalidationStrategy,
        ignore_previous_fetches: bool,
        answered: Option<Vec<RowRange>>,
    ) -> (hint_tasks: Option<Vec<usize>>)
        ensures
            *final(self) == (Editor { inlay_hints: final(self).inlay_hints, ..*old(self) }),
            match old(self).inlay_hints {
                Some(data) if old(self).has_semantics_provider => {
                    let rows = match answered {
                        Some(rows) => rows@,
                        None => Seq::empty(),
                    };
                    &&& final(self).inlay_hints matches Some(next)
                    &&& next@ == data@.chunks_registered(buffer_id, query.version@, rows)
                    &&& hint_tasks matches Some(indices)
                    &&& indices@.map_values(|index: usize| index as int) == awaited(
                        data@.fetched_at(buffer_id, query.version@).1,
                        rows,
                        ignore_previous_fetches || invalidate_cache.invalidates(),
                    )
                },
                _ => *final(self) == *old(self) && hint_tasks is None,
            },
    {
        if !self.has_semantics_provider {
            return None;
        }
        let rows = match answered {
            Some(rows) => rows,
            None => Vec::new(),
        };
        match self.inlay_hints.take() {
            Some(mut data) => {
                let all = ignore_previous_fetches || invalidate_cache.should_invalidate();
                let indices = data.register_chunks(buffer_id, &query.version, &rows, all);
                self.inlay_hints = Some(data);
                Some(indices)
            },
            None => None,
        }
    }

    /// Takes in the hints received for a version of a buffer, and returns the change of inlays that
    /// they come to.
    pub fn apply_fetched_hints(
        &mut self,
        buffer_id: u64,
        query_version: &Global,
        invalidate_cache: InvalidationStrategy,
        new_hints: &Vec<ChunkHints>,
        current_inlays: &Vec<Inlay>,
    ) -> (splice: Option<InlaySplice>)
        ensures
            *final(self) == (Editor { inlay_hints: final(self).inlay_hints, ..*old(self) }),
            match old(self).inlay_hints {
                Some(data) => {
                    let removed = data@.removed_on_receipt(
                        buffer_id,
                        invalidate_cache,
                        current_inlays@,
                    );
                    let (next, inserted) = data@.hints_received(
                        buffer_id,
                        query_version@,
                        new_hints@,
                    );
                    &&& final(self).inlay_hints matches Some(data) && data@ == next
                    &&& splice_parts(splice) == Some((removed, inserted))
                },
                None => *final(self) == *old(self) && splice is None,
            },
    {
        match self.inlay_hints.take() {
            Some(mut data) => {
                let to_remove = data.removed_on_receipt(
                    buffer_id,
                    invalidate_cache,
                    current_inlays,
                );
                let to_insert = data.receive_hints(buffer_id, query_version, new_hints);
                self.inlay_hints = Some(data);
                Some(InlaySplice { to_remove, to_insert })
            },
            None => None,
        }
    }
}

/// What to do next for a request that is made.
#[derive(Debug)]
pub enum RefreshStep {
    /// Wait for some milliseconds, and ask the provider then.
    WaitAndQuery(u64),
    Query,
    /// Await the provider's answers of these indices, and apply them.
    Await(Vec<usize>),
    Done,
}

/// What a request starts with.
pub fn first_refresh_step(task: &RefreshTask) -> (step: RefreshStep)
    ensures
        step == match task.debounce {
            Some(debounce) => RefreshStep::WaitAndQuery(debounce),
            None => RefreshStep::Query,
        },
{
    match task.debounce {
        Some(debounce) => RefreshStep::WaitAndQuery(debounce),
        None => RefreshStep::Query,
    }
}

/// What to do once the provider was asked: await the answers, if there are any to await.
pub fn step_after_query(hint_tasks: Option<Vec<usize>>) -> (step: RefreshStep)
    ensures
        step == match hint_tasks {
            Some(indices) if indices@.len() > 0 => RefreshStep::Await(indices),
            _ => RefreshStep::Done,
        },
{
    match hint_tasks {
        Some(indices) => {
            if indices.len() > 0 {
                RefreshStep::Await(indices)
            } else {
                RefreshStep::Done
            }
        },
        None => RefreshStep::Done,
    }
}

} // verus!
