//! What holds of what the pointer asks for: links, files, brackets and popovers.

use std::ops::Range;
use vstd::prelude::*;

use crate::anchor::{anchored, Anchor, Bias, TextAnchor};
use crate::brackets::{BracketPair, Selection};
use crate::editor::Editor;
use crate::file_links::{
    file_candidates, filename_scan_in_limit, is_name_range,
    law_filename_between_delimiters_is_found, law_name_itself_is_tried_first, read_between,
    spec_file_candidates, surrounding_filename, texts, FileSearch, FileStep, ResolvedPath,
};
use crate::hover_links::{
    exclude_link_to_position, find_references_after_click, links_to_follow, show_link_definition,
    spec_links_to_follow, ClickReveal, Definition, GoToDefinitionFallback, GotoDefinitionKind,
    HoverAction, HoverLink, LinkHighlight, LinkPlace, LinkResult, LinkSearch, LinkStep,
    LocationLink, Modifiers, Navigated, RangeInEditor, ScrollTarget, TriggerPoint,
};
use crate::link_laws::{
    is_known, law_first_known_origin_is_taken, law_first_stretch_at_the_selection_is_found,
    law_no_known_origin, law_no_stretch_at_the_selection,
};
use crate::text::{
    byte_len, index_of, lemma_byte_len_subrange, lemma_index_of, spec_is_whitespace, text_between,
    BufferSnapshot,
};
use crate::url_links::{
    all_whitespace, find_url, find_url_from_range, is_run, law_no_url_elsewhere,
    law_selected_whitespace_is_no_url, law_selection_is_a_url_but_for_whitespace,
    law_short_run_is_the_token, law_url_touching_the_position_is_found, link_in_text, spans_text,
    url_at, url_links, url_scan_in_limit,
};

verus! {

/// Whether a link found in a run that starts at one index touches a position at another.
pub open spec fn touches_in_run(chars: Seq<char>, start: int, index: int, link: (usize, usize)) -> bool {
    link.0 <= byte_len(chars.take(index)) - byte_len(chars.take(start)) <= link.1
}

/// Whether, of the links found in a run around an index, the one of a given number is the first that
/// touches the index.
pub open spec fn is_first_touching(
    chars: Seq<char>,
    start: int,
    index: int,
    end: int,
    k: int,
) -> bool {
    let links = url_links(chars.subrange(start, end));
    &&& 0 <= k < links.len()
    &&& link_in_text(chars.subrange(start, end), links[k])
    &&& touches_in_run(chars, start, index, links[k])
    &&& forall|j: int| 0 <= j < k ==> !touches_in_run(chars, start, index, #[trigger] links[j])
}

/// A found URL is the first link of the run around the position that touches the position, with the text
/// that the buffer has there. Its ends stick to the outer sides. This holds whatever ends a run of fewer
/// than 2048 bytes: any whitespace, or an end of the buffer.
pub proof fn law_found_url(
    snapshot: &BufferSnapshot,
    offset: usize,
    found: Option<(Range<TextAnchor>, String)>,
    start: int,
    index: int,
    end: int,
    k: int,
)
    requires
        call_ensures(find_url, (snapshot, offset), found),
        is_run(snapshot@, start, index, end),
        byte_len(snapshot@.take(index)) == offset,
        byte_len(snapshot@.subrange(start, end)) < 2048,
        is_first_touching(snapshot@, start, index, end, k),
    ensures
        ({
            let link = url_links(snapshot@.subrange(start, end))[k];
            let base = byte_len(snapshot@.take(start));
            &&& found is Some
            &&& (found->0).0.start.offset == base + link.0
            &&& (found->0).0.start.bias == Bias::Left
            &&& (found->0).0.end.offset == base + link.1
            &&& (found->0).0.end.bias == Bias::Right
            &&& (found->0).1@ == text_between(snapshot@, base + link.0, base + link.1)
        }),
{
    let links = url_links(snapshot@.subrange(start, end));
    let relative = byte_len(snapshot@.take(index)) - byte_len(snapshot@.take(start));
    assert forall|j: int| 0 <= j < k implies !((#[trigger] links[j]).0 <= relative
        <= links[j].1) by {
        assert(!touches_in_run(snapshot@, start, index, links[j]));
    }
    lemma_index_of(snapshot@, index);
    law_url_touching_the_position_is_found(snapshot@, start, index, end, k);
}

/// No URL is found where no link of the run around the position touches the position.
pub proof fn law_no_found_url(
    snapshot: &BufferSnapshot,
    offset: usize,
    found: Option<(Range<TextAnchor>, String)>,
    start: int,
    index: int,
    end: int,
)
    requires
        call_ensures(find_url, (snapshot, offset), found),
        is_run(snapshot@, start, index, end),
        byte_len(snapshot@.take(index)) == offset,
        byte_len(snapshot@.subrange(start, end)) < 2048,
        forall|j: int|
            0 <= j < url_links(snapshot@.subrange(start, end)).len() ==> !touches_in_run(
                snapshot@,
                start,
                index,
                #[trigger] url_links(snapshot@.subrange(start, end))[j],
            ),
    ensures
        found is None,
{
    let links = url_links(snapshot@.subrange(start, end));
    let relative = byte_len(snapshot@.take(index)) - byte_len(snapshot@.take(start));
    assert forall|j: int| 0 <= j < links.len() implies !((#[trigger] links[j]).0 <= relative
        <= links[j].1) by {
        assert(!touches_in_run(snapshot@, start, index, links[j]));
    }
    lemma_index_of(snapshot@, index);
    law_short_run_is_the_token(snapshot@, start, index, end);
    law_no_url_elsewhere(snapshot@, start, index, end);
}

/// A run can be scanned exactly if not more than 2048 bytes of it stand before the position, or if at
/// least as many characters of it do, in which case the scan gives up before its start.
pub proof fn law_scanned_runs(
    snapshot: &BufferSnapshot,
    offset: usize,
    result: bool,
    start: int,
    index: int,
    end: int,
)
    requires
        call_ensures(url_scan_in_limit, (snapshot, offset), result),
        is_run(snapshot@, start, index, end),
        byte_len(snapshot@.take(index)) == offset,
    ensures
        result <==> byte_len(snapshot@.subrange(start, index)) <= 2048 || index - start >= 2048
            && index > 2048,
{
    lemma_index_of(snapshot@, index);
    crate::url_links::lemma_run_before_reaches(snapshot@, start, index, 2048);
    if index == 2048 && index - start >= 2048 {
        assert(start == 0);
    }
}

/// Among given links the first that touches the offset is taken, moved by where the token starts, and with
/// its own text.
pub proof fn law_url_among_given_links(
    token: &Vec<char>,
    links: &Vec<(usize, usize)>,
    base: usize,
    relative: usize,
    found: Option<(Range<usize>, String)>,
    k: int,
)
    requires
        call_ensures(url_at, (token, links, base, relative), found),
        0 <= k < links@.len(),
        links@[k].0 <= relative <= links@[k].1,
        forall|j: int| 0 <= j < k ==> !((#[trigger] links@[j]).0 <= relative <= links@[j].1),
    ensures
        found is Some,
        (found->0).0.start == base + links@[k].0,
        (found->0).0.end == base + links@[k].1,
        (found->0).1@ == text_between(token@, links@[k].0 as int, links@[k].1 as int),
{
    crate::url_links::law_first_touching_link_is_taken(
        token@,
        links@,
        base as int,
        relative as int,
        k,
    );
}

/// None is taken where none touches the offset.
pub proof fn law_no_url_among_given_links(
    token: &Vec<char>,
    links: &Vec<(usize, usize)>,
    base: usize,
    relative: usize,
    found: Option<(Range<usize>, String)>,
)
    requires
        call_ensures(url_at, (token, links, base, relative), found),
        forall|j: int|
            0 <= j < links@.len() ==> !((#[trigger] links@[j]).0 <= relative <= links@[j].1),
    ensures
        found is None,
{
    crate::url_links::law_links_elsewhere_are_not_taken(
        token@,
        links@,
        base as int,
        relative as int,
    );
}

/// The first link alone decides whether links span a text.
pub proof fn law_spanning_link(links: &Vec<(usize, usize)>, bytes: usize, result: bool)
    requires
        call_ensures(spans_text, (links, bytes), result),
    ensures
        links@.len() == 0 ==> !result,
        links@.len() > 0 ==> result == (links@[0] == (0usize, bytes)),
{
}

/// A selection of fewer than 2048 bytes is a URL exactly if the first link of its text, without the
/// whitespace around it, is all of that text. It does not matter which end of the selection comes first.
pub proof fn law_selected_url(
    snapshot: &BufferSnapshot,
    range: Range<usize>,
    found: Option<String>,
    from: int,
    to: int,
    lead: Seq<char>,
    text: Seq<char>,
    trail: Seq<char>,
)
    requires
        call_ensures(find_url_from_range, (snapshot, range), found),
        0 <= from <= to <= snapshot@.len(),
        ({
            let first = byte_len(snapshot@.take(from));
            let last = byte_len(snapshot@.take(to));
            range.start == first && range.end == last || range.start == last && range.end == first
        }),
        snapshot@.subrange(from, to) == lead + text + trail,
        all_whitespace(lead),
        all_whitespace(trail),
        text.len() > 0 ==> !spec_is_whitespace(text[0]) && !spec_is_whitespace(text.last()),
    ensures
        found is Some <==> {
            let links = url_links(text);
            &&& text.len() > 0
            &&& byte_len(snapshot@.subrange(from, to)) < 2048
            &&& links.len() > 0
            &&& links[0].0 == 0
            &&& links[0].1 == byte_len(text)
        },
        found is Some ==> found->0@ == text,
{
    lemma_index_of(snapshot@, from);
    lemma_index_of(snapshot@, to);
    if text.len() > 0 {
        law_selection_is_a_url_but_for_whitespace(snapshot@, from, to, lead, text, trail);
    } else {
        let selected = snapshot@.subrange(from, to);
        assert forall|i: int| 0 <= i < selected.len() implies spec_is_whitespace(
            #[trigger] selected[i],
        ) by {
            if i < lead.len() {
                assert(selected[i] == lead[i]);
            } else {
                assert(selected[i] == trail[i - lead.len()]);
            }
        }
        law_selected_whitespace_is_no_url(snapshot@, from, to);
    }
}

/// A file name is what its range holds without quotation marks and escaping backslashes, where the range
/// reaches from delimiter to delimiter and is shorter than 2048 bytes. The ends of the range stick to the
/// outer sides.
pub proof fn law_found_filename(
    snapshot: &BufferSnapshot,
    offset: usize,
    found: Option<(Range<TextAnchor>, String)>,
    start: int,
    index: int,
    end: int,
)
    requires
        call_ensures(surrounding_filename, (snapshot, offset), found),
        is_name_range(snapshot@, start, index, end),
        byte_len(snapshot@.take(index)) == offset,
        byte_len(snapshot@.subrange(start, end)) < 2048,
    ensures
        ({
            let name = read_between(snapshot@, start, end, end);
            &&& found is Some <==> name.len() > 0
            &&& found matches Some((range, text)) ==> {
                &&& range.start.offset == byte_len(snapshot@.take(start))
                &&& range.start.bias == Bias::Left
                &&& range.end.offset == byte_len(snapshot@.take(end))
                &&& range.end.bias == Bias::Right
                &&& text@ == name
            }
        }),
{
    lemma_index_of(snapshot@, index);
    law_filename_between_delimiters_is_found(snapshot@, start, index, end);
}

/// A file name whose range is shorter than 2048 bytes can be scanned for.
pub proof fn law_scanned_filenames(
    snapshot: &BufferSnapshot,
    offset: usize,
    result: bool,
    start: int,
    index: int,
    end: int,
)
    requires
        call_ensures(filename_scan_in_limit, (snapshot, offset), result),
        is_name_range(snapshot@, start, index, end),
        byte_len(snapshot@.take(index)) == offset,
    ensures
        byte_len(snapshot@.subrange(start, end)) < 2048 ==> result,
        index - start < 2048 && byte_len(snapshot@.subrange(start, index)) > 2048 ==> !result,
{
    lemma_index_of(snapshot@, index);
    lemma_byte_len_subrange(snapshot@, start, index);
    if byte_len(snapshot@.subrange(start, end)) < 2048 {
        law_filename_between_delimiters_is_found(snapshot@, start, index, end);
    }
    if index - start < 2048 {
        crate::file_links::lemma_back_reaches(snapshot@, start, index, 2048);
    }
}

/// A search for a file starts exactly if there are a project and a file name. It keeps the range of the
/// name, and begins with the name itself.
pub proof fn law_started_file_search(
    has_project: bool,
    snapshot: &BufferSnapshot,
    offset: usize,
    suffixes: &Vec<String>,
    search: Option<FileSearch>,
    start: int,
    index: int,
    end: int,
)
    requires
        call_ensures(FileSearch::start, (has_project, snapshot, offset, suffixes), search),
        byte_len(snapshot@) <= usize::MAX,
        is_name_range(snapshot@, start, index, end),
        byte_len(snapshot@.take(index)) == offset,
        byte_len(snapshot@.subrange(start, end)) < 2048,
    ensures
        ({
            let name = read_between(snapshot@, start, end, end);
            &&& search is Some <==> has_project && name.len() > 0
            &&& search matches Some(search) ==> {
                &&& search.range.start.offset == byte_len(snapshot@.take(start))
                &&& search.range.start.bias == Bias::Left
                &&& search.range.end.offset == byte_len(snapshot@.take(end))
                &&& search.range.end.bias == Bias::Right
                &&& search.next == 0
                &&& search.candidates@.len() > 0
                &&& search.candidates@[0]@ == name
                &&& texts(search.candidates@) == spec_file_candidates(name, texts(suffixes@))
            }
        }),
{
    let name = read_between(snapshot@, start, end, end);
    lemma_index_of(snapshot@, index);
    lemma_index_of(snapshot@, start);
    lemma_index_of(snapshot@, end);
    law_filename_between_delimiters_is_found(snapshot@, start, index, end);
    law_name_itself_is_tried_first(name, texts(suffixes@));
    if search is Some {
        assert(texts(search->0.candidates@)[0] == name);
    }
}

/// The candidates for a name begin with the name, as it is.
pub proof fn law_listed_candidates(name: &str, suffixes: &Vec<String>, candidates: Vec<String>)
    requires
        call_ensures(file_candidates, (name, suffixes), candidates),
    ensures
        candidates@.len() > 0,
        candidates@[0]@ == name@,
        texts(candidates@) == spec_file_candidates(name@, texts(suffixes@)),
        suffixes@.len() == 0 ==> candidates@.len() == 1,
{
    law_name_itself_is_tried_first(name@, texts(suffixes@));
    assert(texts(candidates@)[0] == name@);
    assert(texts(candidates@).len() == candidates@.len());
}

/// A search ends with the first answer that is a file, and goes on to the next candidate with any other
/// answer, until there is none left. The candidates stay.
pub proof fn law_answered_file_search(
    search: &mut FileSearch,
    resolved: Option<ResolvedPath>,
    step: FileStep,
)
    requires
        call_ensures(FileSearch::answer, (search, resolved), step),
        old(search).next < old(search).candidates@.len(),
    ensures
        step is Found <==> resolved is Some && !resolved->0.is_dir,
        step is Found ==> Some(step->Found_0) == resolved,
        step is Check <==> !(step is Found) && old(search).next + 1 < old(search).candidates@.len(),
        step is Check ==> step->Check_0 == old(search).next + 1 && final(search).next
            == step->Check_0,
        final(search).candidates == old(search).candidates,
        final(search).range == old(search).range,
{
}

/// What is not a directory is a file.
pub proof fn law_files(path: &ResolvedPath, result: bool)
    requires
        call_ensures(ResolvedPath::is_file, (path,), result),
    ensures
        result <==> !path.is_dir,
{
}

/// Anchors around a stretch keep its offsets and stick to the outer sides.
pub proof fn law_anchored(start: usize, end: usize, range: Range<TextAnchor>)
    requires
        call_ensures(anchored, (start, end), range),
    ensures
        range.start.offset == start && range.start.bias == Bias::Left,
        range.end.offset == end && range.end.bias == Bias::Right,
{
}

/// Anchors are ordered by offset, and at one offset those that stick to the left come first. The order is
/// total, and only anchors that are alike come before each other. To stick to the right keeps the offset.
pub proof fn law_order_of_anchors(
    a: &TextAnchor,
    b: &TextAnchor,
    forth: bool,
    back: bool,
    right: TextAnchor,
)
    requires
        call_ensures(TextAnchor::le, (a, b), forth),
        call_ensures(TextAnchor::le, (b, a), back),
        call_ensures(TextAnchor::bias_right, (a,), right),
    ensures
        forth || back,
        forth && back <==> *a == *b,
        a.offset < b.offset ==> forth && !back,
        a.offset == b.offset && a.bias == Bias::Left ==> forth,
        right.offset == a.offset && right.bias == Bias::Right,
{
}

/// A link leads elsewhere exactly if its target does not hold the position.
pub proof fn law_excluded_link(
    buffer: u64,
    position: &TextAnchor,
    location: &LocationLink,
    result: bool,
)
    requires
        call_ensures(exclude_link_to_position, (buffer, position, location), result),
    ensures
        ({
            let start = location.target.range.start;
            let end = location.target.range.end;
            result <==> {
                ||| location.target.buffer != buffer
                ||| position.offset < start.offset
                ||| position.offset > end.offset
                ||| position.offset == end.offset && position.bias == Bias::Right && end.bias
                    == Bias::Left
            }
        }),
{
}

/// Every link that does not lead back to the position is followed, and no other.
pub proof fn law_followed_links(
    links: &Vec<HoverLink>,
    buffer: u64,
    position: &TextAnchor,
    kept: Vec<HoverLink>,
    link: HoverLink,
    location: LocationLink,
    elsewhere: bool,
)
    requires
        call_ensures(links_to_follow, (links, buffer, position), kept),
        call_ensures(exclude_link_to_position, (buffer, position, &location), elsewhere),
        link is Text ==> link->Text_0 == location,
    ensures
        kept@.contains(link) <==> links@.contains(link) && (link is Text ==> elsewhere),
        kept@ == spec_links_to_follow(links@, buffer, *position),
{
    lemma_followed(links@, buffer, *position, link);
}

proof fn lemma_followed(links: Seq<HoverLink>, buffer: u64, position: TextAnchor, link: HoverLink)
    ensures
        spec_links_to_follow(links, buffer, position).contains(link) <==> links.contains(link) && (
        link matches HoverLink::Text(location) ==> crate::hover_links::spec_leads_elsewhere(
            buffer,
            position,
            location,
        )),
    decreases links.len(),
{
    reveal(Seq::filter);
    if links.len() > 0 {
        let before = links.drop_last();
        let last = links.last();
        lemma_followed(before, buffer, position, link);
        assert(links[links.len() - 1] == last);
        assert(links.contains(link) <==> before.contains(link) || last == link) by {
            if links.contains(link) {
                let i = choose|i: int| 0 <= i < links.len() && links[i] == link;
                if i < before.len() {
                    assert(before[i] == link);
                }
            }
            if before.contains(link) {
                let i = choose|i: int| 0 <= i < before.len() && before[i] == link;
                assert(links[i] == link);
            }
        }
        let kept = spec_links_to_follow(before, buffer, position);
        let all = spec_links_to_follow(links, buffer, position);
        if all.len() > kept.len() {
            assert(all =~= kept.push(last));
            assert(all[all.len() - 1] == last);
            if kept.contains(link) {
                let i = choose|i: int| 0 <= i < kept.len() && kept[i] == link;
                assert(all[i] == link);
            }
            if all.contains(link) {
                let i = choose|i: int| 0 <= i < all.len() && all[i] == link;
                if i < kept.len() {
                    assert(kept[i] == link);
                }
            }
        }
    }
}

/// Hiding forgets the links and their underline, and nothing else.
pub proof fn law_hidden_links(editor: &mut Editor)
    requires
        call_ensures(Editor::hide_hovered_link, (editor,), ()),
    ensures
        final(editor).hovered_link_state is None,
        final(editor).link_highlight is None,
        *final(editor) == (Editor {
            hovered_link_state: final(editor).hovered_link_state,
            link_highlight: final(editor).link_highlight,
            ..*old(editor)
        }),
{
}

/// Links are searched for exactly if no rename is pending, the pointer is in a buffer, and the links are
/// not known there. A search is for the trigger point and its place. Nothing but the links and their
/// underline changes, and known links stay where no search is needed.
pub proof fn law_shown_links(
    shift_held: bool,
    editor: &mut Editor,
    point: TriggerPoint,
    place: Option<LinkPlace>,
    started: bool,
)
    requires
        call_ensures(show_link_definition, (shift_held, editor, point, place), started),
    ensures
        ({
            let kind = if point is Text && !shift_held {
                GotoDefinitionKind::Symbol
            } else {
                GotoDefinitionKind::Type
            };
            let known = old(editor).hovered_link_state is Some && is_known(
                old(editor).hovered_link_state->0,
                point,
                kind,
            );
            let possible = !old(editor).pending_rename && place is Some;
            &&& started <==> possible && !known
            &&& possible && known ==> *final(editor) == *old(editor)
            &&& !possible ==> final(editor).hovered_link_state is None
                && final(editor).link_highlight == old(editor).link_highlight
            &&& started ==> {
                let state = final(editor).hovered_link_state->0;
                &&& final(editor).hovered_link_state is Some
                &&& state.task is Some
                &&& state.task->0.trigger_point == point
                &&& state.task->0.preferred_kind == kind
                &&& Some(state.task->0.place) == place
                &&& state.task->0.has_project == old(editor).has_project
                &&& state.task->0.has_provider == old(editor).has_semantics_provider
            }
            &&& *final(editor) == (Editor {
                hovered_link_state: final(editor).hovered_link_state,
                link_highlight: final(editor).link_highlight,
                ..*old(editor)
            })
        }),
{
}

/// A search at an inlay hint ends at once with the hint's own link, underlined at the hovered part.
pub proof fn law_search_at_a_hint(search: &LinkSearch, buffer: &BufferSnapshot, step: LinkStep)
    requires
        call_ensures(LinkSearch::begin, (search, buffer), step),
        search.trigger_point is InlayHint,
    ensures
        step is Done,
        step->Done_0 is Some,
        ({
            let result = step->Done_0->0;
            let highlight = search.trigger_point->InlayHint_0;
            let location = search.trigger_point->InlayHint_1;
            let server_id = search.trigger_point->InlayHint_2;
            &&& result.symbol_range == Some(RangeInEditor::Inlay(highlight))
            &&& result.links@.len() == 1
            &&& result.links@[0] == HoverLink::InlayHint(location, server_id)
        }),
{
}

/// A search in text finds the URL at its place, if there is one, and otherwise goes on to files.
pub proof fn law_search_in_text(
    search: &LinkSearch,
    buffer: &BufferSnapshot,
    step: LinkStep,
    start: int,
    index: int,
    end: int,
    k: int,
)
    requires
        call_ensures(LinkSearch::begin, (search, buffer), step),
        search.trigger_point is Text,
        byte_len(buffer@) <= usize::MAX,
        is_run(buffer@, start, index, end),
        byte_len(buffer@.take(index)) == search.place.offset,
        byte_len(buffer@.subrange(start, end)) < 2048,
    ensures
        is_first_touching(buffer@, start, index, end, k) ==> {
            let link = url_links(buffer@.subrange(start, end))[k];
            let base = byte_len(buffer@.take(start));
            &&& step is AnchorUrl
            &&& step->range.start.offset == base + link.0
            &&& step->range.start.bias == Bias::Left
            &&& step->range.end.offset == base + link.1
            &&& step->range.end.bias == Bias::Right
            &&& step->url@ == text_between(buffer@, base + link.0, base + link.1)
        },
        (forall|j: int|
            0 <= j < url_links(buffer@.subrange(start, end)).len() ==> !touches_in_run(
                buffer@,
                start,
                index,
                #[trigger] url_links(buffer@.subrange(start, end))[j],
            )) ==> step is FindFile,
{
    let token = buffer@.subrange(start, end);
    let links = url_links(token);
    let relative = byte_len(buffer@.take(index)) - byte_len(buffer@.take(start));
    lemma_index_of(buffer@, index);
    if is_first_touching(buffer@, start, index, end, k) {
        assert forall|j: int| 0 <= j < k implies !((#[trigger] links[j]).0 <= relative
            <= links[j].1) by {
            assert(!touches_in_run(buffer@, start, index, links[j]));
        }
        law_url_touching_the_position_is_found(buffer@, start, index, end, k);
        let last = index_of(token, links[k].1 as int);
        let first = index_of(token, links[k].0 as int);
        lemma_index_of(token, last);
        lemma_index_of(token, first);
        lemma_index_of(buffer@, end);
        lemma_byte_len_subrange(buffer@, start, end);
    }
    if forall|j: int| 0 <= j < links.len() ==> !touches_in_run(
        buffer@,
        start,
        index,
        #[trigger] links[j],
    ) {
        assert forall|j: int| 0 <= j < links.len() implies !((#[trigger] links[j]).0 <= relative
            <= links[j].1) by {
            assert(!touches_in_run(buffer@, start, index, links[j]));
        }
        law_short_run_is_the_token(buffer@, start, index, end);
        law_no_url_elsewhere(buffer@, start, index, end);
    }
}

/// A URL is the only link of its stretch, and the stretch is the one it was anchored at, if any.
pub proof fn law_anchored_url(url: String, range: Option<Range<Anchor>>, result: LinkResult)
    requires
        call_ensures(LinkSearch::url_anchored, (url, range), result),
    ensures
        result.links@.len() == 1,
        result.links@[0] == HoverLink::Url(url),
        (result.symbol_range is Some) == (range is Some),
        range is Some ==> result.symbol_range->0 == RangeInEditor::Text(range->0),
{
}

/// A file ends a search, as the only link. Without one, definitions are asked for if anyone can be asked,
/// and otherwise the search ends with nothing.
pub proof fn law_searched_file(
    search: &LinkSearch,
    found: Option<(Option<Range<Anchor>>, ResolvedPath)>,
    step: LinkStep,
)
    requires
        call_ensures(LinkSearch::file_searched, (search, found), step),
    ensures
        step is FindDefinitions <==> found is None && search.has_provider,
        step is Done <==> found is Some || !search.has_provider,
        found is None && !search.has_provider ==> step->Done_0 is None,
        found matches Some((range, path)) ==> step->Done_0 matches Some(result) && {
            &&& result.links@.len() == 1
            &&& result.links@[0] == HoverLink::File(path)
            &&& (result.symbol_range is Some) == (range is Some)
            &&& range is Some ==> result.symbol_range->0 == RangeInEditor::Text(range->0)
        },
{
}

/// Every definition becomes a link, in order, and the first origin that is known is the stretch.
pub proof fn law_found_definitions(
    definitions: Option<Vec<Definition>>,
    result: Option<LinkResult>,
    k: int,
)
    requires
        call_ensures(LinkSearch::definitions_found, (definitions,), result),
    ensures
        result is Some <==> definitions is Some,
        definitions matches Some(definitions) ==> {
            let result = result->0;
            &&& result.links@.len() == definitions@.len()
            &&& forall|i: int|
                0 <= i < definitions@.len() ==> (#[trigger] result.links@[i]) == HoverLink::Text(
                    definitions@[i].link,
                )
            &&& 0 <= k < definitions@.len() && definitions@[k].origin_range is Some && (forall|
                j: int,
            |
                0 <= j < k ==> (#[trigger] definitions@[j]).origin_range is None)
                ==> result.symbol_range == Some(
                RangeInEditor::Text(definitions@[k].origin_range->0),
            )
            &&& (forall|j: int|
                0 <= j < definitions@.len() ==> (#[trigger] definitions@[j]).origin_range is None)
                ==> result.symbol_range is None
        },
{
    if let Some(definitions) = definitions {
        if 0 <= k < definitions@.len() && definitions@[k].origin_range is Some && (forall|j: int|
            0 <= j < k ==> (#[trigger] definitions@[j]).origin_range is None) {
            law_first_known_origin_is_taken(definitions@, k);
        }
        if forall|j: int|
            0 <= j < definitions@.len() ==> (#[trigger] definitions@[j]).origin_range is None {
            law_no_known_origin(definitions@);
        }
    }
}

/// A search that found links replaces those known before, but not for which trigger point they are known,
/// nor which search was started last. One that found nothing, or whose state is gone, leaves no links.
pub proof fn law_finished_search(
    editor: &mut Editor,
    point: &TriggerPoint,
    kind: GotoDefinitionKind,
    result: Option<LinkResult>,
)
    requires
        call_ensures(Editor::finish_link_search, (editor, point, kind, result), ()),
    ensures
        final(editor).hovered_link_state is Some <==> old(editor).hovered_link_state is Some
            && result is Some,
        final(editor).hovered_link_state is None ==> final(editor).link_highlight is None,
        final(editor).hovered_link_state matches Some(state) ==> {
            let known = old(editor).hovered_link_state->0;
            &&& state.links == result->0.links
            &&& state.symbol_range == result->0.symbol_range
            &&& state.preferred_kind == kind
            &&& state.last_trigger_point == known.last_trigger_point
            &&& state.task == known.task
            &&& result->0.symbol_range is Some ==> final(editor).link_highlight == Some(
                LinkHighlight::Range(result->0.symbol_range->0),
            )
            &&& result->0.symbol_range is None && result->0.links@.len() == 0
                ==> final(editor).link_highlight is None
            &&& result->0.symbol_range is None && result->0.links@.len() > 0 && point is Text
                ==> final(editor).link_highlight == Some(
                LinkHighlight::SurroundingWord(point->Text_0),
            )
            &&& result->0.symbol_range is None && result->0.links@.len() > 0 && point is InlayHint
                ==> final(editor).link_highlight == Some(
                LinkHighlight::Range(RangeInEditor::Inlay(point->InlayHint_0)),
            )
        },
        *final(editor) == (Editor {
            hovered_link_state: final(editor).hovered_link_state,
            link_highlight: final(editor).link_highlight,
            ..*old(editor)
        }),
{
}

/// References are looked for exactly if that is the fallback and the click did not get anywhere, be it that
/// it failed.
pub proof fn law_references_after_click(
    revealed: Option<Navigated>,
    fallback: GoToDefinitionFallback,
    result: bool,
)
    requires
        call_ensures(find_references_after_click, (revealed, fallback), result),
    ensures
        fallback is Nothing ==> !result,
        fallback is FindAllReferences ==> result == !(revealed is Some && revealed->0 is Yes),
{
}

/// A move of the pointer shows links only while the modifier is held and nothing is being selected, and
/// hides them otherwise. Where links are shown, shift is handed on and the editor stays as it is.
pub proof fn law_pointer_moved(
    editor: &mut Editor,
    modifier: bool,
    selecting: bool,
    valid: bool,
    modifiers: Modifiers,
    action: HoverAction,
)
    requires
        call_ensures(Editor::update_hovered_link, (editor, modifier, selecting, valid, modifiers), action),
    ensures
        action is Hidden <==> !(modifier && !selecting),
        action is ShowDefinition <==> modifier && !selecting && valid,
        action is UpdateInlayPoints <==> modifier && !selecting && !valid,
        action matches HoverAction::ShowDefinition { shift_held } ==> shift_held == modifiers.shift,
        action matches HoverAction::UpdateInlayPoints { secondary_held, shift_held }
            ==> secondary_held && shift_held == modifiers.shift,
        !(action is Hidden) ==> *final(editor) == *old(editor),
        action is Hidden ==> final(editor).hovered_link_state is None
            && final(editor).link_highlight is None,
        *final(editor) == (Editor {
            hovered_link_state: final(editor).hovered_link_state,
            link_highlight: final(editor).link_highlight,
            ..*old(editor)
        }),
{
}

/// A click follows the known links that do not lead back to it. Without known links it selects the
/// position, and goes to a definition where the position is one of text: of the type with shift. Either
/// way no links are known afterwards, and alt asks for a split.
pub proof fn law_click(
    editor: &mut Editor,
    focused: bool,
    clicked: Option<(u64, TextAnchor)>,
    valid: bool,
    modifiers: Modifiers,
    reveal: ClickReveal,
)
    requires
        call_ensures(
            Editor::cmd_click_reveal_task,
            (editor, focused, clicked, valid, modifiers),
            reveal,
        ),
    ensures
        ({
            let state = old(editor).hovered_link_state;
            let has_links = state is Some && state->0.links@.len() > 0;
            &&& reveal is FollowLinks <==> has_links && clicked is Some
            &&& reveal is NotNavigated <==> has_links && clicked is None
            &&& reveal is SelectAndGo <==> !has_links
            &&& reveal matches ClickReveal::FollowLinks { focus, links, split } ==> {
                &&& focus == !focused
                &&& split == modifiers.alt
                &&& links@ == spec_links_to_follow(state->0.links@, (clicked->0).0, (clicked->0).1)
            }
            &&& reveal matches ClickReveal::NotNavigated { focus } ==> focus == !focused
            &&& reveal matches ClickReveal::SelectAndGo { definition, split } ==> {
                &&& split == modifiers.alt
                &&& definition is Some <==> valid
                &&& valid ==> (definition->0 is Type <==> modifiers.shift)
            }
            &&& final(editor).hovered_link_state is None
            &&& state is Some ==> final(editor).link_highlight is None
            &&& state is None ==> final(editor).link_highlight == old(editor).link_highlight
            &&& *final(editor) == (Editor {
                hovered_link_state: final(editor).hovered_link_state,
                link_highlight: final(editor).link_highlight,
                ..*old(editor)
            })
        }),
{
}

/// The first popover whose stretch holds the selection scrolls. Without one the context menu does, if it is
/// open, and otherwise nothing.
pub proof fn law_scrolled(
    editor: &Editor,
    popovers: &Vec<RangeInEditor>,
    selection: Anchor,
    menu_open: bool,
    target: ScrollTarget,
    k: int,
)
    requires
        call_ensures(Editor::scroll_hover, (editor, popovers, selection, menu_open), target),
    ensures
        0 <= k < popovers@.len() && popovers@[k].holds(TriggerPoint::Text(selection)) && (forall|
            j: int,
        |
            0 <= j < k ==> !(#[trigger] popovers@[j]).holds(TriggerPoint::Text(selection)))
            ==> target == ScrollTarget::Popover(k as usize),
        (forall|j: int|
            0 <= j < popovers@.len() ==> !(#[trigger] popovers@[j]).holds(
                TriggerPoint::Text(selection),
            )) ==> target == if menu_open {
            ScrollTarget::ContextMenu
        } else {
            ScrollTarget::Nothing
        },
{
    if 0 <= k < popovers@.len() && popovers@[k].holds(TriggerPoint::Text(selection)) && (forall|
        j: int,
    |
        0 <= j < k ==> !(#[trigger] popovers@[j]).holds(TriggerPoint::Text(selection))) {
        law_first_stretch_at_the_selection_is_found(popovers@, 0, selection, k);
    }
    if forall|j: int|
        0 <= j < popovers@.len() ==> !(#[trigger] popovers@[j]).holds(
            TriggerPoint::Text(selection),
        ) {
        law_no_stretch_at_the_selection(popovers@, 0, selection);
    }
}

/// A stretch of text is the text that it spans, and an inlay's spans none. A trigger point stands where it
/// is in the text, or where its inlay is.
pub proof fn law_stretches_and_points(
    stretch: &RangeInEditor,
    range: Option<Range<Anchor>>,
    point: &TriggerPoint,
    anchor: &Anchor,
    within: bool,
)
    requires
        call_ensures(RangeInEditor::as_text_range, (stretch,), range),
        call_ensures(TriggerPoint::anchor, (point,), anchor),
        call_ensures(RangeInEditor::point_within_range, (stretch, point), within),
    ensures
        range is Some <==> stretch is Text,
        range is Some ==> range->0 == stretch->Text_0,
        point is Text ==> *anchor == point->Text_0,
        point is InlayHint ==> *anchor == point->InlayHint_0.inlay_position,
        stretch is Text && point is Text ==> within == (range->0.start.position <= anchor.position
            && anchor.position <= range->0.end.position),
        stretch is Text != point is Text ==> !within,
        stretch is Inlay && point is InlayHint ==> within == (stretch->Inlay_0.inlay
            == point->InlayHint_0.inlay && stretch->Inlay_0.range.start
            <= point->InlayHint_0.range.start && point->InlayHint_0.range.start
            < stretch->Inlay_0.range.end && stretch->Inlay_0.range.start
            <= point->InlayHint_0.range.end && point->InlayHint_0.range.end
            < stretch->Inlay_0.range.end),
{
}

/// Highlighted brackets go as soon as the cursor moves, and new ones are looked for exactly at an empty
/// selection within the buffer, from the cursor on, over the character that the cursor covers.
pub proof fn law_refreshed_brackets(
    editor: &mut Editor,
    selection: Selection,
    buffer: &BufferSnapshot,
    query: Option<Range<usize>>,
    i: int,
)
    requires
        call_ensures(
            Editor::refresh_matching_bracket_highlights,
            (editor, selection, buffer),
            query,
        ),
        byte_len(buffer@) <= usize::MAX,
    ensures
        *final(editor) == (Editor { bracket_highlight: None, ..*old(editor) }),
        selection.start != selection.end || selection.end > byte_len(buffer@) ==> query is None,
        selection.start == selection.end && 0 <= i <= buffer@.len() && selection.end == byte_len(
            buffer@.take(i),
        ) ==> {
            let covering = old(editor).cursor_shape is Block || old(editor).cursor_shape is Hollow;
            &&& query is Some
            &&& query->0.start == selection.end
            &&& query->0.end == if covering && i < buffer@.len() {
                byte_len(buffer@.take(i + 1)) as int
            } else {
                selection.end as int
            }
        },
{
    if 0 <= i <= buffer@.len() {
        lemma_index_of(buffer@, i);
    }
    if selection.start != selection.end || selection.end > byte_len(buffer@) {
        crate::brackets::law_no_brackets_elsewhere(selection, old(editor).cursor_shape, buffer@);
    } else if 0 <= i <= buffer@.len() && selection.end == byte_len(buffer@.take(i)) {
        crate::brackets::law_brackets_are_looked_for_at_the_cursor(
            selection,
            old(editor).cursor_shape,
            buffer@,
            i,
        );
    }
}

/// A pair of brackets that was found is highlighted in place of any other; none changes nothing.
pub proof fn law_highlighted_brackets(editor: &mut Editor, pair: Option<BracketPair>)
    requires
        call_ensures(Editor::highlight_brackets, (editor, pair), ()),
    ensures
        pair is None ==> *final(editor) == *old(editor),
        pair is Some ==> final(editor).bracket_highlight == pair,
        *final(editor) == (Editor {
            bracket_highlight: final(editor).bracket_highlight,
            ..*old(editor)
        }),
{
}

/// The cursor is at the start of a reversed selection and at the end of another, and a selection is empty
/// if its ends meet.
pub proof fn law_selections(selection: &Selection, head: usize, empty: bool)
    requires
        call_ensures(Selection::head, (selection,), head),
        call_ensures(Selection::is_empty, (selection,), empty),
    ensures
        selection.reversed ==> head == selection.start,
        !selection.reversed ==> head == selection.end,
        empty <==> selection.start == selection.end,
{
}

} // verus!
