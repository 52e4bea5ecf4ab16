//! Recognition of the URL under a position of a buffer.

use std::ops::Range;
use vstd::prelude::*;

use crate::anchor::{anchored, Bias, TextAnchor};
use crate::text::{
    byte_len, char_index, collect_text, index_of, is_boundary, is_whitespace, lemma_byte_len_concat,
    lemma_byte_len_subrange, lemma_byte_len_take_next, lemma_index_of, spec_is_whitespace,
    text_between, utf8_width, BufferSnapshot,
};

verus! {

/// How far a token is followed, in characters backwards and in bytes altogether.
pub const LIMIT: usize = 2048;

/// The links that the `linkify` crate finds in a text when it looks for URLs only, in the order in
/// which it yields them, each as the byte offsets of its start and its end.
pub uninterp spec fn url_links(text: Seq<char>) -> Seq<(usize, usize)>;

/// A link is a non-empty stretch of whole characters.
pub open spec fn link_in_text(text: Seq<char>, link: (usize, usize)) -> bool {
    &&& link.0 < link.1
    &&& is_boundary(text, link.0 as int)
    &&& is_boundary(text, link.1 as int)
}

/// Calls `linkify::LinkFinder::links` with `LinkKind::Url` as the only kind. What it finds is a
/// function of the text alone, named `url_links`. Each link is a non-empty stretch of the text whose
/// two ends fall between characters, so that the crate's own `Link::as_str` can slice it. The bound
/// keeps the crate's `i32` counters of dots and brackets from overflowing.
#[verifier::external_body]
fn find_url_links(text: &str) -> (links: Vec<(usize, usize)>)
    requires
        text@.len() <= 0x7fff_ffff,
    ensures
        links@ == url_links(text@),
        forall|i: int| 0 <= i < links@.len() ==> link_in_text(text@, #[trigger] links@[i]),
{
    let mut finder = linkify::LinkFinder::new();
    finder.kinds(&[linkify::LinkKind::Url]);
    finder.links(text).map(|link| (link.start(), link.end())).collect()
}

/// Number of characters before an index up to the nearest whitespace, the start of the text or the
/// limit.
pub open spec fn run_before(chars: Seq<char>, index: int, limit: nat) -> nat
    decreases limit,
{
    if limit == 0 || index <= 0 || spec_is_whitespace(chars[index - 1]) {
        0
    } else {
        1 + run_before(chars, index - 1, (limit - 1) as nat)
    }
}

/// Number of characters from an index up to the nearest whitespace, the end of the text or the
/// limit.
pub open spec fn run_after(chars: Seq<char>, index: int, limit: nat) -> nat
    decreases limit,
{
    if limit == 0 || index >= chars.len() || spec_is_whitespace(chars[index]) {
        0
    } else {
        1 + run_after(chars, index + 1, (limit - 1) as nat)
    }
}

/// Where the token around a character index starts, if its start lies within the limit.
pub open spec fn token_start(chars: Seq<char>, index: int) -> Option<int> {
    let start = index - run_before(chars, index, LIMIT as nat);
    if index - start == LIMIT && start != 0 {
        None
    } else {
        Some(start)
    }
}

/// The start of the token, if there is one, lies at most the limit's number of bytes back.
pub open spec fn token_start_in_limit(chars: Seq<char>, index: int) -> bool {
    token_start(chars, index) matches Some(start) ==> byte_len(chars.subrange(start, index))
        <= LIMIT
}

/// The character indices between which the whitespace-delimited token around an index lies, if it
/// is short enough.
pub open spec fn url_token(chars: Seq<char>, index: int) -> Option<(int, int)> {
    match token_start(chars, index) {
        None => None,
        Some(start) => {
            let budget = (LIMIT - byte_len(chars.subrange(start, index))) as nat;
            let after = run_after(chars, index, budget);
            let end = index + after;
            let found_end = after < budget && end < chars.len();
            if !found_end && byte_len(chars.subrange(start, end)) >= LIMIT {
                None
            } else {
                Some((start, end))
            }
        },
    }
}

/// Whether an offset lies within a link or at one of its ends.
pub open spec fn touches(link: (usize, usize), offset: int) -> bool {
    link.0 <= offset <= link.1
}

/// The first link that touches an offset.
pub open spec fn first_touching(links: Seq<(usize, usize)>, offset: int) -> Option<(usize, usize)>
    decreases links.len(),
{
    if links.len() == 0 {
        None
    } else if touches(links[0], offset) {
        Some(links[0])
    } else {
        first_touching(links.drop_first(), offset)
    }
}

/// The URL among given links of a token at an offset relative to the token, with the byte range
/// that it takes up when the token starts at `base`.
pub open spec fn spec_url_at(
    token: Seq<char>,
    links: Seq<(usize, usize)>,
    base: int,
    relative: int,
) -> Option<(int, int, Seq<char>)> {
    match first_touching(links, relative) {
        None => None,
        Some(link) => Some(
            (
                base + link.0,
                base + link.1,
                text_between(token, link.0 as int, link.1 as int),
            ),
        ),
    }
}

/// The URL around a character index of a text.
pub open spec fn spec_find_url(chars: Seq<char>, index: int) -> Option<(int, int, Seq<char>)> {
    match url_token(chars, index) {
        None => None,
        Some((start, end)) => spec_url_at(
            chars.subrange(start, end),
            url_links(chars.subrange(start, end)),
            byte_len(chars.take(start)) as int,
            byte_len(chars.subrange(start, index)) as int,
        ),
    }
}

/// What a found URL says, as plain values.
pub open spec fn url_view(found: Option<(Range<usize>, String)>) -> Option<(int, int, Seq<char>)> {
    match found {
        None => None,
        Some((range, url)) => Some((range.start as int, range.end as int, url@)),
    }
}

/// What a stretch found in a buffer says, as plain values: the offsets of its ends and the sides to
/// which they stick, and what is read from it.
pub open spec fn found_view(found: Option<(Range<TextAnchor>, String)>) -> Option<
    (int, Bias, int, Bias, Seq<char>),
> {
    match found {
        None => None,
        Some((range, text)) => Some(
            (
                range.start.offset as int,
                range.start.bias,
                range.end.offset as int,
                range.end.bias,
                text@,
            ),
        ),
    }
}

/// A stretch of a buffer whose ends stick to the outer sides, so that text inserted at either end
/// becomes part of it.
pub open spec fn sticking_outwards(found: Option<(int, int, Seq<char>)>) -> Option<
    (int, Bias, int, Bias, Seq<char>),
> {
    match found {
        None => None,
        Some((start, end, text)) => Some((start, Bias::Left, end, Bias::Right, text)),
    }
}

/// The characters that `run_before` counts are no whitespace.
proof fn lemma_run_before(chars: Seq<char>, index: int, limit: nat)
    requires
        0 <= index <= chars.len(),
    ensures
        run_before(chars, index, limit) <= limit,
        run_before(chars, index, limit) <= index,
        forall|i: int|
            index - run_before(chars, index, limit) <= i < index ==> !spec_is_whitespace(
                #[trigger] chars[i],
            ),
    decreases limit,
{
    if limit == 0 || index <= 0 || spec_is_whitespace(chars[index - 1]) {
    } else {
        lemma_run_before(chars, index - 1, (limit - 1) as nat);
    }
}

/// The characters that `run_after` counts are no whitespace.
proof fn lemma_run_after(chars: Seq<char>, index: int, limit: nat)
    requires
        0 <= index <= chars.len(),
    ensures
        run_after(chars, index, limit) <= limit,
        index + run_after(chars, index, limit) <= chars.len(),
        forall|i: int|
            index <= i < index + run_after(chars, index, limit) ==> !spec_is_whitespace(
                #[trigger] chars[i],
            ),
    decreases limit,
{
    if limit == 0 || index >= chars.len() || spec_is_whitespace(chars[index]) {
    } else {
        lemma_run_after(chars, index + 1, (limit - 1) as nat);
    }
}

/// A token holds the position that it was looked up for, holds no whitespace, and reaches on both
/// sides up to whitespace or to the end of the text.
pub proof fn law_token_reaches_from_whitespace_to_whitespace(chars: Seq<char>, index: int)
    requires
        0 <= index <= chars.len(),
        token_start_in_limit(chars, index),
    ensures
        url_token(chars, index) matches Some((start, end)) ==> {
            &&& 0 <= start <= index <= end <= chars.len()
            &&& forall|i: int| start <= i < end ==> !spec_is_whitespace(#[trigger] chars[i])
            &&& start > 0 ==> spec_is_whitespace(chars[start - 1])
            &&& end < chars.len() ==> spec_is_whitespace(chars[end])
        },
{
    lemma_run_before(chars, index, LIMIT as nat);
    lemma_run_before_stops(chars, index, LIMIT as nat);
    if let Some(start) = token_start(chars, index) {
        let budget = (LIMIT - byte_len(chars.subrange(start, index))) as nat;
        let end = index + run_after(chars, index, budget);
        lemma_run_after(chars, index, budget);
        lemma_run_after_stops(chars, index, budget);
        lemma_byte_len_subrange(chars, start, index);
        lemma_byte_len_subrange(chars, index, end);
        lemma_byte_len_subrange(chars, start, end);
    }
}

proof fn lemma_run_before_stops(chars: Seq<char>, index: int, limit: nat)
    requires
        0 <= index <= chars.len(),
    ensures
        ({
            let start = index - run_before(chars, index, limit);
            start > 0 && index - start < limit ==> spec_is_whitespace(chars[start - 1])
        }),
    decreases limit,
{
    if limit == 0 || index <= 0 || spec_is_whitespace(chars[index - 1]) {
    } else {
        lemma_run_before_stops(chars, index - 1, (limit - 1) as nat);
    }
}

proof fn lemma_run_after_stops(chars: Seq<char>, index: int, limit: nat)
    requires
        0 <= index <= chars.len(),
    ensures
        ({
            let end = index + run_after(chars, index, limit);
            end < chars.len() && end - index < limit ==> spec_is_whitespace(chars[end])
        }),
    decreases limit,
{
    if limit == 0 || index >= chars.len() || spec_is_whitespace(chars[index]) {
    } else {
        lemma_run_after_stops(chars, index + 1, (limit - 1) as nat);
    }
}

/// Counts the characters from an index up to whitespace, the end of the text or the limit.
fn scan_after(chars: &Vec<char>, index: usize, limit: usize) -> (count: usize)
    requires
        index <= chars@.len(),
    ensures
        count == run_after(chars@, index as int, limit as nat),
        index + count <= chars@.len(),
        count <= limit,
{
    let mut count: usize = 0;
    let rest: usize = chars.len() - index;
    while count < limit && count < rest && !is_whitespace(chars[index + count])
        invariant
            index + rest == chars@.len() <= usize::MAX,
            count <= rest,
            count <= limit,
            run_after(chars@, index as int, limit as nat) == count + run_after(
                chars@,
                index + count,
                (limit - count) as nat,
            ),
        decreases limit - count,
    {
        count = count + 1;
    }
    count
}

/// Counts the characters before an index down to whitespace, the start of the text or the limit.
fn scan_before(chars: &Vec<char>, index: usize, limit: usize) -> (count: usize)
    requires
        index <= chars@.len(),
    ensures
        count == run_before(chars@, index as int, limit as nat),
        count <= index,
        count <= limit,
{
    let mut count: usize = 0;
    while count < limit && count < index && !is_whitespace(chars[index - count - 1])
        invariant
            index <= chars@.len(),
            count <= index,
            count <= limit,
            run_before(chars@, index as int, limit as nat) == count + run_before(
                chars@,
                index - count,
                (limit - count) as nat,
            ),
        decreases limit - count,
    {
        count = count + 1;
    }
    count
}

/// Number of bytes of a stretch of a text whose bytes can be counted.
pub(crate) fn measure(chars: &Vec<char>, start: usize, end: usize) -> (bytes: usize)
    requires
        start <= end <= chars@.len(),
        byte_len(chars@) <= usize::MAX,
    ensures
        bytes == byte_len(chars@.subrange(start as int, end as int)),
{
    let mut bytes: usize = 0;
    let mut i: usize = start;
    assert(chars@.subrange(start as int, start as int) =~= Seq::<char>::empty());
    while i < end
        invariant
            start <= i <= end <= chars@.len(),
            byte_len(chars@) <= usize::MAX,
            bytes == byte_len(chars@.subrange(start as int, i as int)),
        decreases end - i,
    {
        proof {
            lemma_byte_len_subrange(chars@, start as int, i as int);
            lemma_byte_len_subrange(chars@, start as int, i + 1);
            lemma_byte_len_take_next(chars@, i as int);
            lemma_index_of(chars@, i + 1);
        }
        bytes = bytes + utf8_width(chars[i]);
        i = i + 1;
    }
    bytes
}

/// Tells whether the token around an offset starts close enough for `find_url` to measure it.
pub fn url_scan_in_limit(snapshot: &BufferSnapshot, offset: usize) -> (result: bool)
    requires
        is_boundary(snapshot@, offset as int),
    ensures
        result == token_start_in_limit(snapshot@, index_of(snapshot@, offset as int)),
{
    let chars = snapshot.chars();
    match char_index(chars, offset) {
        None => true,
        Some(index) => {
            let before: usize = scan_before(chars, index, LIMIT);
            if before == LIMIT && index != before {
                true
            } else {
                measure(chars, index - before, index) <= LIMIT
            }
        },
    }
}

/// Picks, among the links of a token, the first one that touches an offset relative to the token,
/// and gives its byte range in the buffer and its text.
pub fn url_at(
    token: &Vec<char>,
    links: &Vec<(usize, usize)>,
    base: usize,
    relative: usize,
) -> (found: Option<(Range<usize>, String)>)
    requires
        base + byte_len(token@) <= usize::MAX,
        forall|i: int| 0 <= i < links@.len() ==> link_in_text(token@, #[trigger] links@[i]),
    ensures
        url_view(found) == spec_url_at(token@, links@, base as int, relative as int),
{
    let mut i: usize = 0;
    assert(links@.skip(0) =~= links@);
    while i < links.len()
        invariant
            i <= links@.len(),
            base + byte_len(token@) <= usize::MAX,
            forall|j: int| 0 <= j < links@.len() ==> link_in_text(token@, #[trigger] links@[j]),
            first_touching(links@, relative as int) == first_touching(
                links@.skip(i as int),
                relative as int,
            ),
        decreases links@.len() - i,
    {
        let link = links[i];
        assert(links@.skip(i as int)[0] == link);
        assert(links@.skip(i as int).drop_first() =~= links@.skip(i + 1));
        if link.0 <= relative && relative <= link.1 {
            let first = char_index(token, link.0);
            let last = char_index(token, link.1);
            match (first, last) {
                (Some(first), Some(last)) => {
                    proof {
                        if last < first {
                            lemma_byte_len_subrange(token@, last as int, first as int);
                        }
                        lemma_index_of(token@, first as int);
                        lemma_index_of(token@, last as int);
                    }
                    let url = collect_text(token, first, last);
                    return Some((base + link.0..base + link.1, url));
                },
                _ => {
                    assert(link_in_text(token@, links@[i as int]));
                },
            }
        }
        i = i + 1;
    }
    assert(links@.skip(i as int).len() == 0);
    None
}

/// Copies a stretch of characters.
pub(crate) fn copy_chars(chars: &Vec<char>, start: usize, end: usize) -> (copy: Vec<char>)
    requires
        start <= end <= chars@.len(),
    ensures
        copy@ == chars@.subrange(start as int, end as int),
{
    let mut copy: Vec<char> = Vec::new();
    let mut i: usize = start;
    while i < end
        invariant
            start <= i <= end <= chars@.len(),
            copy@ == chars@.subrange(start as int, i as int),
        decreases end - i,
    {
        copy.push(chars[i]);
        i = i + 1;
        assert(chars@.subrange(start as int, i as int) =~= chars@.subrange(
            start as int,
            i - 1,
        ).push(chars@[i - 1]));
    }
    copy
}

/// Finds the URL at a byte offset of a buffer, with the range that it takes up.
///
/// The token around the offset reaches from whitespace to whitespace. No URL is found in a token
/// that is too long to be followed to both ends.
pub fn find_url(snapshot: &BufferSnapshot, offset: usize) -> (found: Option<
    (Range<TextAnchor>, String),
>)
    requires
        is_boundary(snapshot@, offset as int),
        token_start_in_limit(snapshot@, index_of(snapshot@, offset as int)),
    ensures
        found_view(found) == sticking_outwards(
            spec_find_url(snapshot@, index_of(snapshot@, offset as int)),
        ),
        found matches Some((range, url)) ==> {
            let start = range.start.offset;
            let end = range.end.offset;
            &&& start < end
            &&& start <= offset <= end
            &&& is_boundary(snapshot@, start as int)
            &&& is_boundary(snapshot@, end as int)
            &&& url@ == text_between(snapshot@, start as int, end as int)
        },
{
    let chars = snapshot.chars();
    let index = match char_index(chars, offset) {
        Some(index) => index,
        None => {
            return None;
        },
    };
    let before: usize = scan_before(chars, index, LIMIT);
    let start: usize = index - before;
    if before == LIMIT && start != 0 {
        return None;
    }
    let relative: usize = measure(chars, start, index);
    let budget: usize = LIMIT - relative;
    let after: usize = scan_after(chars, index, budget);
    let len: usize = chars.len();
    let end: usize = index + after;
    let found_end = after < budget && end < len;
    if !found_end && measure(chars, start, end) >= LIMIT {
        return None;
    }
    let token = copy_chars(chars, start, end);
    proof {
        lemma_byte_len_subrange(chars@, start as int, index as int);
        lemma_byte_len_subrange(chars@, start as int, end as int);
        lemma_index_of(chars@, end as int);
    }
    let base: usize = offset - relative;
    let text = collect_text(&token, 0, token.len());
    assert(text@ =~= token@);
    let links = find_url_links(text.as_str());
    let found = url_at(&token, &links, base, relative);
    proof {
        if let Some(link) = first_touching(links@, relative as int) {
            lemma_first_touching(links@, relative as int);
            assert(link_in_text(token@, link));
            lemma_shifted_boundary(chars@, start as int, end as int, link.0 as int);
            lemma_shifted_boundary(chars@, start as int, end as int, link.1 as int);
            let first = index_of(token@, link.0 as int);
            let last = index_of(token@, link.1 as int);
            if last < first {
                lemma_byte_len_subrange(token@, last, first);
            }
            assert(token@.subrange(first, last) =~= chars@.subrange(start + first, start + last));
        }
    }
    match found {
        Some((range, url)) => Some((anchored(range.start, range.end), url)),
        None => None,
    }
}

/// A link that is found is one of the links.
proof fn lemma_first_touching(links: Seq<(usize, usize)>, offset: int)
    ensures
        first_touching(links, offset) matches Some(link) ==> touches(link, offset) && exists|i: int|
            0 <= i < links.len() && #[trigger] links[i] == link,
    decreases links.len(),
{
    if links.len() > 0 && !touches(links[0], offset) {
        lemma_first_touching(links.drop_first(), offset);
        if let Some(link) = first_touching(links.drop_first(), offset) {
            let i = choose|i: int|
                0 <= i < links.drop_first().len() && #[trigger] links.drop_first()[i] == link;
            assert(links[i + 1] == link);
        }
    }
}

/// A boundary of a stretch of a text is a boundary of the text.
proof fn lemma_shifted_boundary(chars: Seq<char>, start: int, end: int, offset: int)
    requires
        0 <= start <= end <= chars.len(),
        is_boundary(chars.subrange(start, end), offset),
    ensures
        0 <= index_of(chars.subrange(start, end), offset) <= end - start,
        is_boundary(chars, byte_len(chars.take(start)) + offset),
        index_of(chars, byte_len(chars.take(start)) + offset) == start + index_of(
            chars.subrange(start, end),
            offset,
        ),
{
    let part = chars.subrange(start, end);
    let i = index_of(part, offset);
    assert(0 <= i <= part.len() && byte_len(part.take(i)) == offset);
    assert(chars.take(start + i) =~= chars.take(start) + part.take(i));
    lemma_byte_len_concat(chars.take(start), part.take(i));
    lemma_index_of(chars, start + i);
}

/// A text without the whitespace at its start.
pub open spec fn trim_start(text: Seq<char>) -> Seq<char>
    decreases text.len(),
{
    if text.len() > 0 && spec_is_whitespace(text[0]) {
        trim_start(text.drop_first())
    } else {
        text
    }
}

/// A text without the whitespace at its end.
pub open spec fn trim_end(text: Seq<char>) -> Seq<char>
    decreases text.len(),
{
    if text.len() > 0 && spec_is_whitespace(text.last()) {
        trim_end(text.drop_last())
    } else {
        text
    }
}

/// Whether the first of given links spans a text of a given number of bytes from end to end.
pub open spec fn spec_spans_text(links: Seq<(usize, usize)>, bytes: int) -> bool {
    links.len() > 0 && links[0].0 == 0 && links[0].1 == bytes
}

/// The URL that a selection between two character indices holds, but for surrounding whitespace.
pub open spec fn spec_find_url_from_range(chars: Seq<char>, from: int, to: int) -> Option<
    Seq<char>,
> {
    let selected = if from <= to {
        chars.subrange(from, to)
    } else {
        chars.subrange(to, from)
    };
    let text = trim_end(trim_start(selected));
    if byte_len(selected) < LIMIT && text.len() > 0 && spec_spans_text(
        url_links(text),
        byte_len(text) as int,
    ) {
        Some(text)
    } else {
        None
    }
}

/// Tells whether the first of given links spans a text of a given number of bytes from end to end.
pub fn spans_text(links: &Vec<(usize, usize)>, bytes: usize) -> (result: bool)
    ensures
        result == spec_spans_text(links@, bytes as int),
{
    links.len() > 0 && links[0].0 == 0 && links[0].1 == bytes
}

/// Finds the URL that a selection consists of, given the selection's ends in either order.
pub fn find_url_from_range(snapshot: &BufferSnapshot, range: Range<usize>) -> (found: Option<
    String,
>)
    requires
        is_boundary(snapshot@, range.start as int),
        is_boundary(snapshot@, range.end as int),
    ensures
        (match found {
            Some(url) => Some(url@),
            None => None,
        }) == spec_find_url_from_range(
            snapshot@,
            index_of(snapshot@, range.start as int),
            index_of(snapshot@, range.end as int),
        ),
{
    let chars = snapshot.chars();
    let (from, to) = match (char_index(chars, range.start), char_index(chars, range.end)) {
        (Some(from), Some(to)) => (from, to),
        _ => {
            return None;
        },
    };
    let mut start: usize = if from <= to {
        from
    } else {
        to
    };
    let mut end: usize = if from <= to {
        to
    } else {
        from
    };
    let ghost selected = chars@.subrange(start as int, end as int);
    if measure(chars, start, end) >= LIMIT {
        return None;
    }
    while start < end && is_whitespace(chars[start])
        invariant
            start <= end <= chars@.len(),
            trim_start(selected) == trim_start(chars@.subrange(start as int, end as int)),
        decreases end - start,
    {
        assert(chars@.subrange(start as int, end as int).drop_first() =~= chars@.subrange(
            start + 1,
            end as int,
        ));
        start = start + 1;
    }
    let ghost led = chars@.subrange(start as int, end as int);
    assert(trim_start(selected) == led);
    while start < end && is_whitespace(chars[end - 1])
        invariant
            start <= end <= chars@.len(),
            trim_end(led) == trim_end(chars@.subrange(start as int, end as int)),
        decreases end - start,
    {
        assert(chars@.subrange(start as int, end as int).drop_last() =~= chars@.subrange(
            start as int,
            end - 1,
        ));
        end = end - 1;
    }
    assert(trim_end(led) == chars@.subrange(start as int, end as int));
    if start >= end {
        return None;
    }
    let text = collect_text(chars, start, end);
    let bytes: usize = measure(chars, start, end);
    proof {
        lemma_byte_len_trimmed(selected);
        lemma_byte_len_subrange(text@, 0, text@.len() as int);
        assert(text@.subrange(0, text@.len() as int) =~= text@);
    }
    let links = find_url_links(text.as_str());
    if spans_text(&links, bytes) {
        Some(text)
    } else {
        None
    }
}

/// A selection holds the same URL whichever end the cursor is at.
pub proof fn law_selection_direction_does_not_matter(chars: Seq<char>, from: int, to: int)
    ensures
        spec_find_url_from_range(chars, from, to) == spec_find_url_from_range(chars, to, from),
{
}

/// A URL found in a selection is not surrounded by whitespace, and is shorter than the limit.
pub proof fn law_selected_url_is_trimmed(chars: Seq<char>, from: int, to: int)
    ensures
        spec_find_url_from_range(chars, from, to) matches Some(url) ==> {
            &&& url.len() > 0
            &&& !spec_is_whitespace(url[0])
            &&& !spec_is_whitespace(url.last())
            &&& byte_len(url) < LIMIT
        },
{
    let selected = if from <= to {
        chars.subrange(from, to)
    } else {
        chars.subrange(to, from)
    };
    lemma_byte_len_trimmed(selected);
    lemma_trim_start(selected);
    lemma_trim_end(trim_start(selected));
}

proof fn lemma_trim_start(text: Seq<char>)
    ensures
        trim_start(text).len() > 0 ==> !spec_is_whitespace(trim_start(text)[0]),
    decreases text.len(),
{
    if text.len() > 0 && spec_is_whitespace(text[0]) {
        lemma_trim_start(text.drop_first());
    }
}

proof fn lemma_trim_end(text: Seq<char>)
    ensures
        trim_end(text).len() > 0 ==> !spec_is_whitespace(trim_end(text).last()) && text.len() > 0
            && trim_end(text)[0] == text[0],
    decreases text.len(),
{
    if text.len() > 0 && spec_is_whitespace(text.last()) {
        lemma_trim_end(text.drop_last());
    }
}

/// Trimming does not lengthen a text.
proof fn lemma_byte_len_trimmed(text: Seq<char>)
    ensures
        byte_len(trim_end(trim_start(text))) <= byte_len(text),
{
    lemma_byte_len_trim_start(text);
    lemma_byte_len_trim_end(trim_start(text));
}

proof fn lemma_byte_len_trim_start(text: Seq<char>)
    ensures
        byte_len(trim_start(text)) <= byte_len(text),
    decreases text.len(),
{
    if text.len() > 0 && spec_is_whitespace(text[0]) {
        lemma_byte_len_trim_start(text.drop_first());
        assert(text =~= seq![text[0]] + text.drop_first());
        lemma_byte_len_concat(seq![text[0]], text.drop_first());
    }
}

proof fn lemma_byte_len_trim_end(text: Seq<char>)
    ensures
        byte_len(trim_end(text)) <= byte_len(text),
    decreases text.len(),
{
    if text.len() > 0 && spec_is_whitespace(text.last()) {
        lemma_byte_len_trim_end(text.drop_last());
        assert(text =~= text.drop_last() + seq![text.last()]);
        lemma_byte_len_concat(text.drop_last(), seq![text.last()]);
    }
}

/// Tokens and selections are followed for 2048 bytes.
pub proof fn law_limit()
    ensures
        LIMIT == 2048,
{
}

/// Whether a stretch around an index is free of whitespace and cannot be extended without meeting
/// some.
pub open spec fn is_run(chars: Seq<char>, start: int, index: int, end: int) -> bool {
    &&& 0 <= start <= index <= end <= chars.len()
    &&& forall|i: int| start <= i < end ==> !spec_is_whitespace(#[trigger] chars[i])
    &&& start == 0 || spec_is_whitespace(chars[start - 1])
    &&& end == chars.len() || spec_is_whitespace(chars[end])
}

pub proof fn lemma_run_before_reaches(chars: Seq<char>, start: int, index: int, limit: nat)
    requires
        0 <= start <= index <= chars.len(),
        forall|i: int| start <= i < index ==> !spec_is_whitespace(#[trigger] chars[i]),
        start == 0 || spec_is_whitespace(chars[start - 1]),
    ensures
        run_before(chars, index, limit) == if index - start < limit {
            index - start
        } else {
            limit as int
        },
    decreases limit,
{
    if limit > 0 && index > start {
        lemma_run_before_reaches(chars, start, index - 1, (limit - 1) as nat);
    }
}

proof fn lemma_run_after_reaches(chars: Seq<char>, index: int, end: int, limit: nat)
    requires
        0 <= index <= end <= chars.len(),
        forall|i: int| index <= i < end ==> !spec_is_whitespace(#[trigger] chars[i]),
        end == chars.len() || spec_is_whitespace(chars[end]),
    ensures
        run_after(chars, index, limit) == if end - index < limit {
            end - index
        } else {
            limit as int
        },
    decreases limit,
{
    if limit > 0 && index < end {
        lemma_run_after_reaches(chars, index + 1, end, (limit - 1) as nat);
    }
}

/// The token around an index is the whole run without whitespace around it, whichever whitespace ends
/// it. It is found exactly if it is shorter than the limit, where behind the index each character
/// counts as one if whitespace ends the run.
pub proof fn law_token_is_the_run_around_the_index(
    chars: Seq<char>,
    start: int,
    index: int,
    end: int,
)
    requires
        is_run(chars, start, index, end),
        token_start_in_limit(chars, index),
    ensures
        url_token(chars, index) == if byte_len(chars.subrange(start, end)) < LIMIT || end
            < chars.len() && byte_len(chars.subrange(start, index)) + (end - index) < LIMIT {
            Some((start, end))
        } else {
            None
        },
{
    lemma_run_before_reaches(chars, start, index, LIMIT as nat);
    lemma_byte_len_subrange(chars, start, index);
    lemma_byte_len_subrange(chars, index, end);
    lemma_byte_len_subrange(chars, start, end);
    if let Some(from) = token_start(chars, index) {
        let budget = (LIMIT - byte_len(chars.subrange(start, index))) as nat;
        lemma_run_after_reaches(chars, index, end, budget);
        let reached = index + run_after(chars, index, budget);
        lemma_byte_len_subrange(chars, start, reached);
        lemma_byte_len_subrange(chars, index, reached);
    }
}

/// A run shorter than the limit can always be scanned, and is the token.
pub proof fn law_short_run_is_the_token(chars: Seq<char>, start: int, index: int, end: int)
    requires
        is_run(chars, start, index, end),
        byte_len(chars.subrange(start, end)) < LIMIT,
    ensures
        token_start_in_limit(chars, index),
        url_token(chars, index) == Some((start, end)),
{
    lemma_run_before_reaches(chars, start, index, LIMIT as nat);
    lemma_byte_len_subrange(chars, start, index);
    lemma_byte_len_subrange(chars, index, end);
    lemma_byte_len_subrange(chars, start, end);
    law_token_is_the_run_around_the_index(chars, start, index, end);
}

proof fn lemma_first_touching_at(links: Seq<(usize, usize)>, offset: int, k: int)
    requires
        0 <= k < links.len(),
        links[k].0 <= offset <= links[k].1,
        forall|j: int| 0 <= j < k ==> !((#[trigger] links[j]).0 <= offset <= links[j].1),
    ensures
        first_touching(links, offset) == Some(links[k]),
    decreases links.len(),
{
    if k > 0 {
        let rest = links.drop_first();
        assert forall|j: int| 0 <= j < k - 1 implies !((#[trigger] rest[j]).0 <= offset
            <= rest[j].1) by {
            assert(!(links[j + 1].0 <= offset <= links[j + 1].1));
        }
        assert(!(links[0].0 <= offset <= links[0].1));
        lemma_first_touching_at(rest, offset, k - 1);
    }
}

proof fn lemma_none_touching(links: Seq<(usize, usize)>, offset: int)
    requires
        forall|j: int| 0 <= j < links.len() ==> !((#[trigger] links[j]).0 <= offset <= links[j].1),
    ensures
        first_touching(links, offset) is None,
    decreases links.len(),
{
    if links.len() > 0 {
        let rest = links.drop_first();
        assert forall|j: int| 0 <= j < rest.len() implies !((#[trigger] rest[j]).0 <= offset
            <= rest[j].1) by {
            assert(!(links[j + 1].0 <= offset <= links[j + 1].1));
        }
        assert(!(links[0].0 <= offset <= links[0].1));
        lemma_none_touching(rest, offset);
    }
}

/// Among given links, the first that touches the offset is taken, with its own text and with its range
/// moved by the start of the token.
pub proof fn law_first_touching_link_is_taken(
    token: Seq<char>,
    links: Seq<(usize, usize)>,
    base: int,
    relative: int,
    k: int,
)
    requires
        0 <= k < links.len(),
        links[k].0 <= relative <= links[k].1,
        forall|j: int| 0 <= j < k ==> !((#[trigger] links[j]).0 <= relative <= links[j].1),
    ensures
        spec_url_at(token, links, base, relative) == Some(
            (
                base + links[k].0,
                base + links[k].1,
                token.subrange(
                    index_of(token, links[k].0 as int),
                    index_of(token, links[k].1 as int),
                ),
            ),
        ),
{
    lemma_first_touching_at(links, relative, k);
}

/// Where no link touches the offset, none is taken.
pub proof fn law_links_elsewhere_are_not_taken(
    token: Seq<char>,
    links: Seq<(usize, usize)>,
    base: int,
    relative: int,
)
    requires
        forall|j: int|
            0 <= j < links.len() ==> !((#[trigger] links[j]).0 <= relative <= links[j].1),
    ensures
        spec_url_at(token, links, base, relative) is None,
{
    lemma_none_touching(links, relative);
}

/// The URL at a position is found whenever the run around the position is shorter than the limit and one
/// of the run's links touches the position. It is the first such link, at its place in the buffer.
pub proof fn law_url_touching_the_position_is_found(
    chars: Seq<char>,
    start: int,
    index: int,
    end: int,
    k: int,
)
    requires
        is_run(chars, start, index, end),
        byte_len(chars.subrange(start, end)) < LIMIT,
        0 <= k < url_links(chars.subrange(start, end)).len(),
        ({
            let links = url_links(chars.subrange(start, end));
            let relative = byte_len(chars.take(index)) - byte_len(chars.take(start));
            &&& link_in_text(chars.subrange(start, end), links[k])
            &&& links[k].0 <= relative <= links[k].1
            &&& forall|j: int|
                0 <= j < k ==> !((#[trigger] links[j]).0 <= relative <= links[j].1)
        }),
    ensures
        ({
            let link = url_links(chars.subrange(start, end))[k];
            let base = byte_len(chars.take(start));
            spec_find_url(chars, index) == Some(
                (
                    base + link.0,
                    base + link.1,
                    text_between(chars, base + link.0, base + link.1),
                ),
            )
        }),
{
    let token = chars.subrange(start, end);
    let link = url_links(token)[k];
    let relative = byte_len(chars.take(index)) - byte_len(chars.take(start));
    lemma_byte_len_subrange(chars, start, index);
    law_short_run_is_the_token(chars, start, index, end);
    lemma_first_touching_at(url_links(token), relative, k);
    lemma_shifted_boundary(chars, start, end, link.0 as int);
    lemma_shifted_boundary(chars, start, end, link.1 as int);
    let first = index_of(token, link.0 as int);
    let last = index_of(token, link.1 as int);
    if last < first {
        lemma_byte_len_subrange(token, last, first);
    }
    assert(token.subrange(first, last) =~= chars.subrange(start + first, start + last));
}

/// No URL is found where no link of the run touches the position, nor in a run that is too long.
pub proof fn law_no_url_elsewhere(chars: Seq<char>, start: int, index: int, end: int)
    requires
        is_run(chars, start, index, end),
        token_start_in_limit(chars, index),
        ({
            let links = url_links(chars.subrange(start, end));
            let relative = byte_len(chars.take(index)) - byte_len(chars.take(start));
            ||| byte_len(chars.subrange(start, end)) >= LIMIT && (end == chars.len() || byte_len(
                chars.subrange(start, index),
            ) + (end - index) >= LIMIT)
            ||| forall|j: int|
                0 <= j < links.len() ==> !((#[trigger] links[j]).0 <= relative <= links[j].1)
        }),
    ensures
        spec_find_url(chars, index) is None,
{
    let links = url_links(chars.subrange(start, end));
    let relative = byte_len(chars.take(index)) - byte_len(chars.take(start));
    lemma_byte_len_subrange(chars, start, index);
    law_token_is_the_run_around_the_index(chars, start, index, end);
    if forall|j: int|
        0 <= j < links.len() ==> !((#[trigger] links[j]).0 <= relative <= links[j].1) {
        lemma_none_touching(links, relative);
    }
}

/// Whether a text is whitespace from end to end.
pub open spec fn all_whitespace(text: Seq<char>) -> bool {
    forall|i: int| 0 <= i < text.len() ==> spec_is_whitespace(#[trigger] text[i])
}

proof fn lemma_trim_start_drops(lead: Seq<char>, rest: Seq<char>)
    requires
        all_whitespace(lead),
        rest.len() == 0 || !spec_is_whitespace(rest[0]),
    ensures
        trim_start(lead + rest) == rest,
    decreases lead.len(),
{
    if lead.len() == 0 {
        assert(lead + rest =~= rest);
    } else {
        let shorter = lead.drop_first();
        assert forall|i: int| 0 <= i < shorter.len() implies spec_is_whitespace(
            #[trigger] shorter[i],
        ) by {
            assert(spec_is_whitespace(lead[i + 1]));
        }
        lemma_trim_start_drops(shorter, rest);
        assert((lead + rest).drop_first() =~= shorter + rest);
        assert((lead + rest)[0] == lead[0]);
    }
}

proof fn lemma_trim_end_drops(rest: Seq<char>, trail: Seq<char>)
    requires
        all_whitespace(trail),
        rest.len() == 0 || !spec_is_whitespace(rest.last()),
    ensures
        trim_end(rest + trail) == rest,
    decreases trail.len(),
{
    if trail.len() == 0 {
        assert(rest + trail =~= rest);
    } else {
        let shorter = trail.drop_last();
        lemma_trim_end_drops(rest, shorter);
        assert((rest + trail).drop_last() =~= rest + shorter);
        assert((rest + trail).last() == trail.last());
    }
}

/// A selection is a URL exactly if it is shorter than the limit and what is left of it between
/// whitespace is, from end to end, the first link found in it.
pub proof fn law_selection_is_a_url_but_for_whitespace(
    chars: Seq<char>,
    from: int,
    to: int,
    lead: Seq<char>,
    text: Seq<char>,
    trail: Seq<char>,
)
    requires
        0 <= from <= to <= chars.len(),
        chars.subrange(from, to) == lead + text + trail,
        all_whitespace(lead),
        all_whitespace(trail),
        text.len() > 0,
        !spec_is_whitespace(text[0]),
        !spec_is_whitespace(text.last()),
    ensures
        spec_find_url_from_range(chars, from, to) == if byte_len(chars.subrange(from, to)) < LIMIT
            && url_links(text).len() > 0 && url_links(text)[0].0 == 0 && url_links(text)[0].1
            == byte_len(text) {
            Some(text)
        } else {
            None
        },
        spec_find_url_from_range(chars, to, from) == spec_find_url_from_range(chars, from, to),
{
    let selected = chars.subrange(from, to);
    assert(selected =~= lead + (text + trail));
    assert((text + trail)[0] == text[0]);
    lemma_trim_start_drops(lead, text + trail);
    lemma_trim_end_drops(text, trail);
}

/// A selection of nothing but whitespace is no URL.
pub proof fn law_selected_whitespace_is_no_url(chars: Seq<char>, from: int, to: int)
    requires
        0 <= from <= to <= chars.len(),
        all_whitespace(chars.subrange(from, to)),
    ensures
        spec_find_url_from_range(chars, from, to) is None,
        spec_find_url_from_range(chars, to, from) is None,
{
    let selected = chars.subrange(from, to);
    lemma_trim_start_drops(selected, Seq::empty());
    assert(selected + Seq::<char>::empty() =~= selected);
}

} // verus!
