//! Recognition of the file name under a position of a buffer.

use std::ops::Range;
use vstd::prelude::*;

use crate::anchor::{anchored, spec_anchored, TextAnchor};
use crate::text::{
    byte_len, char_index, chars_of, collect_text, index_of, is_boundary, is_whitespace,
    lemma_byte_len_subrange, lemma_index_of, spec_is_whitespace, BufferSnapshot,
};
use crate::url_links::{found_view, measure, sticking_outwards, LIMIT};

verus! {

/// What a scan in one direction has come across.
#[verifier::ext_equal]
pub struct Scan {
    /// Number of characters passed.
    pub passed: nat,
    /// The part of the file name among them, in reading order.
    pub name: Seq<char>,
    /// Whether the scan ended at a delimiter.
    pub found: bool,
    /// Whether that delimiter was a quote.
    pub quoted: bool,
}

/// Whether a character opens or closes a quoted file name.
pub open spec fn is_quote(c: char) -> bool {
    c == '"' || c == '\''
}

/// Scans back from a character index for the start of a file name. Whitespace after a backslash is
/// part of the name, and the backslash is not; other whitespace and quotes end the scan.
pub open spec fn scan_back(chars: Seq<char>, index: int, limit: nat) -> Scan
    decreases limit,
{
    if limit == 0 || index <= 0 {
        Scan { passed: 0, name: Seq::empty(), found: false, quoted: false }
    } else {
        let c = chars[index - 1];
        if spec_is_whitespace(c) && limit >= 2 && index >= 2 && chars[index - 2] == '\\' {
            let rest = scan_back(chars, index - 2, (limit - 2) as nat);
            Scan { passed: rest.passed + 2, name: rest.name.push(c), ..rest }
        } else if spec_is_whitespace(c) {
            Scan { passed: 0, name: Seq::empty(), found: true, quoted: false }
        } else if is_quote(c) {
            Scan { passed: 0, name: Seq::empty(), found: true, quoted: true }
        } else {
            let rest = scan_back(chars, index - 1, (limit - 1) as nat);
            Scan { passed: rest.passed + 1, name: rest.name.push(c), ..rest }
        }
    }
}

/// Scans on from a character index for the end of a file name. Whitespace after a backslash is part
/// of the name, and the backslash is not. Other whitespace ends the scan, and so does a quote when
/// one was passed already; a first quote is passed and is not part of the name.
pub open spec fn scan_on(chars: Seq<char>, index: int, limit: nat, quoted: bool) -> Scan
    decreases limit,
{
    if limit == 0 || index >= chars.len() {
        Scan { passed: 0, name: Seq::empty(), found: false, quoted }
    } else {
        let c = chars[index];
        if c == '\\' && limit >= 2 && index + 1 < chars.len() && spec_is_whitespace(
            chars[index + 1],
        ) {
            let rest = scan_on(chars, index + 2, (limit - 2) as nat, quoted);
            Scan { passed: rest.passed + 2, name: seq![chars[index + 1]] + rest.name, ..rest }
        } else if spec_is_whitespace(c) {
            Scan { passed: 0, name: Seq::empty(), found: true, quoted }
        } else if is_quote(c) && quoted {
            Scan { passed: 0, name: Seq::empty(), found: true, quoted }
        } else if is_quote(c) {
            let rest = scan_on(chars, index + 1, (limit - 1) as nat, true);
            Scan { passed: rest.passed + 1, ..rest }
        } else {
            let rest = scan_on(chars, index + 1, (limit - 1) as nat, quoted);
            Scan { passed: rest.passed + 1, name: seq![c] + rest.name, ..rest }
        }
    }
}

/// Where the file name around a character index starts, if its start lies within the limit.
pub open spec fn name_start(chars: Seq<char>, index: int) -> Option<int> {
    let back = scan_back(chars, index, LIMIT as nat);
    if !back.found && back.passed != index {
        None
    } else {
        Some(index - back.passed)
    }
}

/// The start of the file name, if there is one, lies at most the limit's number of bytes back.
pub open spec fn name_start_in_limit(chars: Seq<char>, index: int) -> bool {
    name_start(chars, index) matches Some(start) ==> byte_len(chars.subrange(start, index)) <= LIMIT
}

/// The file name around a character index, with the byte range that it was read from.
pub open spec fn spec_surrounding_filename(chars: Seq<char>, index: int) -> Option<
    (int, int, Seq<char>),
> {
    match name_start(chars, index) {
        None => None,
        Some(start) => {
            let back = scan_back(chars, index, LIMIT as nat);
            let budget = (LIMIT - byte_len(chars.subrange(start, index))) as nat;
            let on = scan_on(chars, index, budget, back.quoted);
            let end = index + on.passed;
            let name = back.name + on.name;
            if !on.found && byte_len(chars.subrange(start, end)) >= LIMIT || name.len() == 0 {
                None
            } else {
                Some((byte_len(chars.take(start)) as int, byte_len(chars.take(end)) as int, name))
            }
        },
    }
}

/// A scan stays within the text and the limit.
proof fn lemma_scan_back(chars: Seq<char>, index: int, limit: nat)
    requires
        0 <= index <= chars.len(),
    ensures
        scan_back(chars, index, limit).passed <= index,
        scan_back(chars, index, limit).passed <= limit,
    decreases limit,
{
    if limit > 0 && index > 0 {
        if index >= 2 && limit >= 2 {
            lemma_scan_back(chars, index - 2, (limit - 2) as nat);
        }
        lemma_scan_back(chars, index - 1, (limit - 1) as nat);
    }
}

/// A scan stays within the text and the limit.
proof fn lemma_scan_on(chars: Seq<char>, index: int, limit: nat, quoted: bool)
    requires
        0 <= index <= chars.len(),
    ensures
        index + scan_on(chars, index, limit, quoted).passed <= chars.len(),
        scan_on(chars, index, limit, quoted).passed <= limit,
    decreases limit,
{
    if limit > 0 && index < chars.len() {
        if index + 2 <= chars.len() && limit >= 2 {
            lemma_scan_on(chars, index + 2, (limit - 2) as nat, quoted);
        }
        lemma_scan_on(chars, index + 1, (limit - 1) as nat, quoted);
        lemma_scan_on(chars, index + 1, (limit - 1) as nat, true);
    }
}

/// Scans back for the start of a file name and returns the number of characters passed, the name
/// in reverse, whether a delimiter was found and whether it was a quote.
fn run_back(chars: &Vec<char>, index: usize, limit: usize) -> (result: (
    usize,
    Vec<char>,
    bool,
    bool,
))
    requires
        index <= chars@.len(),
    ensures
        ({
            let scan = scan_back(chars@, index as int, limit as nat);
            &&& result.0 == scan.passed
            &&& result.1@.reverse() == scan.name
            &&& result.2 == scan.found
            &&& result.3 == scan.quoted
            &&& result.0 <= index
            &&& result.0 <= limit
        }),
{
    let mut passed: usize = 0;
    let mut reversed: Vec<char> = Vec::new();
    let ghost whole = scan_back(chars@, index as int, limit as nat);
    assert(reversed@.reverse() =~= Seq::<char>::empty());
    assert(whole.name =~= whole.name + Seq::<char>::empty());
    while passed < limit && passed < index
        invariant
            index <= chars@.len(),
            passed <= index,
            passed <= limit,
            ({
                let rest = scan_back(chars@, index - passed, (limit - passed) as nat);
                &&& whole.passed == passed + rest.passed
                &&& whole.name == rest.name + reversed@.reverse()
                &&& whole.found == rest.found
                &&& whole.quoted == rest.quoted
            }),
            whole == scan_back(chars@, index as int, limit as nat),
        decreases limit - passed,
    {
        let at: usize = index - passed;
        let c: char = chars[at - 1];
        let ghost rest = scan_back(chars@, at as int, (limit - passed) as nat);
        let space = is_whitespace(c);
        if space && limit - passed >= 2 && at >= 2 && chars[at - 2] == '\\' {
            let ghost next = scan_back(chars@, at - 2, (limit - passed - 2) as nat);
            let ghost before = reversed@;
            reversed.push(c);
            passed = passed + 2;
            assert(next.name.push(c) + before.reverse() =~= next.name + reversed@.reverse());
        } else if space {
            assert(rest.name + reversed@.reverse() =~= reversed@.reverse());
            return (passed, reversed, true, false);
        } else if c == '"' || c == '\'' {
            assert(rest.name + reversed@.reverse() =~= reversed@.reverse());
            return (passed, reversed, true, true);
        } else {
            let ghost next = scan_back(chars@, at - 1, (limit - passed - 1) as nat);
            let ghost before = reversed@;
            reversed.push(c);
            passed = passed + 1;
            assert(next.name.push(c) + before.reverse() =~= next.name + reversed@.reverse());
        }
    }
    assert(Seq::<char>::empty() + reversed@.reverse() =~= reversed@.reverse());
    (passed, reversed, false, false)
}

/// Scans on for the end of a file name, appending to the name, and returns the number of characters
/// passed and whether a delimiter was found.
fn run_on(
    chars: &Vec<char>,
    index: usize,
    limit: usize,
    quoted: bool,
    name: &mut Vec<char>,
) -> (result: (usize, bool))
    requires
        index <= chars@.len(),
    ensures
        ({
            let scan = scan_on(chars@, index as int, limit as nat, quoted);
            &&& result.0 == scan.passed
            &&& final(name)@ == old(name)@ + scan.name
            &&& result.1 == scan.found
            &&& index + result.0 <= chars@.len()
            &&& result.0 <= limit
        }),
{
    let mut passed: usize = 0;
    let mut inside: bool = quoted;
    let rest_len: usize = chars.len() - index;
    let ghost whole = scan_on(chars@, index as int, limit as nat, quoted);
    let ghost start = name@;
    assert(start + whole.name =~= name@ + whole.name);
    while passed < limit && passed < rest_len
        invariant
            index + rest_len == chars@.len() <= usize::MAX,
            passed <= rest_len,
            passed <= limit,
            ({
                let rest = scan_on(chars@, index + passed, (limit - passed) as nat, inside);
                &&& whole.passed == passed + rest.passed
                &&& start + whole.name == name@ + rest.name
                &&& whole.found == rest.found
            }),
            start == old(name)@,
            whole == scan_on(chars@, index as int, limit as nat, quoted),
        decreases limit - passed,
    {
        let at: usize = index + passed;
        let c: char = chars[at];
        let ghost before = name@;
        let ghost rest = scan_on(chars@, at as int, (limit - passed) as nat, inside);
        if c == '\\' && limit - passed >= 2 && rest_len - passed >= 2 && is_whitespace(
            chars[at + 1],
        ) {
            let space: char = chars[at + 1];
            let ghost next = scan_on(chars@, at + 2, (limit - passed - 2) as nat, inside);
            name.push(space);
            passed = passed + 2;
            assert(before + (seq![space] + next.name) =~= name@ + next.name);
        } else if is_whitespace(c) {
            assert(name@ + rest.name =~= name@);
            return (passed, true);
        } else if c == '"' || c == '\'' {
            if inside {
                assert(name@ + rest.name =~= name@);
                return (passed, true);
            }
            inside = true;
            passed = passed + 1;
        } else {
            let ghost next = scan_on(chars@, at + 1, (limit - passed - 1) as nat, inside);
            name.push(c);
            passed = passed + 1;
            assert(before + (seq![c] + next.name) =~= name@ + next.name);
        }
    }
    assert(name@ + Seq::<char>::empty() =~= name@);
    (passed, false)
}

/// Reverses a list of characters.
fn reversed(chars: &Vec<char>) -> (result: Vec<char>)
    ensures
        result@ == chars@.reverse(),
{
    let mut result: Vec<char> = Vec::new();
    let mut left: usize = chars.len();
    while left > 0
        invariant
            left <= chars@.len(),
            result@.len() == chars@.len() - left,
            forall|i: int| 0 <= i < result@.len() ==> result@[i] == chars@[chars@.len() - 1 - i],
        decreases left,
    {
        left = left - 1;
        result.push(chars[left]);
    }
    assert(result@ =~= chars@.reverse());
    result
}

/// Tells whether the file name around an offset starts close enough for `surrounding_filename` to
/// measure it.
pub fn filename_scan_in_limit(snapshot: &BufferSnapshot, offset: usize) -> (result: bool)
    requires
        is_boundary(snapshot@, offset as int),
    ensures
        result == name_start_in_limit(snapshot@, index_of(snapshot@, offset as int)),
{
    let chars = snapshot.chars();
    match char_index(chars, offset) {
        None => true,
        Some(index) => {
            let (passed, _, found, _) = run_back(chars, index, LIMIT);
            if !found && passed != index {
                true
            } else {
                measure(chars, index - passed, index) <= LIMIT
            }
        },
    }
}

/// Reads the file name around a byte offset of a buffer, with the range that it was read from.
///
/// A name ends at whitespace unless a backslash stands before it, and at quotes. A name that is too
/// long to be followed to both ends is none, and an empty one is none.
pub fn surrounding_filename(snapshot: &BufferSnapshot, offset: usize) -> (found: Option<
    (Range<TextAnchor>, String),
>)
    requires
        is_boundary(snapshot@, offset as int),
        name_start_in_limit(snapshot@, index_of(snapshot@, offset as int)),
    ensures
        found_view(found) == sticking_outwards(
            spec_surrounding_filename(snapshot@, index_of(snapshot@, offset as int)),
        ),
{
    let chars = snapshot.chars();
    let index = match char_index(chars, offset) {
        Some(index) => index,
        None => {
            return None;
        },
    };
    let (passed, backwards, found_start, inside_quotes) = run_back(chars, index, LIMIT);
    let start: usize = index - passed;
    if !found_start && start != 0 {
        return None;
    }
    let mut name = reversed(&backwards);
    let before: usize = measure(chars, start, index);
    let (on, found_end) = run_on(chars, index, LIMIT - before, inside_quotes, &mut name);
    let len: usize = chars.len();
    assert(index + on <= len);
    let end: usize = index + on;
    let bytes: usize = measure(chars, start, end);
    if !found_end && bytes >= LIMIT {
        return None;
    }
    if name.len() == 0 {
        return None;
    }
    proof {
        lemma_byte_len_subrange(chars@, start as int, index as int);
        lemma_byte_len_subrange(chars@, start as int, end as int);
        lemma_index_of(chars@, end as int);
    }
    let token_start: usize = offset - before;
    let filename = collect_text(&name, 0, name.len());
    assert(filename@ =~= name@);
    Some((anchored(token_start, token_start + bytes), filename))
}

/// The range that a file name was read from holds the position that it was looked up for, and the
/// name is not empty.
pub proof fn law_filename_is_read_around_position(chars: Seq<char>, index: int)
    requires
        0 <= index <= chars.len(),
        name_start_in_limit(chars, index),
    ensures
        spec_surrounding_filename(chars, index) matches Some((start, end, name)) ==> {
            &&& 0 <= start <= byte_len(chars.take(index)) <= end <= byte_len(chars)
            &&& is_boundary(chars, start)
            &&& is_boundary(chars, end)
            &&& name.len() > 0
        },
{
    lemma_scan_back(chars, index, LIMIT as nat);
    if let Some(start) = name_start(chars, index) {
        let back = scan_back(chars, index, LIMIT as nat);
        let budget = (LIMIT - byte_len(chars.subrange(start, index))) as nat;
        lemma_scan_on(chars, index, budget, back.quoted);
        let end = index + scan_on(chars, index, budget, back.quoted).passed;
        lemma_byte_len_subrange(chars, start, index);
        lemma_byte_len_subrange(chars, index, end);
        lemma_index_of(chars, start);
        lemma_index_of(chars, end);
    }
}

/// A path that the project resolved a candidate to.
#[derive(Debug)]
pub struct ResolvedPath {
    pub path: String,
    pub is_dir: bool,
}

impl Clone for ResolvedPath {
    fn clone(&self) -> (copy: Self)
        ensures
            copy == *self,
    {
        ResolvedPath { path: self.path.clone(), is_dir: self.is_dir }
    }
}

impl ResolvedPath {
    /// Tells whether the path is that of a file.
    pub fn is_file(&self) -> (result: bool)
        ensures
            result == !self.is_dir,
    {
        !self.is_dir
    }
}

/// Whether a text ends with another.
pub open spec fn ends_with(text: Seq<char>, suffix: Seq<char>) -> bool {
    suffix.len() <= text.len() && text.skip(text.len() - suffix.len()) == suffix
}

/// A path with a suffix behind a dot.
pub open spec fn with_suffix(path: Seq<char>, suffix: Seq<char>) -> Seq<char> {
    path + "."@ + suffix
}

/// The paths to try for a file name: the name itself, then the name with each of the language's path
/// suffixes that it does not have already.
pub open spec fn spec_file_candidates(name: Seq<char>, suffixes: Seq<Seq<char>>) -> Seq<Seq<char>>
    decreases suffixes.len(),
{
    if suffixes.len() == 0 {
        seq![name]
    } else {
        let candidates = spec_file_candidates(name, suffixes.drop_last());
        if ends_with(name, "."@ + suffixes.last()) {
            candidates
        } else {
            candidates.push(with_suffix(name, suffixes.last()))
        }
    }
}

/// Whether a candidate is the name with one of the suffixes, which it does not have already.
pub open spec fn is_suffixed(
    candidate: Seq<char>,
    name: Seq<char>,
    suffixes: Seq<Seq<char>>,
) -> bool {
    exists|suffix: Seq<char>| #[trigger]
        suffixes.contains(suffix) && candidate == with_suffix(name, suffix) && !ends_with(
            name,
            "."@ + suffix,
        )
}

/// The name itself is tried first. Every other candidate is the name with a suffix that it does not
/// have already.
pub proof fn law_name_itself_is_tried_first(name: Seq<char>, suffixes: Seq<Seq<char>>)
    ensures
        spec_file_candidates(name, suffixes).len() >= 1,
        spec_file_candidates(name, suffixes)[0] == name,
        forall|i: int|
            1 <= i < spec_file_candidates(name, suffixes).len() ==> is_suffixed(
                #[trigger] spec_file_candidates(name, suffixes)[i],
                name,
                suffixes,
            ),
    decreases suffixes.len(),
{
    if suffixes.len() > 0 {
        let before = suffixes.drop_last();
        law_name_itself_is_tried_first(name, before);
        let earlier = spec_file_candidates(name, before);
        let candidates = spec_file_candidates(name, suffixes);
        assert forall|i: int| 1 <= i < candidates.len() implies is_suffixed(
            #[trigger] candidates[i],
            name,
            suffixes,
        ) by {
            if i < earlier.len() {
                assert(is_suffixed(earlier[i], name, before));
                let suffix = choose|suffix: Seq<char>| #[trigger]
                    before.contains(suffix) && earlier[i] == with_suffix(name, suffix)
                        && !ends_with(name, "."@ + suffix);
                let j = choose|j: int| 0 <= j < before.len() && before[j] == suffix;
                assert(suffixes[j] == suffix);
                assert(suffixes.contains(suffix));
            } else {
                assert(suffixes[suffixes.len() - 1] == suffixes.last());
                assert(suffixes.contains(suffixes.last()));
            }
        }
    }
}

/// The texts of a list of strings.
pub open spec fn texts(strings: Seq<String>) -> Seq<Seq<char>> {
    strings.map_values(|s: String| s@)
}

/// Tells whether a text ends with a suffix behind a dot.
fn has_suffix(text: &str, suffix: &str) -> (result: bool)
    ensures
        result == ends_with(text@, "."@ + suffix@),
{
    let chars = chars_of(text);
    let mut dotted = String::new();
    dotted.append(".");
    dotted.append(suffix);
    assert(dotted@ =~= "."@ + suffix@);
    let end = chars_of(dotted.as_str());
    if end.len() > chars.len() {
        return false;
    }
    let from: usize = chars.len() - end.len();
    let mut i: usize = 0;
    while i < end.len()
        invariant
            from + end@.len() == chars@.len() <= usize::MAX,
            i <= end@.len(),
            forall|j: int| 0 <= j < i ==> chars@[from + j] == end@[j],
            chars@ == text@,
            end@ == "."@ + suffix@,
        decreases end@.len() - i,
    {
        if chars[from + i] != end[i] {
            assert(chars@.skip(from as int)[i as int] != end@[i as int]);
            return false;
        }
        i = i + 1;
    }
    assert(chars@.skip(from as int) =~= end@);
    true
}

/// Lists the paths to try for a file name.
pub fn file_candidates(name: &str, suffixes: &Vec<String>) -> (candidates: Vec<String>)
    ensures
        texts(candidates@) == spec_file_candidates(name@, texts(suffixes@)),
        candidates@.len() >= 1,
{
    let mut candidates: Vec<String> = Vec::new();
    candidates.push(name.to_owned());
    let mut i: usize = 0;
    assert(texts(suffixes@).take(0) =~= Seq::<Seq<char>>::empty());
    assert(texts(candidates@) =~= seq![name@]);
    while i < suffixes.len()
        invariant
            i <= suffixes@.len(),
            candidates@.len() >= 1,
            texts(candidates@) == spec_file_candidates(name@, texts(suffixes@).take(i as int)),
        decreases suffixes@.len() - i,
    {
        let suffix = suffixes[i].as_str();
        proof {
            let next = texts(suffixes@).take(i + 1);
            assert(next.drop_last() =~= texts(suffixes@).take(i as int));
            assert(next.last() == suffix@);
        }
        if !has_suffix(name, suffix) {
            let ghost before = texts(candidates@);
            let mut candidate = name.to_owned();
            candidate.append(".");
            candidate.append(suffix);
            candidates.push(candidate);
            assert(texts(candidates@) =~= before.push(with_suffix(name@, suffix@)));
        }
        i = i + 1;
    }
    assert(texts(suffixes@).take(i as int) =~= texts(suffixes@));
    candidates
}

/// A search for the file that a file name stands for. The candidates are tried in order.
pub struct FileSearch {
    /// The range that the name was read from.
    pub range: Range<TextAnchor>,
    pub candidates: Vec<String>,
    /// The candidate whose answer is awaited.
    pub next: usize,
}

/// What a search needs next.
pub enum FileStep {
    /// Ask the project what the candidate of this index resolves to.
    Check(usize),
    /// The search ended with a file.
    Found(ResolvedPath),
    /// No candidate is a file.
    NotFound,
}

impl FileSearch {
    /// Whether an answer is still awaited.
    pub open spec fn awaits(self) -> bool {
        self.next < self.candidates@.len()
    }

    /// Starts a search for the file name at a byte offset. There is none without a project or without
    /// a file name. The suffixes are those of the language at the offset; a position without a
    /// language has none.
    pub fn start(
        has_project: bool,
        snapshot: &BufferSnapshot,
        offset: usize,
        suffixes: &Vec<String>,
    ) -> (search: Option<Self>)
        requires
            is_boundary(snapshot@, offset as int),
            name_start_in_limit(snapshot@, index_of(snapshot@, offset as int)),
        ensures
            match spec_surrounding_filename(snapshot@, index_of(snapshot@, offset as int)) {
                Some((start, end, name)) if has_project => search matches Some(search) && {
                    &&& search.range == spec_anchored(start as usize, end as usize)
                    &&& texts(search.candidates@) == spec_file_candidates(name, texts(suffixes@))
                    &&& search.next == 0
                    &&& search.awaits()
                },
                _ => search is None,
            },
    {
        if !has_project {
            return None;
        }
        match surrounding_filename(snapshot, offset) {
            None => None,
            Some((range, name)) => {
                let candidates = file_candidates(name.as_str(), suffixes);
                Some(FileSearch { range, candidates, next: 0 })
            },
        }
    }

    /// Takes the answer for the awaited candidate: what it resolves to, if it resolves at all. The
    /// first candidate that resolves to a file ends the search; a directory does not.
    pub fn answer(&mut self, resolved: Option<ResolvedPath>) -> (step: FileStep)
        requires
            old(self).awaits(),
        ensures
            final(self).range == old(self).range,
            final(self).candidates == old(self).candidates,
            step == spec_answer(old(self).next as int, old(self).candidates@.len() as int, resolved),
            final(self).next == if step is Found {
                old(self).next as int
            } else {
                old(self).next + 1
            },
            step is Check ==> final(self).awaits(),
    {
        if let Some(path) = resolved {
            if path.is_file() {
                return FileStep::Found(path);
            }
        }
        let len: usize = self.candidates.len();
        self.next = self.next + 1;
        if self.next < len {
            FileStep::Check(self.next)
        } else {
            FileStep::NotFound
        }
    }
}

/// What a search does with the answer for the candidate at `next`, out of `count` candidates.
pub open spec fn spec_answer(next: int, count: int, resolved: Option<ResolvedPath>) -> FileStep {
    match resolved {
        Some(path) if !path.is_dir => FileStep::Found(path),
        _ => if next + 1 < count {
            FileStep::Check((next + 1) as usize)
        } else {
            FileStep::NotFound
        },
    }
}

/// The file with which a search ends that awaits its answer at `next`, when the candidates resolve
/// as listed.
pub open spec fn search_outcome(resolved: Seq<Option<ResolvedPath>>, next: int) -> Option<
    ResolvedPath,
>
    decreases resolved.len() - next,
{
    if next < 0 || next >= resolved.len() {
        None
    } else {
        match spec_answer(next, resolved.len() as int, resolved[next]) {
            FileStep::Found(path) => Some(path),
            FileStep::NotFound => None,
            FileStep::Check(_) => search_outcome(resolved, next + 1),
        }
    }
}

/// A search ends with a file that some candidate resolves to, and no earlier candidate resolves to a
/// file; it ends without one only if no candidate does.
pub proof fn law_first_file_among_candidates_is_found(resolved: Seq<Option<ResolvedPath>>, next: int)
    requires
        0 <= next <= resolved.len() <= usize::MAX,
    ensures
        match search_outcome(resolved, next) {
            Some(path) => exists|i: int|
                #![trigger resolved[i]]
                next <= i < resolved.len() && resolved[i] == Some(path) && !path.is_dir && forall|
                    j: int,
                |
                    next <= j < i ==> (#[trigger] resolved[j] matches Some(other) ==> other.is_dir),
            None => forall|j: int|
                next <= j < resolved.len() ==> (#[trigger] resolved[j] matches Some(other)
                    ==> other.is_dir),
        },
    decreases resolved.len() - next,
{
    if next < resolved.len() {
        law_first_file_among_candidates_is_found(resolved, next + 1);
        assert(resolved[next] == resolved[next]);
    }
}

/// Whether a character of a range is not part of the file name read from the range: a quotation mark,
/// or a backslash directly before whitespace.
pub open spec fn is_left_out(chars: Seq<char>, i: int, end: int) -> bool {
    ||| chars[i] == '"'
    ||| chars[i] == '\''
    ||| chars[i] == '\\' && i + 1 < end && spec_is_whitespace(chars[i + 1])
}

/// What stands in a range up to an index, without what is left out of the range.
pub open spec fn read_between(chars: Seq<char>, start: int, index: int, end: int) -> Seq<char>
    decreases index - start,
{
    if index <= start {
        Seq::empty()
    } else {
        let before = read_between(chars, start, index - 1, end);
        if is_left_out(chars, index - 1, end) {
            before
        } else {
            before.push(chars[index - 1])
        }
    }
}

/// Whether a character is a quotation mark.
pub open spec fn is_mark(c: char) -> bool {
    c == '"' || c == '\''
}

/// Whether the whitespace of a stretch stands directly behind backslashes of the stretch.
pub open spec fn spaces_escaped(chars: Seq<char>, start: int, end: int) -> bool {
    forall|i: int|
        start <= i < end && spec_is_whitespace(#[trigger] chars[i]) ==> i > start && chars[i - 1]
            == '\\'
}

/// Whether a stretch holds no quotation mark.
pub open spec fn no_marks(chars: Seq<char>, start: int, end: int) -> bool {
    forall|i: int| start <= i < end ==> !is_mark(#[trigger] chars[i])
}

/// Whether a stretch holds at most one quotation mark.
pub open spec fn at_most_one_mark(chars: Seq<char>, start: int, end: int) -> bool {
    forall|i: int, j: int|
        start <= i < j < end ==> !(is_mark(#[trigger] chars[i]) && is_mark(#[trigger] chars[j]))
}

/// Whether a range around an index reaches from delimiter to delimiter: whitespace that no backslash
/// escapes, the quotation mark that opens the name or the one that closes it, or an end of the text.
pub open spec fn is_name_range(chars: Seq<char>, start: int, index: int, end: int) -> bool {
    let opened = start > 0 && is_mark(chars[start - 1]);
    &&& 0 <= start <= index <= end <= chars.len()
    &&& spaces_escaped(chars, start, index)
    &&& spaces_escaped(chars, index, end)
    &&& no_marks(chars, start, index)
    &&& at_most_one_mark(chars, index, end)
    &&& opened ==> no_marks(chars, index, end)
    &&& {
        ||| start == 0
        ||| opened
        ||| spec_is_whitespace(chars[start - 1]) && !(start >= 2 && chars[start - 2] == '\\')
    }
    &&& {
        ||| end == chars.len()
        ||| spec_is_whitespace(chars[end]) && !(end > index && chars[end - 1] == '\\')
        ||| is_mark(chars[end]) && (opened || !no_marks(chars, index, end))
    }
}

proof fn lemma_read_end(chars: Seq<char>, start: int, index: int, end: int, other: int)
    requires
        index <= end,
        index <= other,
        index > start ==> is_left_out(chars, index - 1, end) == is_left_out(
            chars,
            index - 1,
            other,
        ),
    ensures
        read_between(chars, start, index, end) == read_between(chars, start, index, other),
    decreases index - start,
{
    if index > start {
        lemma_read_end(chars, start, index - 1, end, other);
    }
}

proof fn lemma_read_concat(chars: Seq<char>, start: int, middle: int, index: int, end: int)
    requires
        start <= middle <= index,
    ensures
        read_between(chars, start, index, end) == read_between(chars, start, middle, end)
            + read_between(chars, middle, index, end),
    decreases index - middle,
{
    if index > middle {
        lemma_read_concat(chars, start, middle, index - 1, end);
        assert(read_between(chars, start, index, end) =~= read_between(chars, start, middle, end)
            + read_between(chars, middle, index, end));
    } else {
        assert(read_between(chars, start, index, end) =~= read_between(chars, start, middle, end)
            + read_between(chars, middle, index, end));
    }
}

proof fn lemma_read_first(chars: Seq<char>, start: int, end: int)
    requires
        start < end,
    ensures
        read_between(chars, start, end, end) == (if is_left_out(chars, start, end) {
            Seq::empty()
        } else {
            seq![chars[start]]
        }) + read_between(chars, start + 1, end, end),
{
    lemma_read_concat(chars, start, start + 1, end, end);
    assert(read_between(chars, start, start, end) =~= Seq::<char>::empty());
    assert(read_between(chars, start, start + 1, end) =~= if is_left_out(chars, start, end) {
        Seq::empty()
    } else {
        seq![chars[start]]
    });
}

proof fn lemma_scanned_back(chars: Seq<char>, index: int, limit: nat)
    requires
        0 <= index <= chars.len(),
    ensures
        ({
            let scan = scan_back(chars, index, limit);
            let start = index - scan.passed;
            &&& 0 <= start
            &&& scan.passed <= limit
            &&& spaces_escaped(chars, start, index)
            &&& no_marks(chars, start, index)
            &&& scan.name == read_between(chars, start, index, index)
            &&& scan.found ==> start > 0 && if scan.quoted {
                is_mark(chars[start - 1])
            } else {
                spec_is_whitespace(chars[start - 1])
            }
            &&& !scan.found ==> !scan.quoted && (start == 0 || scan.passed == limit)
        }),
    decreases limit,
{
    if limit > 0 && index > 0 {
        let c = chars[index - 1];
        let scan = scan_back(chars, index, limit);
        let start = index - scan.passed;
        if spec_is_whitespace(c) && limit >= 2 && index >= 2 && chars[index - 2] == '\\' {
            lemma_scanned_back(chars, index - 2, (limit - 2) as nat);
            lemma_read_end(chars, start, index - 2, index - 2, index);
            assert(is_left_out(chars, index - 2, index));
            assert(read_between(chars, start, index - 1, index) == read_between(
                chars,
                start,
                index - 2,
                index,
            ));
        } else if spec_is_whitespace(c) || is_quote(c) {
        } else {
            lemma_scanned_back(chars, index - 1, (limit - 1) as nat);
            lemma_read_end(chars, start, index - 1, index - 1, index);
        }
    }
}

proof fn lemma_scanned_on(chars: Seq<char>, index: int, limit: nat, quoted: bool)
    requires
        0 <= index <= chars.len(),
    ensures
        ({
            let scan = scan_on(chars, index, limit, quoted);
            let end = index + scan.passed;
            &&& end <= chars.len()
            &&& scan.passed <= limit
            &&& spaces_escaped(chars, index, end)
            &&& quoted ==> no_marks(chars, index, end)
            &&& at_most_one_mark(chars, index, end)
            &&& scan.name == read_between(chars, index, end, end)
            &&& scan.found ==> end < chars.len() && {
                ||| spec_is_whitespace(chars[end])
                ||| is_mark(chars[end]) && (quoted || !no_marks(chars, index, end))
            }
            &&& !scan.found ==> end == chars.len() || scan.passed == limit
        }),
    decreases limit,
{
    if limit > 0 && index < chars.len() {
        let c = chars[index];
        let scan = scan_on(chars, index, limit, quoted);
        let end = index + scan.passed;
        if c == '\\' && limit >= 2 && index + 1 < chars.len() && spec_is_whitespace(
            chars[index + 1],
        ) {
            lemma_scanned_on(chars, index + 2, (limit - 2) as nat, quoted);
            lemma_read_first(chars, index, end);
            lemma_read_first(chars, index + 1, end);
            assert(spaces_escaped(chars, index, end)) by {
                assert forall|i: int| index <= i < end && spec_is_whitespace(#[trigger] chars[i])
                    implies i > index && chars[i - 1] == '\\' by {
                    if i >= index + 2 {
                        assert(spaces_escaped(chars, index + 2, end));
                    }
                }
            }
            assert(scan.name =~= read_between(chars, index, end, end));
            if !no_marks(chars, index + 2, end) {
                let i = choose|i: int| index + 2 <= i < end && is_mark(#[trigger] chars[i]);
                assert(is_mark(chars[i]));
            }
        } else if spec_is_whitespace(c) || is_quote(c) && quoted {
        } else if is_quote(c) {
            lemma_scanned_on(chars, index + 1, (limit - 1) as nat, true);
            lemma_read_first(chars, index, end);
            assert(is_mark(chars[index]));
            assert(spaces_escaped(chars, index, end)) by {
                assert forall|i: int| index <= i < end && spec_is_whitespace(#[trigger] chars[i])
                    implies i > index && chars[i - 1] == '\\' by {
                    if i >= index + 1 {
                        assert(spaces_escaped(chars, index + 1, end));
                    }
                }
            }
            assert(scan.name =~= read_between(chars, index, end, end));
        } else {
            lemma_scanned_on(chars, index + 1, (limit - 1) as nat, quoted);
            lemma_read_first(chars, index, end);
            assert(spaces_escaped(chars, index, end)) by {
                assert forall|i: int| index <= i < end && spec_is_whitespace(#[trigger] chars[i])
                    implies i > index && chars[i - 1] == '\\' by {
                    if i >= index + 1 {
                        assert(spaces_escaped(chars, index + 1, end));
                    }
                }
            }
            if c == '\\' && index + 1 < end {
                assert(!spec_is_whitespace(chars[index + 1])) by {
                    assert(spaces_escaped(chars, index + 1, end));
                }
            }
            assert(scan.name =~= read_between(chars, index, end, end));
            if !no_marks(chars, index + 1, end) {
                let i = choose|i: int| index + 1 <= i < end && is_mark(#[trigger] chars[i]);
                assert(is_mark(chars[i]));
            }
        }
    }
}

/// What a file name is read from. Whitespace in the range stands directly behind a backslash. The range
/// holds at most one quotation mark, behind the position, and reaches on both sides to a delimiter or to
/// an end of the text. The name is what stands in the range, without quotation marks and without the
/// backslashes before whitespace.
pub proof fn law_filename_is_what_its_range_holds(chars: Seq<char>, index: int)
    requires
        0 <= index <= chars.len(),
        name_start_in_limit(chars, index),
    ensures
        spec_surrounding_filename(chars, index) matches Some((from, to, name)) ==> {
            let start = index_of(chars, from);
            let end = index_of(chars, to);
            &&& 0 <= start <= index <= end <= chars.len()
            &&& from == byte_len(chars.take(start))
            &&& to == byte_len(chars.take(end))
            &&& spaces_escaped(chars, start, end)
            &&& no_marks(chars, start, index)
            &&& at_most_one_mark(chars, index, end)
            &&& start == 0 || is_mark(chars[start - 1]) || spec_is_whitespace(chars[start - 1])
            &&& start > 0 && is_mark(chars[start - 1]) ==> no_marks(chars, index, end)
            &&& end == chars.len() || spec_is_whitespace(chars[end]) || is_mark(chars[end])
            &&& name == read_between(chars, start, end, end)
            &&& name.len() > 0
        },
{
    if let Some(start) = name_start(chars, index) {
        let back = scan_back(chars, index, LIMIT as nat);
        let budget = (LIMIT - byte_len(chars.subrange(start, index))) as nat;
        let on = scan_on(chars, index, budget, back.quoted);
        let end = index + on.passed;
        lemma_scanned_back(chars, index, LIMIT as nat);
        lemma_scanned_on(chars, index, budget, back.quoted);
        lemma_index_of(chars, start);
        lemma_index_of(chars, end);
        lemma_byte_len_subrange(chars, start, index);
        lemma_byte_len_subrange(chars, index, end);
        lemma_byte_len_subrange(chars, start, end);
        if spec_surrounding_filename(chars, index) is Some {
            assert(on.found || end == chars.len());
            lemma_read_concat(chars, start, index, end, end);
            if index < end {
                assert(!spec_is_whitespace(chars[index]));
            }
            lemma_read_end(chars, start, index, index, end);
            assert(spaces_escaped(chars, start, end));
        }
    }
}

proof fn lemma_plain_read(chars: Seq<char>, start: int, index: int, end: int)
    requires
        0 <= start <= index <= end <= chars.len(),
        forall|i: int| start <= i < index ==> !is_left_out(chars, i, end),
    ensures
        read_between(chars, start, index, end) == chars.subrange(start, index),
    decreases index - start,
{
    if index > start {
        lemma_plain_read(chars, start, index - 1, end);
        assert(chars.subrange(start, index) =~= chars.subrange(start, index - 1).push(
            chars[index - 1],
        ));
    } else {
        assert(chars.subrange(start, index) =~= Seq::<char>::empty());
    }
}

/// A file name whose range holds no backslash and no quotation mark is the text of the range, which
/// holds no whitespace then.
pub proof fn law_plain_filename_is_the_text_of_its_range(chars: Seq<char>, index: int)
    requires
        0 <= index <= chars.len(),
        name_start_in_limit(chars, index),
    ensures
        spec_surrounding_filename(chars, index) matches Some((from, to, name)) ==> {
            let start = index_of(chars, from);
            let end = index_of(chars, to);
            (forall|i: int| start <= i < end ==> #[trigger] chars[i] != '\\' && !is_mark(chars[i]))
                ==> {
                &&& name == chars.subrange(start, end)
                &&& forall|i: int| start <= i < end ==> !spec_is_whitespace(#[trigger] chars[i])
            }
        },
{
    law_filename_is_what_its_range_holds(chars, index);
    if let Some((from, to, name)) = spec_surrounding_filename(chars, index) {
        let start = index_of(chars, from);
        let end = index_of(chars, to);
        if forall|i: int| start <= i < end ==> #[trigger] chars[i] != '\\' && !is_mark(chars[i]) {
            lemma_plain_read(chars, start, end, end);
            assert forall|i: int| start <= i < end implies !spec_is_whitespace(
                #[trigger] chars[i],
            ) by {
                if spec_is_whitespace(chars[i]) {
                    assert(chars[i - 1] == '\\');
                }
            }
        }
    }
}

pub proof fn lemma_back_reaches(chars: Seq<char>, start: int, index: int, limit: nat)
    requires
        0 <= start <= index <= chars.len(),
        index - start < limit,
        spaces_escaped(chars, start, index),
        no_marks(chars, start, index),
        start == 0 || is_mark(chars[start - 1]) || spec_is_whitespace(chars[start - 1]) && !(start
            >= 2 && chars[start - 2] == '\\'),
    ensures
        scan_back(chars, index, limit).passed == index - start,
        scan_back(chars, index, limit).found == (start > 0),
        scan_back(chars, index, limit).quoted == (start > 0 && is_mark(chars[start - 1])),
    decreases limit,
{
    if index > start {
        let c = chars[index - 1];
        assert(!is_mark(c));
        if spec_is_whitespace(c) {
            assert(index - 1 > start && chars[index - 2] == '\\');
            lemma_back_reaches(chars, start, index - 2, (limit - 2) as nat);
        } else {
            lemma_back_reaches(chars, start, index - 1, (limit - 1) as nat);
        }
    }
}

proof fn lemma_on_reaches(chars: Seq<char>, index: int, end: int, limit: nat, quoted: bool)
    requires
        0 <= index <= end <= chars.len(),
        end - index < limit,
        spaces_escaped(chars, index, end),
        at_most_one_mark(chars, index, end),
        quoted ==> no_marks(chars, index, end),
        ({
            ||| end == chars.len()
            ||| spec_is_whitespace(chars[end]) && !(end > index && chars[end - 1] == '\\')
            ||| is_mark(chars[end]) && (quoted || !no_marks(chars, index, end))
        }),
    ensures
        scan_on(chars, index, limit, quoted).passed == end - index,
        scan_on(chars, index, limit, quoted).found == (end < chars.len()),
    decreases limit,
{
    if index < end {
        let c = chars[index];
        assert(!spec_is_whitespace(c));
        if c == '\\' && index + 1 < chars.len() && spec_is_whitespace(chars[index + 1]) {
            assert(index + 1 < end);
            assert(spaces_escaped(chars, index + 2, end)) by {
                assert forall|i: int|
                    index + 2 <= i < end && spec_is_whitespace(#[trigger] chars[i]) implies i
                    > index + 2 && chars[i - 1] == '\\' by {
                    assert(chars[i - 1] == '\\');
                }
            }
            if !no_marks(chars, index, end) {
                let i = choose|i: int| index <= i < end && is_mark(#[trigger] chars[i]);
                assert(i >= index + 2);
                assert(!no_marks(chars, index + 2, end));
            }
            lemma_on_reaches(chars, index + 2, end, (limit - 2) as nat, quoted);
        } else {
            assert(spaces_escaped(chars, index + 1, end)) by {
                assert forall|i: int|
                    index + 1 <= i < end && spec_is_whitespace(#[trigger] chars[i]) implies i
                    > index + 1 && chars[i - 1] == '\\' by {
                    assert(chars[i - 1] == '\\');
                }
            }
            if is_mark(c) {
                assert forall|i: int| index + 1 <= i < end implies !is_mark(#[trigger] chars[i]) by {
                    assert(!(is_mark(chars[index]) && is_mark(chars[i])));
                }
                lemma_on_reaches(chars, index + 1, end, (limit - 1) as nat, true);
            } else {
                if !no_marks(chars, index, end) {
                    let i = choose|i: int| index <= i < end && is_mark(#[trigger] chars[i]);
                    assert(i >= index + 1);
                    assert(!no_marks(chars, index + 1, end));
                }
                lemma_on_reaches(chars, index + 1, end, (limit - 1) as nat, quoted);
            }
        }
    }
}

/// The file name around a position is found whenever the range between its delimiters is shorter than the
/// limit: it is what the range holds, unless that is nothing.
pub proof fn law_filename_between_delimiters_is_found(
    chars: Seq<char>,
    start: int,
    index: int,
    end: int,
)
    requires
        is_name_range(chars, start, index, end),
        byte_len(chars.subrange(start, end)) < LIMIT,
    ensures
        name_start_in_limit(chars, index),
        spec_surrounding_filename(chars, index) == if read_between(chars, start, end, end).len()
            == 0 {
            None
        } else {
            Some(
                (
                    byte_len(chars.take(start)) as int,
                    byte_len(chars.take(end)) as int,
                    read_between(chars, start, end, end),
                ),
            )
        },
{
    lemma_byte_len_subrange(chars, start, index);
    lemma_byte_len_subrange(chars, index, end);
    lemma_byte_len_subrange(chars, start, end);
    lemma_back_reaches(chars, start, index, LIMIT as nat);
    let back = scan_back(chars, index, LIMIT as nat);
    let budget = (LIMIT - byte_len(chars.subrange(start, index))) as nat;
    lemma_on_reaches(chars, index, end, budget, back.quoted);
    lemma_scanned_back(chars, index, LIMIT as nat);
    lemma_scanned_on(chars, index, budget, back.quoted);
    lemma_read_concat(chars, start, index, end, end);
    if index < end {
        assert(!spec_is_whitespace(chars[index]));
    }
    lemma_read_end(chars, start, index, index, end);
}

proof fn lemma_on_stops(chars: Seq<char>, index: int, end: int, limit: nat, quoted: bool)
    requires
        0 <= index <= end <= chars.len(),
        limit <= end - index,
        spaces_escaped(chars, index, end),
        at_most_one_mark(chars, index, end),
        quoted ==> no_marks(chars, index, end),
    ensures
        scan_on(chars, index, limit, quoted).passed == limit,
        !scan_on(chars, index, limit, quoted).found,
    decreases limit,
{
    if limit > 0 {
        let c = chars[index];
        assert(!spec_is_whitespace(c));
        if c == '\\' && limit >= 2 && spec_is_whitespace(chars[index + 1]) {
            assert(spaces_escaped(chars, index + 2, end)) by {
                assert forall|i: int|
                    index + 2 <= i < end && spec_is_whitespace(#[trigger] chars[i]) implies i
                    > index + 2 && chars[i - 1] == '\\' by {
                    assert(chars[i - 1] == '\\');
                }
            }
            lemma_on_stops(chars, index + 2, end, (limit - 2) as nat, quoted);
        } else if limit >= 2 {
            assert(spaces_escaped(chars, index + 1, end)) by {
                assert forall|i: int|
                    index + 1 <= i < end && spec_is_whitespace(#[trigger] chars[i]) implies i
                    > index + 1 && chars[i - 1] == '\\' by {
                    assert(chars[i - 1] == '\\');
                }
            }
            if is_mark(c) {
                assert forall|i: int| index + 1 <= i < end implies !is_mark(#[trigger] chars[i]) by {
                    assert(!(is_mark(chars[index]) && is_mark(chars[i])));
                }
                lemma_on_stops(chars, index + 1, end, (limit - 1) as nat, true);
            } else {
                lemma_on_stops(chars, index + 1, end, (limit - 1) as nat, quoted);
            }
        } else {
            assert(limit == 1);
            reveal_with_fuel(scan_on, 2);
        }
    }
}

/// Which file names are too long: those whose range is not shorter than the limit, where behind the
/// position each character counts as one if a delimiter ends the range.
pub proof fn law_long_filename_is_none(chars: Seq<char>, start: int, index: int, end: int)
    requires
        is_name_range(chars, start, index, end),
        index - start < LIMIT,
        name_start_in_limit(chars, index),
    ensures
        spec_surrounding_filename(chars, index) is Some <==> read_between(
            chars,
            start,
            end,
            end,
        ).len() > 0 && (byte_len(chars.subrange(start, end)) < LIMIT || end < chars.len()
            && byte_len(chars.subrange(start, index)) + (end - index) < LIMIT),
        spec_surrounding_filename(chars, index) matches Some(found) ==> found == (
            byte_len(chars.take(start)) as int,
            byte_len(chars.take(end)) as int,
            read_between(chars, start, end, end),
        ),
{
    lemma_byte_len_subrange(chars, start, index);
    lemma_byte_len_subrange(chars, index, end);
    lemma_byte_len_subrange(chars, start, end);
    lemma_back_reaches(chars, start, index, LIMIT as nat);
    let back = scan_back(chars, index, LIMIT as nat);
    let budget = (LIMIT - byte_len(chars.subrange(start, index))) as nat;
    lemma_scanned_back(chars, index, LIMIT as nat);
    lemma_scanned_on(chars, index, budget, back.quoted);
    lemma_read_concat(chars, start, index, end, end);
    if index < end {
        assert(!spec_is_whitespace(chars[index]));
    }
    lemma_read_end(chars, start, index, index, end);
    if end - index < budget {
        lemma_on_reaches(chars, index, end, budget, back.quoted);
    } else {
        lemma_on_stops(chars, index, end, budget, back.quoted);
        let reached = index + budget;
        lemma_byte_len_subrange(chars, index, reached);
        lemma_byte_len_subrange(chars, start, reached);
    }
}

/// Each further suffix adds one candidate, unless the name ends with it already: the name, a dot and the
/// suffix. Without suffixes, the name alone is tried.
pub proof fn law_each_missing_suffix_adds_a_candidate(
    name: Seq<char>,
    suffixes: Seq<Seq<char>>,
    suffix: Seq<char>,
)
    ensures
        spec_file_candidates(name, Seq::empty()) == seq![name],
        ({
            let dotted = "."@ + suffix;
            let before = spec_file_candidates(name, suffixes);
            let after = spec_file_candidates(name, suffixes.push(suffix));
            if exists|stem: Seq<char>| name == #[trigger] (stem + dotted) {
                after == before
            } else {
                after == before.push(name + dotted)
            }
        }),
{
    let dotted = "."@ + suffix;
    let more = suffixes.push(suffix);
    assert(more.drop_last() =~= suffixes);
    assert(name + "."@ + suffix =~= name + dotted);
    if ends_with(name, dotted) {
        let stem = name.take(name.len() - dotted.len());
        assert(name =~= stem + dotted);
    }
    if exists|stem: Seq<char>| name == #[trigger] (stem + dotted) {
        let stem = choose|stem: Seq<char>| name == #[trigger] (stem + dotted);
        assert(name.skip(name.len() - dotted.len()) =~= dotted);
    }
}

} // verus!
