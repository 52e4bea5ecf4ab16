//! The pair of brackets around the cursor.

use std::ops::Range;
use vstd::prelude::*;

use crate::editor::Editor;
use crate::text::{
    byte_len, char_index, index_of, is_boundary, lemma_byte_len_take_next, lemma_index_of,
    spec_utf8_width, utf8_width, BufferSnapshot,
};

verus! {

/// What a cursor looks like.
#[derive(Debug, Clone, Copy, PartialEq, Eq, Structural)]
pub enum CursorShape {
    Bar,
    Block,
    Underline,
    Hollow,
}

impl CursorShape {
    /// Whether a cursor covers the character behind it.
    pub open spec fn covers(self) -> bool {
        self == CursorShape::Block || self == CursorShape::Hollow
    }
}

/// A selection in a buffer, by byte offsets.
#[derive(Debug, Clone, Copy, PartialEq, Eq, Structural)]
pub struct Selection {
    pub start: usize,
    pub end: usize,
    /// Whether the cursor is at the start.
    pub reversed: bool,
}

impl Selection {
    /// Where the cursor is.
    pub open spec fn spec_head(self) -> usize {
        if self.reversed {
            self.start
        } else {
            self.end
        }
    }

    /// Where the cursor is.
    pub fn head(&self) -> (head: usize)
        ensures
            head == self.spec_head(),
    {
        if self.reversed {
            self.start
        } else {
            self.end
        }
    }

    /// Tells whether nothing is selected.
    pub fn is_empty(&self) -> (result: bool)
        ensures
            result == (self.start == self.end),
    {
        self.start == self.end
    }
}

/// A bracket and its counterpart, by byte offsets.
#[derive(Debug)]
pub struct BracketPair {
    pub opening: Range<usize>,
    pub closing: Range<usize>,
}

/// What enclosing brackets are looked for: the cursor, with the character that it covers.
pub open spec fn spec_bracket_query(
    selection: Selection,
    shape: CursorShape,
    text: Seq<char>,
) -> Option<(int, int)> {
    let head = selection.spec_head() as int;
    if selection.start != selection.end || head > byte_len(text) {
        None
    } else if shape.covers() && head < byte_len(text) {
        Some((head, head + spec_utf8_width(text[index_of(text, head)])))
    } else {
        Some((head, head))
    }
}

impl Editor {
    /// Takes the highlight of brackets away, and returns where to look for new ones: nowhere if text is
    /// selected, or if the cursor lies behind the end of the buffer.
    pub fn refresh_matching_bracket_highlights(
        &mut self,
        newest_selection: Selection,
        buffer: &BufferSnapshot,
    ) -> (query: Option<Range<usize>>)
        requires
            newest_selection.spec_head() <= byte_len(buffer@) ==> is_boundary(
                buffer@,
                newest_selection.spec_head() as int,
            ),
        ensures
            *final(self) == (Editor { bracket_highlight: None, ..*old(self) }),
            match spec_bracket_query(newest_selection, old(self).cursor_shape, buffer@) {
                Some((start, end)) => {
                    &&& query matches Some(range)
                    &&& range.start == start
                    &&& range.end == end
                },
                None => query is None,
            },
    {
        self.bracket_highlight = None;
        if !newest_selection.is_empty() {
            return None;
        }
        let head = newest_selection.head();
        let len = buffer.len();
        if head > len {
            return None;
        }
        let mut tail = head;
        if (self.cursor_shape == CursorShape::Block || self.cursor_shape == CursorShape::Hollow)
            && head < len {
            let chars = buffer.chars();
            if let Some(index) = char_index(chars, head) {
                if index < chars.len() {
                    proof {
                        lemma_byte_len_take_next(chars@, index as int);
                        lemma_index_of(chars@, index + 1);
                    }
                    tail = tail + utf8_width(chars[index]);
                } else {
                    assert(chars@.take(index as int) =~= chars@);
                }
            }
        }
        Some(head..tail)
    }

    /// Highlights the innermost pair of brackets, if there is one.
    pub fn highlight_brackets(&mut self, pair: Option<BracketPair>)
        ensures
            *final(self) == (Editor {
                bracket_highlight: if pair is Some {
                    pair
                } else {
                    old(self).bracket_highlight
                },
                ..*old(self)
            }),
    {
        if pair.is_some() {
            self.bracket_highlight = pair;
        }
    }
}

/// What brackets are looked for lies within the buffer, and covers at most one character.
pub proof fn law_bracket_query_lies_in_buffer(
    selection: Selection,
    shape: CursorShape,
    text: Seq<char>,
)
    requires
        selection.spec_head() <= byte_len(text) ==> is_boundary(text, selection.spec_head() as int),
    ensures
        spec_bracket_query(selection, shape, text) matches Some((start, end)) ==> {
            &&& start == selection.spec_head()
            &&& start <= end <= byte_len(text)
            &&& is_boundary(text, end)
            &&& end == start || index_of(text, end) == index_of(text, start) + 1
        },
{
    let head = selection.spec_head() as int;
    if head <= byte_len(text) {
        let i = index_of(text, head);
        assert(0 <= i <= text.len() && byte_len(text.take(i)) == head);
        if i < text.len() {
            lemma_byte_len_take_next(text, i);
            lemma_index_of(text, i + 1);
            lemma_index_of(text, i);
        } else {
            assert(text.take(i) =~= text);
        }
    }
}

/// Brackets are looked for exactly at an empty selection within the buffer: from the cursor on, over the
/// character there if the cursor is a block or hollow and there is one, and over nothing otherwise.
pub proof fn law_brackets_are_looked_for_at_the_cursor(
    selection: Selection,
    shape: CursorShape,
    text: Seq<char>,
    i: int,
)
    requires
        0 <= i <= text.len(),
        selection.end == byte_len(text.take(i)),
        selection.start == selection.end,
    ensures
        ({
            let covering = shape is Block || shape is Hollow;
            spec_bracket_query(selection, shape, text) == Some(
                (
                    byte_len(text.take(i)) as int,
                    if covering && i < text.len() {
                        byte_len(text.take(i + 1)) as int
                    } else {
                        byte_len(text.take(i)) as int
                    },
                ),
            )
        }),
{
    lemma_index_of(text, i);
    if i < text.len() {
        lemma_byte_len_take_next(text, i);
        lemma_index_of(text, i + 1);
        crate::text::lemma_width(text[i]);
    } else {
        assert(text.take(i) =~= text);
    }
}

/// No brackets are looked for at a selection of text, nor behind the end of the buffer.
pub proof fn law_no_brackets_elsewhere(selection: Selection, shape: CursorShape, text: Seq<char>)
    requires
        selection.start != selection.end || selection.end > byte_len(text),
    ensures
        spec_bracket_query(selection, shape, text) is None,
{
}

/// The cursor is at the start of a reversed selection, and at the end of another.
pub proof fn law_cursor_of_a_selection(start: usize, end: usize)
    ensures
        (Selection { start, end, reversed: true }).spec_head() == start,
        (Selection { start, end, reversed: false }).spec_head() == end,
{
}

} // verus!
