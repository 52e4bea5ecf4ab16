//! Positions that keep their place while a buffer is edited.

use std::ops::Range;
use vstd::prelude::*;

verus! {

/// The side of a position to which an anchor sticks when text is inserted there.
#[derive(Debug, Clone, Copy, PartialEq, Eq, Structural)]
pub enum Bias {
    Left,
    Right,
}

/// A position within one buffer.
#[derive(Debug, Clone, Copy, PartialEq, Eq, Structural)]
pub struct TextAnchor {
    /// The byte offset that the anchor stands for.
    pub offset: usize,
    pub bias: Bias,
}

impl TextAnchor {
    /// Whether one anchor stands at or before another: anchors at one offset are ordered left to
    /// right by their bias.
    pub open spec fn spec_le(self, other: TextAnchor) -> bool {
        self.offset < other.offset || self.offset == other.offset && (self.bias == other.bias
            || self.bias == Bias::Left)
    }

    /// The same position, sticking to the right.
    pub open spec fn spec_bias_right(self) -> TextAnchor {
        TextAnchor { offset: self.offset, bias: Bias::Right }
    }

    /// Tells whether one anchor stands at or before another.
    pub fn le(&self, other: &TextAnchor) -> (result: bool)
        ensures
            result == self.spec_le(*other),
    {
        self.offset < other.offset || (self.offset == other.offset && (self.bias == other.bias
            || self.bias == Bias::Left))
    }

    /// The same position, sticking to the right.
    pub fn bias_right(&self) -> (anchor: TextAnchor)
        ensures
            anchor == self.spec_bias_right(),
    {
        TextAnchor { offset: self.offset, bias: Bias::Right }
    }
}

/// The anchors around a stretch of a buffer: text inserted at either end becomes part of it.
pub open spec fn spec_anchored(start: usize, end: usize) -> Range<TextAnchor> {
    Range {
        start: TextAnchor { offset: start, bias: Bias::Left },
        end: TextAnchor { offset: end, bias: Bias::Right },
    }
}

/// The anchors around a stretch of a buffer.
pub fn anchored(start: usize, end: usize) -> (range: Range<TextAnchor>)
    ensures
        range == spec_anchored(start, end),
{
    TextAnchor { offset: start, bias: Bias::Left }..TextAnchor { offset: end, bias: Bias::Right }
}

/// A position within a multi-buffer.
#[derive(Debug, Clone, Copy, PartialEq, Eq, Structural)]
pub struct Anchor {
    /// Place in the order of all the anchors of the multi-buffer. Edits do not reorder anchors, so
    /// that every snapshot agrees on it.
    pub position: u64,
    pub excerpt_id: u64,
    /// The buffer that the excerpt shows, if it is known.
    pub buffer_id: Option<u64>,
    pub text_anchor: TextAnchor,
}

} // verus!
