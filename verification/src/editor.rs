//! The part of an editor's state that the other modules decide on.

use std::collections::HashSet;
use vstd::prelude::*;

use crate::brackets::{BracketPair, CursorShape};
use crate::hover_links::{HoveredLinkState, LinkHighlight};
use crate::inlay_hints::LspInlayHintData;

verus! {

/// The state of an editor.
pub struct Editor {
    /// Whether this is a full editor, as opposed to a single-line or auto-height one.
    pub is_full: bool,
    pub has_project: bool,
    pub has_semantics_provider: bool,
    /// Whether a rename awaits its new name.
    pub pending_rename: bool,
    pub hovered_link_state: Option<HoveredLinkState>,
    /// What is underlined as a link.
    pub link_highlight: Option<LinkHighlight>,
    pub inlay_hints: Option<LspInlayHintData>,
    /// The buffers that language servers know of.
    pub registered_buffers: HashSet<u64>,
    pub inline_values_enabled: bool,
    pub cursor_shape: CursorShape,
    /// The brackets that are highlighted.
    pub bracket_highlight: Option<BracketPair>,
}

} // verus!
