//! The editors that edit predictions are provided for.

use std::collections::HashMap;
use vstd::prelude::*;

verus! {

broadcast use vstd::std_specs::hash::group_hash_axioms;

/// The full editors that are open, each with its window.
pub struct EditorRegistry {
    editors: HashMap<u64, u64>,
}

impl View for EditorRegistry {
    type V = Map<u64, u64>;

    closed spec fn view(&self) -> Map<u64, u64> {
        self.editors@
    }
}

/// The editors that are open once there is a new one: it counts if it is a full one in a window.
pub open spec fn editor_opened(
    editors: Map<u64, u64>,
    editor: u64,
    is_full: bool,
    window: Option<u64>,
) -> Map<u64, u64> {
    match window {
        Some(window) if is_full => editors.insert(editor, window),
        _ => editors,
    }
}

impl EditorRegistry {
    /// No editors.
    pub fn new() -> (registry: Self)
        ensures
            registry@ == Map::<u64, u64>::empty(),
    {
        EditorRegistry { editors: HashMap::new() }
    }

    /// Takes note of a new editor, and returns whether a provider is to be assigned to it.
    pub fn observe_new(&mut self, editor: u64, is_full: bool, window: Option<u64>) -> (assign: bool)
        ensures
            final(self)@ == editor_opened(old(self)@, editor, is_full, window),
            assign == (is_full && window is Some),
    {
        if !is_full {
            return false;
        }
        match window {
            Some(window) => {
                self.editors.insert(editor, window);
                true
            },
            None => false,
        }
    }

    /// Takes note that an editor is closed.
    pub fn on_release(&mut self, editor: u64)
        ensures
            final(self)@ == old(self)@.remove(editor),
    {
        self.editors.remove(&editor);
    }

    /// The window of an editor that a provider is assigned to.
    pub fn window_of(&self, editor: u64) -> (window: Option<u64>)
        ensures
            window == if self@.contains_key(editor) {
                Some(self@[editor])
            } else {
                None
            },
    {
        match self.editors.get(&editor) {
            Some(window) => Some(*window),
            None => None,
        }
    }
}

/// An editor that was opened and closed leaves no trace.
pub proof fn law_closed_editor_leaves_no_trace(
    editors: Map<u64, u64>,
    editor: u64,
    is_full: bool,
    window: Option<u64>,
)
    requires
        !editors.contains_key(editor),
    ensures
        editor_opened(editors, editor, is_full, window).remove(editor) == editors,
{
    assert(editor_opened(editors, editor, is_full, window).remove(editor) =~= editors);
}

} // verus!
