//! Calls: what is shown of them, and which screen is shared.

use vstd::prelude::*;

verus! {

/// Writes a statistic, or a dash where there is none.
pub fn format_stat<T, F: Fn(T) -> String>(value: Option<T>, format: F) -> (text: String)
    requires
        value matches Some(value) ==> call_requires(format, (value,)),
    ensures
        match value {
            Some(value) => call_ensures(format, (value,), text),
            None => text@ == "—"@,
        },
{
    match value {
        Some(value) => format(value),
        None => "—".to_owned(),
    }
}

/// What is known of a screen.
#[derive(Debug, Clone, Copy, PartialEq, Eq, Structural)]
pub struct ScreenMetadata {
    /// Whether this is the main screen, if that is known.
    pub is_main: Option<bool>,
}

/// Whether a screen is known to be the main one. Its metadata may be missing.
pub open spec fn known_main(source: Option<ScreenMetadata>) -> bool {
    source matches Some(metadata) && metadata.is_main == Some(true)
}

fn is_known_main(source: &Option<ScreenMetadata>) -> (result: bool)
    ensures
        result == known_main(*source),
{
    match source {
        Some(metadata) => match metadata.is_main {
            Some(is_main) => is_main,
            None => false,
        },
        None => false,
    }
}

/// Picks the screen to share when the button for it is clicked: the first that is known to be the
/// main one, or else the first.
pub fn pick_default_screen(sources: &Vec<Option<ScreenMetadata>>) -> (picked: Option<usize>)
    ensures
        match picked {
            Some(index) => {
                &&& index < sources@.len()
                &&& known_main(sources@[index as int]) || index == 0
                &&& !known_main(sources@[index as int]) ==> forall|i: int|
                    0 <= i < sources@.len() ==> !known_main(#[trigger] sources@[i])
                &&& forall|i: int| 0 <= i < index ==> !known_main(#[trigger] sources@[i])
            },
            None => sources@.len() == 0,
        },
{
    let mut i: usize = 0;
    while i < sources.len()
        invariant
            i <= sources@.len(),
            forall|j: int| 0 <= j < i ==> !known_main(#[trigger] sources@[j]),
        decreases sources@.len() - i,
    {
        if is_known_main(&sources[i]) {
            return Some(i);
        }
        i = i + 1;
    }
    if sources.len() > 0 {
        Some(0)
    } else {
        None
    }
}

} // verus!
