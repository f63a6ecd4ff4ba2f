//! Decisions of the editor's panels.
use vstd::prelude::*;

verus! {

/// The selection after a hierarchy panel frame: a clicked entry becomes selected, and a
/// right click on the panel (checked after the clicks) clears the selection.
pub fn next_selection(current: Option<usize>, clicked: Option<usize>, clear_requested: bool) -> (r: Option<usize>)
    ensures
        clear_requested ==> r is None,
        !clear_requested ==> r == match clicked {
            Some(i) => Some(i),
            None => current,
        },
{
    let mut selected = current;
    if let Some(index) = clicked {
        selected = Some(index);
    }
    if clear_requested {
        selected = None;
    }
    selected
}

/// Whether the selection changes to a different entry, which the editor reports.
pub fn selection_changed(current: Option<usize>, clicked: Option<usize>) -> (r: bool)
    ensures
        r == (clicked is Some && current != clicked),
{
    match clicked {
        Some(index) => match current {
            Some(c) => c != index,
            None => true,
        },
        None => false,
    }
}

} // verus!
