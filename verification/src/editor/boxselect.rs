//! Box selection of vertices.
use vstd::prelude::*;
use crate::editor::mtb_grid::Hoverables;

verus! {

/// Applies a selection box: vertices inside it are picked; the others are
/// unpicked unless Shift is held.
pub fn select(picked: &mut Vec<bool>, inside: &Vec<bool>, shift: bool)
    requires
        old(picked)@.len() == inside@.len(),
    ensures
        final(picked)@.len() == old(picked)@.len(),
        forall|i: int|
            0 <= i < inside@.len() ==> #[trigger] final(picked)@[i] == (inside@[i] || (shift
                && old(picked)@[i])),
{
    let mut i: usize = 0;
    while i < picked.len()
        invariant
            i <= picked@.len(),
            picked@.len() == old(picked)@.len(),
            old(picked)@.len() == inside@.len(),
            forall|j: int| 0 <= j < i ==> #[trigger] picked@[j] == (inside@[j] || (shift && old(picked)@[j])),
            forall|j: int| i <= j < picked@.len() ==> #[trigger] picked@[j] == old(picked)@[j],
        decreases picked@.len() - i,
    {
        if inside[i] {
            picked[i] = true;
        } else if !shift {
            picked[i] = false;
        }
        i += 1;
    }
}

/// A selection box starts on a left click over a plane or the grid, when
/// none is open yet.
pub fn spawn_box_select<E: Copy>(hoverable: Hoverables<E>, box_exists: bool) -> (r: bool)
    ensures
        r == (!box_exists && (hoverable is Entity || hoverable is Grid)),
{
    match hoverable {
        Hoverables::Entity(_) | Hoverables::Grid => !box_exists,
        _ => false,
    }
}

} // verus!
