//! Which vertices of the terrain are picked, slot `i` standing for vertex `i`.
use vstd::prelude::*;
use crate::editor::mtb_ui::ModifierState;

verus! {

/// Picks vertex `target`; without Shift every other vertex is unpicked.
/// A target that is no vertex changes nothing.
pub fn pick_vertex(picked: &mut Vec<bool>, target: usize, shift: bool)
    ensures
        final(picked)@.len() == old(picked)@.len(),
        target < old(picked)@.len() ==> forall|i: int|
            0 <= i < old(picked)@.len() ==> #[trigger] final(picked)@[i] == if i == target {
                true
            } else {
                shift && old(picked)@[i]
            },
        target >= old(picked)@.len() ==> final(picked)@ == old(picked)@,
{
    if target >= picked.len() {
        return;
    }
    picked[target] = true;
    if !shift {
        let mut i: usize = 0;
        while i < picked.len()
            invariant
                i <= picked@.len(),
                picked@.len() == old(picked)@.len(),
                target < picked@.len(),
                picked@[target as int],
                forall|j: int| 0 <= j < i && j != target ==> !#[trigger] picked@[j],
                forall|j: int| i <= j < picked@.len() && j != target ==> #[trigger] picked@[j] == old(picked)@[j],
            decreases picked@.len() - i,
        {
            if i != target {
                picked[i] = false;
            }
            i += 1;
        }
    }
}

/// Unpicks every vertex.
pub fn deselect_vertex(picked: &mut Vec<bool>)
    ensures
        final(picked)@.len() == old(picked)@.len(),
        forall|i: int| 0 <= i < old(picked)@.len() ==> !#[trigger] final(picked)@[i],
{
    let mut i: usize = 0;
    while i < picked.len()
        invariant
            i <= picked@.len(),
            picked@.len() == old(picked)@.len(),
            forall|j: int| 0 <= j < i ==> !#[trigger] picked@[j],
        decreases picked@.len() - i,
    {
        picked[i] = false;
        i += 1;
    }
}

/// Picks every vertex of the plane whose vertices are `children`; the others
/// keep their state. Children that are no vertex are skipped.
pub fn select_all(picked: &mut Vec<bool>, children: &Vec<usize>)
    ensures
        final(picked)@.len() == old(picked)@.len(),
        forall|i: int|
            0 <= i < old(picked)@.len() ==> #[trigger] final(picked)@[i] == (old(picked)@[i]
                || children@.contains(i as usize)),
{
    let mut k: usize = 0;
    while k < children.len()
        invariant
            k <= children@.len(),
            picked@.len() == old(picked)@.len(),
            forall|i: int|
                0 <= i < picked@.len() ==> #[trigger] picked@[i] == (old(picked)@[i]
                    || children@.take(k as int).contains(i as usize)),
        decreases children@.len() - k,
    {
        let c = children[k];
        if c < picked.len() {
            picked[c] = true;
        }
        proof {
            assert forall|i: int| 0 <= i < picked@.len() implies #[trigger] picked@[i] == (old(picked)@[i]
                || children@.take(k + 1).contains(i as usize)) by {
                let t0 = children@.take(k as int);
                let t1 = children@.take(k + 1);
                assert(t1 =~= t0.push(c));
                if t1.contains(i as usize) && !t0.contains(i as usize) {
                    let w = choose|w: int| 0 <= w < t1.len() && t1[w] == i as usize;
                    if w < k {
                        assert(t0[w] == t1[w]);
                    }
                }
                if t0.contains(i as usize) {
                    let w = choose|w: int| 0 <= w < t0.len() && t0[w] == i as usize;
                    assert(t1[w] == t0[w]);
                }
                if i == c {
                    assert(t1[k as int] == c);
                }
            }
        }
        k += 1;
    }
    proof {
        assert(children@.take(children@.len() as int) =~= children@);
    }
}


/// What a modifier changes on each picked vertex.
#[derive(Debug, Clone, Copy, PartialEq, Eq, Structural)]
pub enum VertexChange {
    /// Its colour.
    Color,
    /// Its height.
    Height,
    /// Its whole position.
    Position,
}

/// What applying `mod_type` changes on a picked vertex, and whether the last
/// colour gradient then recolours it from its new height (only after a
/// height change, and only when `apply_gradient` is set). Unpicked vertices
/// are left alone.
pub fn modifier_change(mod_type: ModifierState, apply_gradient: bool) -> (r: (VertexChange, bool))
    ensures
        r == match mod_type {
            ModifierState::Color | ModifierState::ColorGradient => (VertexChange::Color, false),
            ModifierState::Value | ModifierState::Noise | ModifierState::Terrace => (
                VertexChange::Height,
                apply_gradient,
            ),
            ModifierState::Wave | ModifierState::Offset => (VertexChange::Position, false),
        },
{
    match mod_type {
        ModifierState::Color | ModifierState::ColorGradient => (VertexChange::Color, false),
        ModifierState::Value | ModifierState::Noise | ModifierState::Terrace => (VertexChange::Height, apply_gradient),
        ModifierState::Wave | ModifierState::Offset => (VertexChange::Position, false),
    }
}

} // verus!
