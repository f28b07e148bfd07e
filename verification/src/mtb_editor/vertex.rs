//! Vertex picking in the editor crate: a click toggles one vertex.
use vstd::prelude::*;

verus! {

/// A click on vertex `target` flips whether it is picked; the others stay.
/// A target that is no vertex changes nothing.
pub fn pick_vertex(picked: &mut Vec<bool>, target: usize)
    ensures
        target < old(picked)@.len() ==> final(picked)@ == old(picked)@.update(
            target as int,
            !old(picked)@[target as int],
        ),
        target >= old(picked)@.len() ==> final(picked)@ == old(picked)@,
{
    if target < picked.len() {
        let was = picked[target];
        picked[target] = !was;
    }
}

/// A right click unpicks every vertex.
pub fn clear(picked: &mut Vec<bool>)
    ensures
        final(picked)@.len() == old(picked)@.len(),
        forall|i: int| 0 <= i < old(picked)@.len() ==> !#[trigger] final(picked)@[i],
{
    let mut i: usize = 0;
    while i < picked.len()
        invariant
            i <= picked@.len(),
            picked@.len() == old(picked)@.len(),
            forall|j: int| 0 <= j < i ==> !#[trigger] picked@[j],
        decreases picked@.len() - i,
    {
        picked[i] = false;
        i += 1;
    }
}


/// Clicking the same vertex twice restores every vertex's pick state.
pub proof fn lemma_click_twice(picked: Seq<bool>, target: int)
    requires
        0 <= target < picked.len(),
    ensures
        ({
            let once = picked.update(target, !picked[target]);
            once.update(target, !once[target]) == picked
        }),
{
    let once = picked.update(target, !picked[target]);
    assert(once.update(target, !once[target]) =~= picked);
}

} // verus!
