//! Brush selection of vertices and the brush disc's triangle indices.
use vstd::prelude::*;

verus! {

/// Applies the brush: vertices within its radius are picked; none is unpicked.
pub fn select(picked: &mut Vec<bool>, inside: &Vec<bool>)
    requires
        old(picked)@.len() == inside@.len(),
    ensures
        final(picked)@.len() == old(picked)@.len(),
        forall|i: int|
            0 <= i < inside@.len() ==> #[trigger] final(picked)@[i] == (inside@[i] || old(picked)@[i]),
{
    let mut i: usize = 0;
    while i < picked.len()
        invariant
            i <= picked@.len(),
            picked@.len() == old(picked)@.len(),
            old(picked)@.len() == inside@.len(),
            forall|j: int| 0 <= j < i ==> #[trigger] picked@[j] == (inside@[j] || old(picked)@[j]),
            forall|j: int| i <= j < picked@.len() ==> #[trigger] picked@[j] == old(picked)@[j],
        decreases picked@.len() - i,
    {
        if inside[i] {
            picked[i] = true;
        }
        i += 1;
    }
}

/// The index list of a triangulation with each triangle's winding reversed:
/// triangle `[a, b, c]` becomes `c, b, a`, each index as `u32`.
pub fn reverse_winding(triangles: &Vec<[usize; 3]>) -> (r: Vec<u32>)
    ensures
        r@.len() == 3 * triangles@.len(),
        forall|k: int|
            0 <= k < triangles@.len() ==> {
                &&& #[trigger] r@[3 * k] == triangles@[k][2] as u32
                &&& r@[3 * k + 1] == triangles@[k][1] as u32
                &&& r@[3 * k + 2] == triangles@[k][0] as u32
            },
{
    let mut out: Vec<u32> = Vec::new();
    let mut k: usize = 0;
    while k < triangles.len()
        invariant
            k <= triangles@.len(),
            out@.len() == 3 * k,
            forall|j: int|
                0 <= j < k ==> {
                    &&& #[trigger] out@[3 * j] == triangles@[j][2] as u32
                    &&& out@[3 * j + 1] == triangles@[j][1] as u32
                    &&& out@[3 * j + 2] == triangles@[j][0] as u32
                },
        decreases triangles@.len() - k,
    {
        let t = triangles[k];
        let ghost before = out@;
        out.push(#[verifier::truncate] (t[2] as u32));
        out.push(#[verifier::truncate] (t[1] as u32));
        out.push(#[verifier::truncate] (t[0] as u32));
        assert forall|j: int| 0 <= j < k + 1 implies {
            &&& #[trigger] out@[3 * j] == triangles@[j][2] as u32
            &&& out@[3 * j + 1] == triangles@[j][1] as u32
            &&& out@[3 * j + 2] == triangles@[j][0] as u32
        } by {
            if j < k {
                assert(out@[3 * j] == before[3 * j]);
                assert(out@[3 * j + 1] == before[3 * j + 1]);
                assert(out@[3 * j + 2] == before[3 * j + 2]);
            } else {
                assert(t == triangles@[j]);
            }
        }
        k += 1;
    }
    out
}

} // verus!
