//! The index buffer of a subdivided rectangular plane, and which planes are picked.
use vstd::prelude::*;
use crate::editor::mtb_grid::Hoverables;

verus! {

/// The vertex that corner `t` (0..6) of the two triangles of quad (`y`, `x`)
/// uses, in a grid of rows of `xvc` vertices. Vertex (`y`, `x`) has index
/// `y * xvc + x`.
pub open spec fn rect_plane_index(xvc: int, y: int, x: int, t: int) -> int {
    let quad = y * xvc + x;
    if t == 0 {
        quad + xvc + 1
    } else if t == 1 {
        quad + 1
    } else if t == 2 {
        quad + xvc
    } else if t == 3 {
        quad
    } else if t == 4 {
        quad + xvc
    } else {
        quad + 1
    }
}

/// The plane's vertex and index counts fit the `u32` arithmetic that builds it.
pub open spec fn rect_plane_fits(x_subdivisions: u32, z_subdivisions: u32) -> bool {
    &&& (x_subdivisions + 2) * (z_subdivisions + 2) <= u32::MAX
    &&& (x_subdivisions + 1) * (z_subdivisions + 1) * 6 <= u32::MAX
}

/// The triangle list of a plane with `x_subdivisions + 2` rows of
/// `z_subdivisions + 2` vertices: two triangles per quad, quads row by row.
pub fn rect_plane_indices(x_subdivisions: u32, z_subdivisions: u32) -> (r: Vec<u32>)
    requires
        rect_plane_fits(x_subdivisions, z_subdivisions),
    ensures
        r@.len() == (x_subdivisions + 1) * (z_subdivisions + 1) * 6,
        forall|y: int, x: int, t: int|
            0 <= y < x_subdivisions + 1 && 0 <= x < z_subdivisions + 1 && 0 <= t < 6 ==> r@[6 * (y * (
            z_subdivisions + 1) + x) + t] as int == #[trigger] rect_plane_index(z_subdivisions + 2, y, x, t),
        forall|k: int| 0 <= k < r@.len() ==> (r@[k] as int) < (x_subdivisions + 2) * (z_subdivisions + 2),
{
    proof {
        let a = x_subdivisions + 2;
        let b = z_subdivisions + 2;
        assert(a <= a * b && b <= a * b) by (nonlinear_arith)
            requires
                a >= 2,
                b >= 2,
        ;
    }
    let z_vertex_count: u32 = x_subdivisions + 2;
    let x_vertex_count: u32 = z_subdivisions + 2;
    let ghost zv = z_vertex_count as int;
    let ghost xv = x_vertex_count as int;
    let num_vertices = z_vertex_count * x_vertex_count;
    let num_indices = (z_vertex_count - 1) * (x_vertex_count - 1) * 6;
    let mut indices: Vec<u32> = Vec::with_capacity(num_indices as usize);
    let mut y: u32 = 0;
    while y < z_vertex_count - 1
        invariant
            zv == z_vertex_count,
            xv == x_vertex_count,
            zv >= 2,
            xv >= 2,
            zv * xv <= u32::MAX,
            num_vertices == zv * xv,
            y <= zv - 1,
            indices@.len() == 6 * (y * (xv - 1)),
            forall|yy: int, x: int, t: int|
                0 <= yy < y && 0 <= x < xv - 1 && 0 <= t < 6 ==> indices@[6 * (yy * (xv - 1) + x) + t] as int
                    == #[trigger] rect_plane_index(xv, yy, x, t),
            forall|k: int| 0 <= k < indices@.len() ==> (indices@[k] as int) < zv * xv,
        decreases zv - 1 - y,
    {
        let mut x: u32 = 0;
        while x < x_vertex_count - 1
            invariant
                zv == z_vertex_count,
                xv == x_vertex_count,
                zv >= 2,
                xv >= 2,
                zv * xv <= u32::MAX,
                num_vertices == zv * xv,
                y < zv - 1,
                x <= xv - 1,
                indices@.len() == 6 * (y * (xv - 1) + x),
                forall|yy: int, xx: int, t: int|
                    0 <= yy < y && 0 <= xx < xv - 1 && 0 <= t < 6 ==> indices@[6 * (yy * (xv - 1) + xx) + t] as int
                        == #[trigger] rect_plane_index(xv, yy, xx, t),
                forall|xx: int, t: int|
                    0 <= xx < x && 0 <= t < 6 ==> indices@[6 * (y * (xv - 1) + xx) + t] as int == #[trigger] rect_plane_index(
                        xv,
                        y as int,
                        xx,
                        t,
                    ),
                forall|k: int| 0 <= k < indices@.len() ==> (indices@[k] as int) < zv * xv,
            decreases xv - 1 - x,
        {
            proof {
                assert(y * xv + x + xv + 1 < zv * xv) by (nonlinear_arith)
                    requires
                        y < zv - 1,
                        x < xv - 1,
                        0 <= y,
                        0 <= x,
                ;
            }
            let quad = y * x_vertex_count + x;
            let ghost base = indices@.len() as int;
            indices.push(quad + x_vertex_count + 1);
            indices.push(quad + 1);
            indices.push(quad + x_vertex_count);
            indices.push(quad);
            indices.push(quad + x_vertex_count);
            indices.push(quad + 1);
            proof {
                assert forall|yy: int, xx: int, t: int|
                    0 <= yy < y && 0 <= xx < xv - 1 && 0 <= t < 6 implies indices@[6 * (yy * (xv - 1) + xx) + t] as int
                        == #[trigger] rect_plane_index(xv, yy, xx, t) by {
                    assert(6 * (yy * (xv - 1) + xx) + t < 6 * (y * (xv - 1))) by (nonlinear_arith)
                        requires
                            0 <= yy < y,
                            0 <= xx < xv - 1,
                            0 <= t < 6,
                    ;
                }
                assert forall|xx: int, t: int|
                    0 <= xx < x + 1 && 0 <= t < 6 implies indices@[6 * (y * (xv - 1) + xx) + t] as int
                        == #[trigger] rect_plane_index(xv, y as int, xx, t) by {
                    if xx == x {
                        assert(6 * (y * (xv - 1) + xx) + t == base + t);
                    }
                }
                assert(indices@.len() == 6 * (y * (xv - 1) + x + 1));
            }
            x += 1;
        }
        proof {
            assert(6 * (y * (xv - 1) + (xv - 1)) == 6 * ((y + 1) * (xv - 1))) by (nonlinear_arith);
            assert forall|yy: int, xx: int, t: int|
                0 <= yy < y + 1 && 0 <= xx < xv - 1 && 0 <= t < 6 implies indices@[6 * (yy * (xv - 1) + xx) + t] as int
                    == #[trigger] rect_plane_index(xv, yy, xx, t) by {
            }
        }
        y += 1;
    }
    proof {
        assert(zv - 1 == x_subdivisions + 1);
        assert(xv - 1 == z_subdivisions + 1);
        assert(6 * ((zv - 1) * (xv - 1)) == (x_subdivisions + 1) * (z_subdivisions + 1) * 6) by (nonlinear_arith)
            requires
                zv - 1 == x_subdivisions + 1,
                xv - 1 == z_subdivisions + 1,
        ;
    }
    indices
}

/// Picks plane `target`; the other planes keep their state. A target that is
/// no plane changes nothing.
pub fn pick_plane(picked: &mut Vec<bool>, target: usize)
    ensures
        target < old(picked)@.len() ==> final(picked)@ == old(picked)@.update(target as int, true),
        target >= old(picked)@.len() ==> final(picked)@ == old(picked)@,
{
    if target < picked.len() {
        picked[target] = true;
    }
}

/// Unpicks every plane.
pub fn deselect_plane(picked: &mut Vec<bool>)
    ensures
        final(picked)@.len() == old(picked)@.len(),
        forall|i: int| 0 <= i < old(picked)@.len() ==> !#[trigger] final(picked)@[i],
{
    let mut i: usize = 0;
    while i < picked.len()
        invariant
            i <= picked@.len(),
            picked@.len() == old(picked)@.len(),
            forall|j: int| 0 <= j < i ==> !#[trigger] picked@[j],
        decreases picked@.len() - i,
    {
        picked[i] = false;
        i += 1;
    }
}

/// The planes that a delete removes: every picked plane, in order.
pub fn drop_plane(picked: &Vec<bool>) -> (r: Vec<usize>)
    ensures
        forall|a: int, b: int| 0 <= a < b < r@.len() ==> r@[a] < r@[b],
        forall|k: int| 0 <= k < r@.len() ==> r@[k] < picked@.len() && picked@[r@[k] as int],
        forall|i: int| 0 <= i < picked@.len() && #[trigger] picked@[i] ==> r@.contains(i as usize),
{
    let mut r: Vec<usize> = Vec::new();
    let mut i: usize = 0;
    while i < picked.len()
        invariant
            i <= picked@.len(),
            forall|a: int, b: int| 0 <= a < b < r@.len() ==> r@[a] < r@[b],
            forall|k: int| 0 <= k < r@.len() ==> r@[k] < i && picked@[r@[k] as int],
            forall|j: int| 0 <= j < i && #[trigger] picked@[j] ==> r@.contains(j as usize),
        decreases picked@.len() - i,
    {
        if picked[i] {
            let ghost before = r@;
            r.push(i);
            proof {
                assert forall|j: int| 0 <= j < i + 1 && #[trigger] picked@[j] implies r@.contains(j as usize) by {
                    if j < i {
                        let w = choose|w: int| 0 <= w < before.len() && before[w] == j as usize;
                        assert(r@[w] == before[w]);
                    } else {
                        assert(r@[before.len() as int] == i);
                    }
                }
            }
        }
        i += 1;
    }
    r
}

/// A double click on a plane opens its edit window; anywhere else it does
/// nothing. Slot `i` of `editing` stands for plane `i`.
pub fn spawn_edit_plane(editing: &mut Vec<bool>, hoverable: Hoverables<usize>)
    ensures
        (match hoverable {
            Hoverables::Entity(e) => if e < old(editing)@.len() {
                final(editing)@ == old(editing)@.update(e as int, true)
            } else {
                final(editing)@ == old(editing)@
            },
            _ => final(editing)@ == old(editing)@,
        }),
{
    if let Hoverables::Entity(e) = hoverable {
        if e < editing.len() {
            editing[e] = true;
        }
    }
}

} // verus!
