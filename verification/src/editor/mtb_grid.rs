//! What the mouse is over: the panel, a plane, or the grid.
use vstd::prelude::*;

verus! {

/// What the cursor hovers, `E` naming a plane.
#[derive(Debug, Clone, Copy, PartialEq, Eq)]
pub enum Hoverables<E> {
    Grid,
    Gui,
    Entity(E),
    Nothing,
}

/// The last plane whose outline holds the cursor point, if any.
pub open spec fn last_hit<E>(planes: Seq<E>, hits: Seq<bool>) -> Option<E>
    decreases planes.len(),
{
    if planes.len() == 0 {
        None
    } else if hits[planes.len() - 1] {
        Some(planes.last())
    } else {
        last_hit(planes.drop_last(), hits.take(planes.len() - 1))
    }
}

/// What the cursor hovers: nothing without a cursor, else the panel first,
/// else the last plane hit, else the grid.
pub open spec fn hover_of<E>(has_cursor: bool, is_hovered_gui: bool, planes: Seq<E>, hits: Seq<bool>) -> Hoverables<E> {
    if !has_cursor {
        Hoverables::Nothing
    } else if is_hovered_gui {
        Hoverables::Gui
    } else {
        match last_hit(planes, hits) {
            Some(e) => Hoverables::Entity(e),
            None => Hoverables::Grid,
        }
    }
}

/// Decides what the cursor hovers from whether the window has a cursor,
/// whether it is over the panel, and which planes' outlines hold the point it
/// points at on the grid (`hits[i]` for `planes[i]`).
pub fn hover_target<E: Copy>(has_cursor: bool, is_hovered_gui: bool, planes: &Vec<E>, hits: &Vec<bool>) -> (r: Hoverables<E>)
    requires
        planes@.len() == hits@.len(),
    ensures
        r == hover_of(has_cursor, is_hovered_gui, planes@, hits@),
{
    if !has_cursor {
        return Hoverables::Nothing;
    }
    let mut hovered: Option<E> = None;
    let mut i: usize = 0;
    while i < planes.len()
        invariant
            i <= planes@.len(),
            planes@.len() == hits@.len(),
            hovered == last_hit(planes@.take(i as int), hits@.take(i as int)),
        decreases planes@.len() - i,
    {
        proof {
            let p = planes@.take(i + 1);
            let h = hits@.take(i + 1);
            assert(p.drop_last() =~= planes@.take(i as int));
            assert(h.take(i as int) =~= hits@.take(i as int));
            assert(h[i as int] == hits@[i as int]);
            assert(p.last() == planes@[i as int]);
        }
        if hits[i] {
            hovered = Some(planes[i]);
        }
        i += 1;
    }
    proof {
        assert(planes@.take(planes@.len() as int) =~= planes@);
        assert(hits@.take(hits@.len() as int) =~= hits@);
    }
    if is_hovered_gui {
        Hoverables::Gui
    } else {
        match hovered {
            Some(e) => Hoverables::Entity(e),
            None => Hoverables::Grid,
        }
    }
}

/// The hover state the input systems share, as far as it is not a position
/// in space: the grid tile under the cursor and what it hovers, now and in
/// the frame before.
#[derive(Debug)]
pub struct HoverData<E> {
    pub hovered_tile_xz: (i32, i32),
    pub hoverable: Hoverables<E>,
    pub old_hoverable: Hoverables<E>,
}

impl<E: Copy> HoverData<E> {
    /// Nothing hovered, at tile (0, 0).
    pub fn new() -> (r: HoverData<E>)
        ensures
            r.hovered_tile_xz == (0i32, 0i32),
            r.hoverable == Hoverables::<E>::Nothing,
            r.old_hoverable == Hoverables::<E>::Nothing,
    {
        HoverData { hovered_tile_xz: (0, 0), hoverable: Hoverables::Nothing, old_hoverable: Hoverables::Nothing }
    }

    /// Starts a frame: what was hovered becomes the old hover; nothing is
    /// hovered, at tile (0, 0).
    pub fn reset(&mut self)
        ensures
            final(self).hovered_tile_xz == (0i32, 0i32),
            final(self).hoverable == Hoverables::<E>::Nothing,
            final(self).old_hoverable == old(self).hoverable,
    {
        self.hovered_tile_xz = (0, 0);
        self.old_hoverable = self.hoverable;
        self.hoverable = Hoverables::Nothing;
    }
}


/// The plane found is the last one hit: with `hits[k]` and no later hit it
/// is `planes[k]`, and with no hit there is none.
proof fn lemma_last_hit_is_last<E>(planes: Seq<E>, hits: Seq<bool>)
    requires
        planes.len() == hits.len(),
    ensures
        forall|k: int|
            0 <= k < planes.len() && hits[k] && (forall|j: int| k < j < planes.len() ==> !hits[j]) ==> last_hit(
                planes,
                hits,
            ) == Some(planes[k]),
        (forall|j: int| 0 <= j < planes.len() ==> !hits[j]) ==> last_hit(planes, hits) is None,
    decreases planes.len(),
{
    if planes.len() > 0 {
        let n = planes.len() - 1;
        let p = planes.drop_last();
        let h = hits.take(n);
        lemma_last_hit_is_last(p, h);
        assert forall|k: int|
            0 <= k < planes.len() && hits[k] && (forall|j: int| k < j < planes.len() ==> !hits[j]) implies last_hit(
                planes,
                hits,
            ) == Some(planes[k]) by {
            if k < n {
                assert(!hits[n]);
                assert(h[k] && p[k] == planes[k]);
                assert forall|j: int| k < j < p.len() implies !h[j] by {
                    assert(h[j] == hits[j]);
                }
            }
        }
        if forall|j: int| 0 <= j < planes.len() ==> !hits[j] {
            assert(!hits[n]);
            assert forall|j: int| 0 <= j < p.len() implies !h[j] by {
                assert(h[j] == hits[j]);
            }
        }
    }
}

/// What the cursor hovers: nothing without a cursor; the panel when it is
/// over the panel; else the plane with the largest index among those hit
/// (so a hit on the last plane always wins); else the grid.
pub proof fn lemma_hover_picks_last_hit<E>(has_cursor: bool, is_hovered_gui: bool, planes: Seq<E>, hits: Seq<bool>)
    requires
        planes.len() == hits.len(),
    ensures
        !has_cursor ==> hover_of(has_cursor, is_hovered_gui, planes, hits) == Hoverables::<E>::Nothing,
        has_cursor && is_hovered_gui ==> hover_of(has_cursor, is_hovered_gui, planes, hits) == Hoverables::<E>::Gui,
        forall|k: int|
            has_cursor && !is_hovered_gui && 0 <= k < planes.len() && hits[k] && (forall|j: int|
                k < j < planes.len() ==> !hits[j]) ==> hover_of(has_cursor, is_hovered_gui, planes, hits)
                == Hoverables::Entity(planes[k]),
        has_cursor && !is_hovered_gui && planes.len() > 0 && hits[planes.len() - 1] ==> hover_of(
            has_cursor,
            is_hovered_gui,
            planes,
            hits,
        ) == Hoverables::Entity(planes[planes.len() - 1]),
        has_cursor && !is_hovered_gui && (forall|j: int| 0 <= j < planes.len() ==> !hits[j]) ==> hover_of(
            has_cursor,
            is_hovered_gui,
            planes,
            hits,
        ) == Hoverables::<E>::Grid,
{
    lemma_last_hit_is_last(planes, hits);
}

} // verus!
