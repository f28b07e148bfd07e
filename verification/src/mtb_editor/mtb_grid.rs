//! What the cursor is over, in the editor crate.
use vstd::prelude::*;

verus! {

/// What the cursor hovers.
#[derive(Debug, Clone, Copy, PartialEq, Eq, Structural)]
pub enum Hoverables {
    Grid,
    Gui,
    Entity,
    Nothing,
}

/// The hover state the input systems share, as far as it is not a position
/// in space.
#[derive(Debug)]
pub struct HoverData {
    pub hovered_tile_xz: (i32, i32),
    pub is_hovered_gui: bool,
    pub is_hovered_entity: bool,
    pub hoverable: Hoverables,
    pub old_hoverable: Hoverables,
    pub old_hovered_tile_xz: (i32, i32),
}

/// What a frame's cursor hovers: the panel first, then a plane, else the grid.
pub open spec fn hover_of(is_hovered_gui: bool, is_hovered_entity: bool) -> Hoverables {
    if is_hovered_gui {
        Hoverables::Gui
    } else if is_hovered_entity {
        Hoverables::Entity
    } else {
        Hoverables::Grid
    }
}

impl HoverData {
    /// Nothing hovered, at tile (0, 0).
    pub fn new() -> (r: HoverData)
        ensures
            r.hovered_tile_xz == (0i32, 0i32),
            r.old_hovered_tile_xz == (0i32, 0i32),
            !r.is_hovered_gui,
            !r.is_hovered_entity,
            r.hoverable == Hoverables::Nothing,
            r.old_hoverable == Hoverables::Nothing,
    {
        HoverData {
            hovered_tile_xz: (0, 0),
            is_hovered_gui: false,
            is_hovered_entity: false,
            hoverable: Hoverables::Nothing,
            old_hoverable: Hoverables::Nothing,
            old_hovered_tile_xz: (0, 0),
        }
    }

    /// Starts a frame: the current tile and hover become the old ones, and
    /// nothing is hovered.
    pub fn reset(&mut self)
        ensures
            final(self).old_hovered_tile_xz == old(self).hovered_tile_xz,
            final(self).hovered_tile_xz == (0i32, 0i32),
            !final(self).is_hovered_entity,
            !final(self).is_hovered_gui,
            final(self).old_hoverable == old(self).hoverable,
            final(self).hoverable == Hoverables::Nothing,
    {
        self.old_hovered_tile_xz = self.hovered_tile_xz;
        self.hovered_tile_xz = (0, 0);
        self.is_hovered_entity = false;
        self.is_hovered_gui = false;
        self.old_hoverable = self.hoverable;
        self.hoverable = Hoverables::Nothing;
    }

    /// Ends a frame in which the window had a cursor: records what it hovers.
    pub fn classify(&mut self)
        ensures
            final(self).hoverable == hover_of(old(self).is_hovered_gui, old(self).is_hovered_entity),
            final(self).hovered_tile_xz == old(self).hovered_tile_xz,
            final(self).old_hovered_tile_xz == old(self).old_hovered_tile_xz,
            final(self).is_hovered_gui == old(self).is_hovered_gui,
            final(self).is_hovered_entity == old(self).is_hovered_entity,
            final(self).old_hoverable == old(self).old_hoverable,
    {
        if self.is_hovered_gui {
            self.hoverable = Hoverables::Gui;
        } else if self.is_hovered_entity {
            self.hoverable = Hoverables::Entity;
        } else {
            self.hoverable = Hoverables::Grid;
        }
    }
}

} // verus!
