//! Small shared types of the terrain core.
use vstd::prelude::*;

verus! {

/// A horizontal axis of the terrain plane.
#[derive(Debug, Clone, Copy, PartialEq, Eq, Structural)]
pub enum Axis {
    X,
    Z,
}

impl Axis {
    /// Both axes, `X` first.
    pub fn iterator() -> (r: Vec<Axis>)
        ensures
            r@ == seq![Axis::X, Axis::Z],
    {
        vec![Axis::X, Axis::Z]
    }
}

} // verus!
