//! The easing curves a modifier can apply.
use vstd::prelude::*;

verus! {

/// An easing curve; `NoEasing` leaves a value as it is.
#[derive(Debug, Clone, Copy, PartialEq, Eq, Structural)]
pub enum Easings {
    NoEasing,
    SmoothStep,
    SmoothStop,
    SmoothStart,
    SmoothEnd,
    AbsoluteValue,
}

impl Easings {
    /// Every easing, in the order the editor lists them.
    pub fn iterator() -> (r: Vec<Easings>)
        ensures
            r@ == seq![
                Easings::NoEasing,
                Easings::SmoothStep,
                Easings::SmoothStop,
                Easings::SmoothStart,
                Easings::SmoothEnd,
                Easings::AbsoluteValue,
            ],
    {
        vec![
            Easings::NoEasing,
            Easings::SmoothStep,
            Easings::SmoothStop,
            Easings::SmoothStart,
            Easings::SmoothEnd,
            Easings::AbsoluteValue,
        ]
    }
}

} // verus!
