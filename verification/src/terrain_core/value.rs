use vstd::prelude::*;

verus! {

/// How a value modifier combines its number with the current height.
#[derive(Debug, Clone, Copy, PartialEq, Eq, Structural)]
pub enum ValueType {
    Value,
    Diff,
    Scale,
}

impl ValueType {
    /// Every option, in the order the editor lists them.
    pub fn iterator() -> (r: Vec<ValueType>)
        ensures
            r@ == seq![ValueType::Value, ValueType::Diff, ValueType::Scale],
    {
        vec![ValueType::Value, ValueType::Diff, ValueType::Scale]
    }
}

/// How a value modifier's effect fades with distance.
#[derive(Debug, Clone, Copy, PartialEq, Eq, Structural)]
pub enum ValueScaling {
    NoScaling,
    DistancePoint,
    DistancePointRev,
    DistanceAxis,
    DistanceAxisRev,
}

impl ValueScaling {
    /// Every option, in the order the editor lists them.
    pub fn iterator() -> (r: Vec<ValueScaling>)
        ensures
            r@ == seq![
                ValueScaling::NoScaling,
                ValueScaling::DistancePoint,
                ValueScaling::DistancePointRev,
                ValueScaling::DistanceAxis,
                ValueScaling::DistanceAxisRev,
            ],
    {
        vec![
            ValueScaling::NoScaling,
            ValueScaling::DistancePoint,
            ValueScaling::DistancePointRev,
            ValueScaling::DistanceAxis,
            ValueScaling::DistanceAxisRev,
        ]
    }
}

} // verus!
