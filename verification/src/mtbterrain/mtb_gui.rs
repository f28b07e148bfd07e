//! The terrain panel's debug switch.
use vstd::prelude::*;

verus! {

/// Whether the modifiers' debug boxes are shown; off at start.
#[derive(Debug, Clone, Copy, PartialEq, Eq, Structural)]
pub enum DebugMode {
    DebugOn,
    DebugOff,
}

impl DebugMode {
    /// The mode the panel starts in.
    pub fn default_state() -> (r: DebugMode)
        ensures
            r == DebugMode::DebugOff,
    {
        DebugMode::DebugOff
    }
}

/// The debug mode after Z: on and off swap.
pub open spec fn next_debug_mode(m: DebugMode) -> DebugMode {
    match m {
        DebugMode::DebugOn => DebugMode::DebugOff,
        DebugMode::DebugOff => DebugMode::DebugOn,
    }
}

/// The debug mode after Z, and whether the debug boxes are then visible.
pub fn toggle_debug(debug_mode: DebugMode) -> (r: (DebugMode, bool))
    ensures
        r.0 == next_debug_mode(debug_mode),
        r.1 == (r.0 == DebugMode::DebugOn),
{
    match debug_mode {
        DebugMode::DebugOn => (DebugMode::DebugOff, false),
        DebugMode::DebugOff => (DebugMode::DebugOn, true),
    }
}


/// Pressing Z twice returns to the mode one started in; the boxes are shown
/// exactly while debugging is on.
pub proof fn lemma_debug_toggle_twice(m: DebugMode)
    ensures
        next_debug_mode(next_debug_mode(m)) == m,
        next_debug_mode(m) != m,
{
}

} // verus!
