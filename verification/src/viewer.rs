//! The terrain viewer's modes: viewing or editing, with or without wireframe.
use vstd::prelude::*;

verus! {

/// Whether planes are drawn with their wireframe; on at start.
#[derive(Debug, Clone, Copy, PartialEq, Eq, Structural)]
pub enum DisplayMode {
    WireFrameOn,
    WireFrameOff,
}

/// Whether the terrain is viewed or edited; viewed at start.
#[derive(Debug, Clone, Copy, PartialEq, Eq, Structural)]
pub enum AppMode {
    View,
    Edit,
}

impl DisplayMode {
    /// The display the viewer starts with.
    pub fn default_state() -> (r: DisplayMode)
        ensures
            r == DisplayMode::WireFrameOn,
    {
        DisplayMode::WireFrameOn
    }
}

impl AppMode {
    /// The mode the viewer starts in.
    pub fn default_state() -> (r: AppMode)
        ensures
            r == AppMode::View,
    {
        AppMode::View
    }
}

/// The display after Space: the wireframe goes on or off.
pub open spec fn next_display_mode(m: DisplayMode) -> DisplayMode {
    match m {
        DisplayMode::WireFrameOn => DisplayMode::WireFrameOff,
        DisplayMode::WireFrameOff => DisplayMode::WireFrameOn,
    }
}

/// The mode after the mode key: viewing and editing swap.
pub open spec fn next_app_mode(m: AppMode) -> AppMode {
    match m {
        AppMode::View => AppMode::Edit,
        AppMode::Edit => AppMode::View,
    }
}

/// The display after Space, and whether the planes then carry a wireframe.
pub fn toggle_wireframe(display_mode: DisplayMode) -> (r: (DisplayMode, bool))
    ensures
        r.0 == next_display_mode(display_mode),
        r.1 == (r.0 == DisplayMode::WireFrameOn),
{
    match display_mode {
        DisplayMode::WireFrameOn => (DisplayMode::WireFrameOff, false),
        DisplayMode::WireFrameOff => (DisplayMode::WireFrameOn, true),
    }
}

/// The mode after the mode key: viewing and editing swap.
pub fn toggle_appmode(app_mode: AppMode) -> (r: AppMode)
    ensures
        r == next_app_mode(app_mode),
{
    match app_mode {
        AppMode::View => AppMode::Edit,
        AppMode::Edit => AppMode::View,
    }
}


/// Two presses of either key return the viewer to where it was, and one press
/// always changes it.
pub proof fn lemma_viewer_toggles_twice(d: DisplayMode, a: AppMode)
    ensures
        next_display_mode(next_display_mode(d)) == d,
        next_display_mode(d) != d,
        next_app_mode(next_app_mode(a)) == a,
        next_app_mode(a) != a,
{
}

} // verus!
