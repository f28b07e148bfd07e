//! The editor's modes and the decisions its input systems take.
use vstd::prelude::*;

pub mod actions;
pub mod boxselect;
pub mod brush;
pub mod colors;
pub mod mtb_grid;
pub mod mtb_ui;

verus! {

/// How planes and vertices are drawn.
#[derive(Debug, Clone, Copy, PartialEq, Eq, Structural)]
pub enum DisplayState {
    Basic,
    Wireframe,
    Vertex,
    VertexWireframe,
}

/// Whether whole planes or single vertices are edited.
#[derive(Debug, Clone, Copy, PartialEq, Eq, Structural)]
pub enum AppState {
    Object,
    Edit,
}

impl AppState {
    /// The mode the editor starts in.
    pub fn default_state() -> (r: AppState)
        ensures
            r == AppState::Object,
    {
        AppState::Object
    }
}

impl DisplayState {
    /// The display the editor starts with.
    pub fn default_state() -> (r: DisplayState)
        ensures
            r == DisplayState::Basic,
    {
        DisplayState::Basic
    }
}

/// The mode after Tab: object and edit mode swap.
pub open spec fn next_app_state(s: AppState) -> AppState {
    match s {
        AppState::Object => AppState::Edit,
        AppState::Edit => AppState::Object,
    }
}

/// The display after Space: basic, wireframe, vertices, vertices with
/// wireframe, and round again.
pub open spec fn next_display_state(s: DisplayState) -> DisplayState {
    match s {
        DisplayState::Basic => DisplayState::Wireframe,
        DisplayState::Wireframe => DisplayState::Vertex,
        DisplayState::Vertex => DisplayState::VertexWireframe,
        DisplayState::VertexWireframe => DisplayState::Basic,
    }
}

/// The mode that Tab switches to.
pub fn toggle_appstate(app_state: AppState) -> (r: AppState)
    ensures
        r == next_app_state(app_state),
{
    match app_state {
        AppState::Object => AppState::Edit,
        AppState::Edit => AppState::Object,
    }
}

/// The display that Space switches to.
pub fn toggle_displaystate(display_state: DisplayState) -> (r: DisplayState)
    ensures
        r == next_display_state(display_state),
{
    match display_state {
        DisplayState::Basic => DisplayState::Wireframe,
        DisplayState::Wireframe => DisplayState::Vertex,
        DisplayState::Vertex => DisplayState::VertexWireframe,
        DisplayState::VertexWireframe => DisplayState::Basic,
    }
}

/// Pressing Tab twice returns to the mode one started in.
pub proof fn lemma_appstate_toggle_twice(s: AppState)
    ensures
        next_app_state(next_app_state(s)) == s,
        next_app_state(s) != s,
{
}

/// Space cycles through all four displays: four presses return to the start,
/// and fewer never do.
pub proof fn lemma_displaystate_cycle(s: DisplayState)
    ensures
        next_display_state(next_display_state(next_display_state(next_display_state(s)))) == s,
        next_display_state(s) != s,
        next_display_state(next_display_state(s)) != s,
        next_display_state(next_display_state(next_display_state(s))) != s,
{
}

/// Whether the last left click may still become a double click. (The
/// stopwatch that times it stays with the application.)
pub struct DoubleClickTimer {
    pub clicked: bool,
}

impl DoubleClickTimer {
    /// No click pending.
    pub fn new() -> (r: DoubleClickTimer)
        ensures
            !r.clicked,
    {
        DoubleClickTimer { clicked: false }
    }
}

/// One frame of double-click detection. `expired`: more than the double-click
/// time has passed since the stopwatch was last reset; `just_pressed`: the left
/// button went down this frame. Returns whether a double click happened and
/// whether the stopwatch restarts.
pub fn record_dbl_click(dblc_timer: &mut DoubleClickTimer, expired: bool, just_pressed: bool) -> (r: (
    bool,
    bool,
))
    ensures
        r.1 == just_pressed,
        r.0 == (just_pressed && old(dblc_timer).clicked && !expired),
        final(dblc_timer).clicked == if just_pressed {
            !(old(dblc_timer).clicked && !expired)
        } else {
            old(dblc_timer).clicked && !expired
        },
{
    if expired {
        dblc_timer.clicked = false;
    }
    let mut fire = false;
    if just_pressed {
        if dblc_timer.clicked {
            dblc_timer.clicked = false;
            fire = true;
        } else {
            dblc_timer.clicked = true;
        }
    }
    (fire, just_pressed)
}

} // verus!
