//! The editor crate's modes, panel choices, vertex picking and console.
use vstd::prelude::*;

pub mod completion;
pub mod mtb_console;
pub mod mtb_grid;
pub mod mtb_ui;
pub mod vertex;
pub mod widgets;

verus! {

/// How planes and vertices are drawn.
#[derive(Debug, Clone, Copy, PartialEq, Eq, Structural)]
pub enum DisplayState {
    Basic,
    Wireframe,
    Vertex,
    VertexWireframe,
}

/// Whether whole planes or single vertices are edited.
#[derive(Debug, Clone, Copy, PartialEq, Eq, Structural)]
pub enum AppState {
    Object,
    Edit,
}

impl AppState {
    /// The mode the editor starts in: vertex editing.
    pub fn default_state() -> (r: AppState)
        ensures
            r == AppState::Edit,
    {
        AppState::Edit
    }
}

impl DisplayState {
    /// The display the editor starts with.
    pub fn default_state() -> (r: DisplayState)
        ensures
            r == DisplayState::Basic,
    {
        DisplayState::Basic
    }
}

/// The mode after Tab: object and edit mode swap.
pub open spec fn next_app_state(s: AppState) -> AppState {
    match s {
        AppState::Object => AppState::Edit,
        AppState::Edit => AppState::Object,
    }
}

/// The display after Space: basic, wireframe, vertices, vertices with
/// wireframe, and round again.
pub open spec fn next_display_state(s: DisplayState) -> DisplayState {
    match s {
        DisplayState::Basic => DisplayState::Wireframe,
        DisplayState::Wireframe => DisplayState::Vertex,
        DisplayState::Vertex => DisplayState::VertexWireframe,
        DisplayState::VertexWireframe => DisplayState::Basic,
    }
}

/// The mode that Tab switches to.
pub fn toggle_appstate(app_state: AppState) -> (r: AppState)
    ensures
        r == next_app_state(app_state),
{
    match app_state {
        AppState::Object => AppState::Edit,
        AppState::Edit => AppState::Object,
    }
}

/// The display that Space switches to while the console is closed; with the
/// console open, Space is typed text and the display stays.
pub fn toggle_displaystate(display_state: DisplayState, console_open: bool) -> (r: DisplayState)
    ensures
        r == if console_open {
            display_state
        } else {
            next_display_state(display_state)
        },
{
    if console_open {
        return display_state;
    }
    match display_state {
        DisplayState::Basic => DisplayState::Wireframe,
        DisplayState::Wireframe => DisplayState::Vertex,
        DisplayState::Vertex => DisplayState::VertexWireframe,
        DisplayState::VertexWireframe => DisplayState::Basic,
    }
}

/// Pressing Tab twice returns to the mode one started in.
pub proof fn lemma_appstate_toggle_twice(s: AppState)
    ensures
        next_app_state(next_app_state(s)) == s,
        next_app_state(s) != s,
{
}

/// Space cycles through all four displays: four presses return to the start,
/// and fewer never do.
pub proof fn lemma_displaystate_cycle(s: DisplayState)
    ensures
        next_display_state(next_display_state(next_display_state(next_display_state(s)))) == s,
        next_display_state(s) != s,
        next_display_state(next_display_state(s)) != s,
        next_display_state(next_display_state(next_display_state(s))) != s,
{
}

} // verus!
