use mtb_terrain::mtb_editor::mtb_grid::{HoverData, Hoverables};
use mtb_terrain::mtb_editor::mtb_ui::{ModifierState, PickerState};
use mtb_terrain::mtb_editor::vertex::{clear, pick_vertex};
use mtb_terrain::mtb_editor::widgets::dropdown::update_dropdown;
use mtb_terrain::mtb_editor::widgets::text_input::{
    try_focus, update_text_input, FocusTextState, TextInput, TextInputBox, TextKeys,
};
use mtb_terrain::mtb_editor::{toggle_appstate, toggle_displaystate, AppState, DisplayState};

#[test]
fn crate_app_state_starts_in_edit() {
    assert_eq!(AppState::default_state(), AppState::Edit);
    assert_eq!(toggle_appstate(AppState::Edit), AppState::Object);
    assert_eq!(toggle_appstate(AppState::Object), AppState::Edit);
}

#[test]
fn crate_display_state_waits_for_closed_console() {
    assert_eq!(toggle_displaystate(DisplayState::Basic, false), DisplayState::Wireframe);
    assert_eq!(toggle_displaystate(DisplayState::VertexWireframe, false), DisplayState::Basic);
    assert_eq!(toggle_displaystate(DisplayState::Vertex, true), DisplayState::Vertex);
}

#[test]
fn modifier_state_from_str_reads_names() {
    assert_eq!(ModifierState::from_str("Color"), Ok(ModifierState::Color));
    assert_eq!(ModifierState::from_str("Noise"), Ok(ModifierState::Noise));
    assert_eq!(ModifierState::from_str("Value"), Ok(ModifierState::Value));
    assert_eq!(ModifierState::from_str("Wave"), Ok(ModifierState::Wave));
    assert_eq!(ModifierState::from_str("Terraces"), Ok(ModifierState::Terraces));
    assert_eq!(ModifierState::from_str("Smoothing"), Ok(ModifierState::Smoothing));
    assert_eq!(ModifierState::from_str("color"), Err(()));
    for m in ModifierState::iterator() {
        assert_eq!(ModifierState::from_str(&format!("{:?}", m)), Ok(m));
    }
}

#[test]
fn crate_picker_defaults_and_order() {
    assert_eq!(PickerState::default_state(), PickerState::Point);
    assert_eq!(PickerState::iterator(), vec![PickerState::Box, PickerState::Point, PickerState::Brush]);
    assert_eq!(ModifierState::default_state(), ModifierState::Color);
}

#[test]
fn click_toggles_vertex_pick() {
    let mut picked = vec![false, true];
    pick_vertex(&mut picked, 0);
    assert_eq!(picked, vec![true, true]);
    pick_vertex(&mut picked, 0);
    assert_eq!(picked, vec![false, true]);
    pick_vertex(&mut picked, 9);
    assert_eq!(picked, vec![false, true]);
    clear(&mut picked);
    assert_eq!(picked, vec![false, false]);
}

#[test]
fn crate_hover_classification() {
    let mut h = HoverData::new();
    h.is_hovered_entity = true;
    h.hovered_tile_xz = (1, 2);
    h.classify();
    assert_eq!(h.hoverable, Hoverables::Entity);
    h.is_hovered_gui = true;
    h.classify();
    assert_eq!(h.hoverable, Hoverables::Gui);
    h.reset();
    assert_eq!(h.old_hoverable, Hoverables::Gui);
    assert_eq!(h.old_hovered_tile_xz, (1, 2));
    assert_eq!(h.hovered_tile_xz, (0, 0));
    assert_eq!(h.hoverable, Hoverables::Nothing);
    h.classify();
    assert_eq!(h.hoverable, Hoverables::Grid);
}

#[test]
fn text_box_focus_follows_click() {
    let (f, s) = try_focus(true, &vec![true, false, true], &vec![true, true, false]);
    assert_eq!(f, vec![true, false, false]);
    assert_eq!(s, FocusTextState::On);
    let (f2, s2) = try_focus(true, &vec![true, true], &vec![false, false]);
    assert_eq!(f2, vec![false, false]);
    assert_eq!(s2, FocusTextState::Off);
    let (f3, s3) = try_focus(false, &vec![true], &vec![true]);
    assert_eq!(f3, vec![false]);
    assert_eq!(s3, FocusTextState::Off);
    assert_eq!(FocusTextState::default_state(), FocusTextState::Off);
}

#[test]
fn typing_into_text_box() {
    let mut ti = TextInput::new("width".to_string());
    let mut tb = TextInputBox::new();
    let keys = TextKeys { typed: vec!['1', '2', '!', '.', '5'], back: false, delete: false, back_repeat: false };
    update_text_input(&keys, &mut ti, &mut tb);
    assert_eq!(ti.text, "12.5");
    assert_eq!(tb.text, "12.5");
    assert_eq!(tb.id, "width");
    let keys = TextKeys { typed: vec![], back: true, delete: false, back_repeat: true };
    update_text_input(&keys, &mut ti, &mut tb);
    assert_eq!(ti.text, "12");
    let keys = TextKeys { typed: vec!['x'], back: false, delete: true, back_repeat: false };
    update_text_input(&keys, &mut ti, &mut tb);
    assert_eq!(ti.text, "");
    assert_eq!(tb.text, "");
}

#[test]
fn dropdown_click_flips_hit_lists() {
    let mut expanded = vec![false, true, false];
    update_dropdown(true, &mut expanded, &vec![true, true, false], &vec![true, true, true]);
    assert_eq!(expanded, vec![true, false, false]);
    update_dropdown(false, &mut expanded, &vec![true, true, true], &vec![true, true, true]);
    assert_eq!(expanded, vec![true, false, false]);
}
