use mtb_terrain::editor::actions::{restore_state, save_state, snapshot, undo, undo_scene, SceneState, SceneStates, MAX_SCENE_STATES};
use mtb_terrain::editor::colors::Colors;
use mtb_terrain::editor::boxselect::{select as box_select, spawn_box_select};
use mtb_terrain::editor::brush::{reverse_winding, select as brush_select};
use mtb_terrain::editor::mtb_grid::{hover_target, HoverData, Hoverables};
use mtb_terrain::editor::mtb_ui::{apply_clicked, change_picker, ModifierState, PickerState, RecordColors};
use mtb_terrain::editor::{record_dbl_click, toggle_appstate, toggle_displaystate, AppState, DisplayState, DoubleClickTimer};

#[test]
fn editor_app_state_toggles_back() {
    assert_eq!(AppState::default_state(), AppState::Object);
    assert_eq!(toggle_appstate(AppState::Object), AppState::Edit);
    assert_eq!(toggle_appstate(toggle_appstate(AppState::Edit)), AppState::Edit);
}

#[test]
fn editor_display_state_cycles_in_four() {
    let mut s = DisplayState::default_state();
    assert_eq!(s, DisplayState::Basic);
    let mut seen = Vec::new();
    for _ in 0..4 {
        s = toggle_displaystate(s);
        seen.push(s);
    }
    assert_eq!(
        seen,
        vec![DisplayState::Wireframe, DisplayState::Vertex, DisplayState::VertexWireframe, DisplayState::Basic]
    );
}

#[test]
fn double_click_needs_two_quick_presses() {
    let mut t = DoubleClickTimer::new();
    assert_eq!(record_dbl_click(&mut t, false, true), (false, true));
    assert!(t.clicked);
    assert_eq!(record_dbl_click(&mut t, false, false), (false, false));
    assert_eq!(record_dbl_click(&mut t, false, true), (true, true));
    assert!(!t.clicked);
    // a second press after the stopwatch ran out only starts a new click
    assert_eq!(record_dbl_click(&mut t, false, true), (false, true));
    assert_eq!(record_dbl_click(&mut t, true, true), (false, true));
    assert!(t.clicked);
}

#[test]
fn undo_restores_latest_then_walks_back() {
    let mut s: SceneStates<u32> = SceneStates::new();
    assert_eq!(undo(&mut s), None);
    save_state(&mut s, 10);
    save_state(&mut s, 11);
    assert_eq!(s.index, 1);
    assert_eq!(undo(&mut s), Some(1));
    assert_eq!(s.index, 0);
    assert_eq!(undo(&mut s), Some(0));
    assert_eq!(s.index, 0);
    assert_eq!(undo(&mut s), Some(0));
}

#[test]
fn save_state_keeps_at_most_twenty() {
    let mut s: SceneStates<u32> = SceneStates::new();
    for i in 0..25u32 {
        save_state(&mut s, i);
    }
    assert_eq!(s.data.len(), MAX_SCENE_STATES);
    assert_eq!(s.data[0], 5);
    assert_eq!(s.data[19], 24);
    assert_eq!(s.index, 19);
    assert_eq!(undo(&mut s).map(|i| s.data[i]), Some(24));
}

#[test]
fn box_select_without_shift_picks_exactly_inside() {
    let mut picked = vec![true, true, false, false];
    let inside = vec![false, true, true, false];
    box_select(&mut picked, &inside, false);
    assert_eq!(picked, inside);
    let mut picked2 = vec![true, false, false, false];
    box_select(&mut picked2, &inside, true);
    assert_eq!(picked2, vec![true, true, true, false]);
}

#[test]
fn box_select_starts_over_plane_or_grid() {
    assert!(spawn_box_select(Hoverables::<u32>::Grid, false));
    assert!(spawn_box_select(Hoverables::Entity(3u32), false));
    assert!(!spawn_box_select(Hoverables::<u32>::Gui, false));
    assert!(!spawn_box_select(Hoverables::<u32>::Nothing, false));
    assert!(!spawn_box_select(Hoverables::<u32>::Grid, true));
}

#[test]
fn brush_only_adds_picks() {
    let mut picked = vec![true, false, false];
    brush_select(&mut picked, &vec![false, true, false]);
    assert_eq!(picked, vec![true, true, false]);
}

#[test]
fn reverse_winding_flips_each_triangle() {
    let tris = vec![[0usize, 1, 2], [2, 3, 0]];
    assert_eq!(reverse_winding(&tris), vec![2u32, 1, 0, 0, 3, 2]);
    assert_eq!(reverse_winding(&Vec::new()), Vec::<u32>::new());
}

#[test]
fn hover_prefers_gui_then_last_plane_then_grid() {
    let planes = vec![7u32, 8, 9];
    assert_eq!(hover_target(true, true, &planes, &vec![true, true, false]), Hoverables::Gui);
    assert_eq!(hover_target(true, false, &planes, &vec![true, true, false]), Hoverables::Entity(8));
    assert_eq!(hover_target(true, false, &planes, &vec![false, false, false]), Hoverables::Grid);
    assert_eq!(hover_target(false, true, &planes, &vec![true, true, true]), Hoverables::Nothing);
}

#[test]
fn hover_data_reset_moves_hover_to_old() {
    let mut h: HoverData<u32> = HoverData::new();
    assert_eq!(h.hoverable, Hoverables::Nothing);
    h.hoverable = Hoverables::Entity(4);
    h.hovered_tile_xz = (3, -2);
    h.reset();
    assert_eq!(h.old_hoverable, Hoverables::Entity(4));
    assert_eq!(h.hoverable, Hoverables::Nothing);
    assert_eq!(h.hovered_tile_xz, (0, 0));
}

#[test]
fn number_keys_choose_picker() {
    assert_eq!(change_picker(true, false, false), Some(PickerState::Box));
    assert_eq!(change_picker(false, true, false), Some(PickerState::Point));
    assert_eq!(change_picker(true, true, true), Some(PickerState::Brush));
    assert_eq!(change_picker(false, false, false), None);
}

#[test]
fn editor_panel_lists_every_choice() {
    assert_eq!(PickerState::iterator(), vec![PickerState::Box, PickerState::Point, PickerState::Brush]);
    let mods = ModifierState::iterator();
    assert_eq!(mods.len(), 7);
    assert_eq!(mods[0], ModifierState::Color);
    assert_eq!(mods[6], ModifierState::Terrace);
}

#[test]
fn apply_records_colour_modifiers_colours() {
    let (e, r) = apply_clicked(ModifierState::Color);
    assert_eq!(e.mod_type, ModifierState::Color);
    assert_eq!(r, RecordColors::Single);
    assert_eq!(apply_clicked(ModifierState::ColorGradient).1, RecordColors::GradientEnds);
    let (e2, r2) = apply_clicked(ModifierState::Wave);
    assert_eq!(e2.mod_type, ModifierState::Wave);
    assert_eq!(r2, RecordColors::Nothing);
}

#[test]
fn undo_gives_recorded_vertices_back() {
    let mut vertices = vec![(1.0f32, true), (2.0, false), (3.0, false)];
    let mut scene: SceneStates<SceneState<(f32, bool)>> = SceneStates::new();
    save_state(&mut scene, snapshot(&vertices));
    vertices[0] = (10.0, false);
    vertices[2] = (30.0, true);
    undo_scene(&mut scene, &mut vertices);
    assert_eq!(vertices, vec![(1.0, true), (2.0, false), (3.0, false)]);
    assert_eq!(scene.index, 0);
}

#[test]
fn restore_leaves_unrecorded_vertices() {
    let state = SceneState { vertex_entities: vec![Some(7u8), None] };
    let mut vertices = vec![1u8, 2, 3];
    restore_state(&state, &mut vertices);
    assert_eq!(vertices, vec![7, 2, 3]);
    let mut empty: SceneStates<SceneState<u8>> = SceneStates::new();
    undo_scene(&mut empty, &mut vertices);
    assert_eq!(vertices, vec![7, 2, 3]);
}

#[test]
fn recent_colors_record_each_colour_once() {
    let mut c = Colors::new();
    c.add([255, 0, 0, 255]);
    c.add([0, 255, 0, 255]);
    c.add([255, 0, 0, 255]);
    assert_eq!(c.selects, vec![[255, 0, 0, 255], [0, 255, 0, 255]]);
    c.clicked = true;
    c.reset();
    assert!(!c.clicked);
    assert_eq!(c.selects.len(), 2);
}
