use mtb_terrain::editor::mtb_grid::Hoverables;
use mtb_terrain::terrain_core::easings::Easings;
use mtb_terrain::terrain_core::noises::Noises;
use mtb_terrain::terrain_core::planes::{deselect_plane, drop_plane, pick_plane, rect_plane_indices, spawn_edit_plane};
use mtb_terrain::terrain_core::utils::Axis;
use mtb_terrain::terrain_core::value::{ValueScaling, ValueType};
use mtb_terrain::editor::mtb_ui::ModifierState;
use mtb_terrain::terrain_core::vertex::{deselect_vertex, modifier_change, pick_vertex, select_all, VertexChange};
use mtb_terrain::terrain_core::wanders::{get_random_element, step_seed, NoiseSeed};

#[test]
fn value_type_iterator_lists_all() {
    assert_eq!(ValueType::iterator(), vec![ValueType::Value, ValueType::Diff, ValueType::Scale]);
}

#[test]
fn value_scaling_iterator_lists_all() {
    assert_eq!(
        ValueScaling::iterator(),
        vec![
            ValueScaling::NoScaling,
            ValueScaling::DistancePoint,
            ValueScaling::DistancePointRev,
            ValueScaling::DistanceAxis,
            ValueScaling::DistanceAxisRev,
        ]
    );
}

#[test]
fn axis_and_easing_iterators() {
    assert_eq!(Axis::iterator(), vec![Axis::X, Axis::Z]);
    let e = Easings::iterator();
    assert_eq!(e.len(), 6);
    assert_eq!(e[0], Easings::NoEasing);
    assert_eq!(e[5], Easings::AbsoluteValue);
}

#[test]
fn noise_iterator_lists_each_family_once() {
    let n = Noises::iterator();
    assert_eq!(n.len(), 27);
    assert_eq!(n[0], Noises::Perlin);
    assert_eq!(n[26], Noises::HMSS);
    for i in 0..n.len() {
        for j in (i + 1)..n.len() {
            assert_ne!(n[i], n[j]);
        }
    }
}

#[test]
fn rect_plane_indices_of_one_quad() {
    // one subdivision neither way: 2 x 2 vertices, one quad
    assert_eq!(rect_plane_indices(0, 0), vec![3u32, 1, 2, 0, 2, 1]);
}

#[test]
fn rect_plane_indices_of_larger_plane() {
    let r = rect_plane_indices(1, 2);
    // 3 rows of 4 vertices: 2 x 3 quads
    assert_eq!(r.len(), 36);
    // quad (row 1, column 2): vertex 1 * 4 + 2 = 6
    let k = 6 * (1 * 3 + 2);
    assert_eq!(&r[k..k + 6], &[11u32, 7, 10, 6, 10, 7]);
    assert!(r.iter().all(|&i| i < 12));
}

#[test]
fn pick_vertex_without_shift_picks_only_target() {
    let mut picked = vec![true, false, true, false];
    pick_vertex(&mut picked, 1, false);
    assert_eq!(picked, vec![false, true, false, false]);
    let mut picked2 = vec![true, false, true, false];
    pick_vertex(&mut picked2, 3, true);
    assert_eq!(picked2, vec![true, false, true, true]);
    let mut picked3 = vec![true, false];
    pick_vertex(&mut picked3, 5, false);
    assert_eq!(picked3, vec![true, false]);
}

#[test]
fn deselect_and_select_all_vertices() {
    let mut picked = vec![true, false, true];
    deselect_vertex(&mut picked);
    assert_eq!(picked, vec![false, false, false]);
    select_all(&mut picked, &vec![2, 0, 9]);
    assert_eq!(picked, vec![true, false, true]);
}

#[test]
fn plane_picking_and_dropping() {
    let mut picked = vec![false, false, false];
    pick_plane(&mut picked, 2);
    pick_plane(&mut picked, 0);
    pick_plane(&mut picked, 7);
    assert_eq!(picked, vec![true, false, true]);
    assert_eq!(drop_plane(&picked), vec![0, 2]);
    deselect_plane(&mut picked);
    assert_eq!(picked, vec![false, false, false]);
    assert_eq!(drop_plane(&picked), Vec::<usize>::new());
}

#[test]
fn double_click_opens_plane_editor() {
    let mut editing = vec![false, false];
    spawn_edit_plane(&mut editing, Hoverables::Entity(1));
    assert_eq!(editing, vec![false, true]);
    spawn_edit_plane(&mut editing, Hoverables::Grid);
    spawn_edit_plane(&mut editing, Hoverables::Entity(4));
    assert_eq!(editing, vec![false, true]);
}

#[test]
fn random_element_is_one_of_the_elements() {
    let elements = vec![3u8, 5, 9];
    for i in 0..20u64 {
        let a = get_random_element(&elements, NoiseSeed::SetSeed(7), i);
        assert!(elements.contains(&a));
        let b = get_random_element(&elements, NoiseSeed::NoSeed, i);
        assert!(elements.contains(&b));
    }
    assert_eq!(get_random_element(&vec![42u8], NoiseSeed::SetSeed(1), 2), 42);
}

#[test]
fn seeded_random_elements_vary_over_steps() {
    // a wrapper that always picked index 0 would return only the first element
    let elements: Vec<u32> = (0..50).collect();
    let picks: Vec<u32> = (0..40u64).map(|i| get_random_element(&elements, NoiseSeed::SetSeed(3), i)).collect();
    assert!(picks.iter().any(|&p| p != 0));
}

#[test]
fn modifiers_change_colour_height_or_position() {
    assert_eq!(modifier_change(ModifierState::Color, true), (VertexChange::Color, false));
    assert_eq!(modifier_change(ModifierState::ColorGradient, false), (VertexChange::Color, false));
    assert_eq!(modifier_change(ModifierState::Value, true), (VertexChange::Height, true));
    assert_eq!(modifier_change(ModifierState::Noise, false), (VertexChange::Height, false));
    assert_eq!(modifier_change(ModifierState::Terrace, true), (VertexChange::Height, true));
    assert_eq!(modifier_change(ModifierState::Wave, true), (VertexChange::Position, false));
    assert_eq!(modifier_change(ModifierState::Offset, true), (VertexChange::Position, false));
}

#[test]
fn step_seed_offsets_fixed_seed() {
    assert_eq!(step_seed(NoiseSeed::SetSeed(7), 3), Some(10));
    assert_eq!(step_seed(NoiseSeed::NoSeed, 3), None);
}
