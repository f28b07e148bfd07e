use mtb_terrain::mtbterrain::mtb_gui::{toggle_debug, DebugMode};
use mtb_terrain::mtbterrain::mtbgrid::GridData;
use mtb_terrain::terrain::{Easings, MeshData, Noises};
use mtb_terrain::viewer::{toggle_appmode, toggle_wireframe, AppMode, DisplayMode};

#[test]
fn easings_from_str_reads_preset_names() {
    assert_eq!(Easings::from_str("SmoothStep"), Ok(Easings::SmoothStep));
    assert_eq!(Easings::from_str("Abs"), Ok(Easings::AbsoluteValue));
    assert_eq!(Easings::from_str("Abs10"), Ok(Easings::AbsoluteValue10));
    assert_eq!(Easings::from_str("None"), Ok(Easings::NoEasing));
    assert_eq!(Easings::from_str("AbsoluteValue"), Err(()));
    assert_eq!(Easings::from_str(""), Err(()));
}

#[test]
fn noises_from_str_reads_preset_names() {
    assert_eq!(Noises::from_str("None"), Ok(Noises::NoNoise));
    assert_eq!(Noises::from_str("Perlin"), Ok(Noises::Perlin));
    assert_eq!(Noises::from_str("HMPerlinSurflet"), Ok(Noises::HMPerlinSurflet));
    assert_eq!(Noises::from_str("HMSS"), Ok(Noises::HMSS));
    assert_eq!(Noises::from_str("perlin"), Err(()));
}

#[test]
fn mesh_quad_reads_six_indices() {
    let mut m = MeshData::new();
    assert_eq!(m.index6, vec![0, 1, 2, 3, 4, 5]);
    m.indices = (100..112).collect();
    let q0 = m.get_quad(0);
    assert_eq!(q0.id, 0);
    assert_eq!(q0.indices, vec![100, 101, 102, 103, 104, 105]);
    let q1 = m.get_quad(1);
    assert_eq!(q1.id, 1);
    assert_eq!(q1.indices, vec![106, 107, 108, 109, 110, 111]);
    m.index6 = vec![5, 0];
    assert_eq!(m.get_quad(1).indices, vec![111, 106]);
}

#[test]
fn grid_starts_empty() {
    let g = GridData::new();
    assert_eq!(g.counts_xz, (0, 0));
    assert_eq!(g.data.rows(), 0);
    assert!(g.data.is_empty());
}

#[test]
fn grid_rows_hold_tile_coordinates() {
    let g = GridData::with_counts((2, 3));
    assert_eq!(g.data.rows(), 2);
    assert_eq!(g.data.cols(), 3);
    assert_eq!(g.data.get(0usize, 2usize), Some(&(0u32, 2u32)));
    assert_eq!(g.data.get(1usize, 0usize), Some(&(1u32, 0u32)));
    let all: Vec<(u32, u32)> = g.data.iter().copied().collect();
    assert_eq!(all, vec![(0, 0), (0, 1), (0, 2), (1, 0), (1, 1), (1, 2)]);
}

#[test]
fn debug_mode_toggles() {
    assert_eq!(DebugMode::default_state(), DebugMode::DebugOff);
    assert_eq!(toggle_debug(DebugMode::DebugOff), (DebugMode::DebugOn, true));
    assert_eq!(toggle_debug(DebugMode::DebugOn), (DebugMode::DebugOff, false));
}

#[test]
fn viewer_modes_toggle() {
    assert_eq!(DisplayMode::default_state(), DisplayMode::WireFrameOn);
    assert_eq!(toggle_wireframe(DisplayMode::WireFrameOn), (DisplayMode::WireFrameOff, false));
    assert_eq!(toggle_wireframe(DisplayMode::WireFrameOff), (DisplayMode::WireFrameOn, true));
    assert_eq!(AppMode::default_state(), AppMode::View);
    assert_eq!(toggle_appmode(AppMode::View), AppMode::Edit);
    assert_eq!(toggle_appmode(AppMode::Edit), AppMode::View);
}

const NOISE_NAMES: [&str; 28] = [
    "None", "Perlin", "PerlinSurflet", "OpenSimplex", "Value", "SuperSimplex", "Worley", "Simplex",
    "FBMPerlin", "BMPerlin", "BPerlin", "RMPerlin", "HMPerlin", "FBMPerlinSurflet", "BMPerlinSurflet",
    "BPerlinSurflet", "RMPerlinSurflet", "HMPerlinSurflet", "FBMValue", "BMValue", "BValue", "RMValue",
    "HMValue", "FBMSS", "BMSS", "BSS", "RMSS", "HMSS",
];

#[test]
fn every_noise_preset_name_reads_back_once() {
    let read: Vec<Noises> = NOISE_NAMES.iter().map(|n| Noises::from_str(n).unwrap()).collect();
    for i in 0..read.len() {
        for j in (i + 1)..read.len() {
            assert_ne!(read[i], read[j]);
        }
    }
    assert_eq!(read[0], Noises::NoNoise);
    assert_eq!(read[27], Noises::HMSS);
    assert_eq!(Noises::from_str("perlin"), Err(()));
    assert_eq!(Noises::from_str(""), Err(()));
}

#[test]
fn every_easing_preset_name_reads_back_once() {
    let names = ["SmoothStep", "SmoothStop", "SmoothEnd", "SmoothStart", "Abs", "Abs2", "Abs3", "Abs6", "Abs10", "None"];
    let read: Vec<Easings> = names.iter().map(|n| Easings::from_str(n).unwrap()).collect();
    for i in 0..read.len() {
        for j in (i + 1)..read.len() {
            assert_ne!(read[i], read[j]);
        }
    }
    assert_eq!(Easings::from_str("abs"), Err(()));
}
