//! Verified core of a text-driven modular terrain generator and editor.
pub mod terrain_core;
pub mod text;
pub mod editor;
pub mod mtb_editor;
pub mod terrain;
pub mod mtbterrain;
pub mod viewer;
