pub mod text_input;
pub mod dropdown;
