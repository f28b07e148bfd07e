pub mod mtb_gui;
pub mod mtbgrid;
