pub mod easings;
pub mod noises;
pub mod planes;
pub mod utils;
pub mod vertex;
pub mod wanders;
pub mod value;
