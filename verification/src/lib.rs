pub mod colour;
pub mod fp;
pub mod fractals;
pub mod grid;
pub mod render;
