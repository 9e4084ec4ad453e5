pub mod matrix;
pub mod point;
