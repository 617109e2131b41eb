pub mod bitmap;
pub mod color;

pub use color::Color;
