pub mod bits;
pub mod image;
pub mod js;
pub mod math_parse;
pub mod outcome;
pub mod parse;
pub mod text;

pub mod net;
