//! A demonstration language of sums of numbers, built on `parse`.
pub mod math_interpreter;
pub mod math_rule;
pub mod math_token;

pub use math_interpreter::MathInterpreter;
pub use math_rule::MathRule;
pub use math_token::MathToken;
