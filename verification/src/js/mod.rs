//! JavaScript: its tokens and grammar, and the web APIs that scripts reach.
pub mod api;
pub mod js_interpreter;
pub mod js_rule;
pub mod js_token;

pub use js_interpreter::JsInterpreter;
pub use js_rule::JsRule;
pub use js_token::JsToken;
