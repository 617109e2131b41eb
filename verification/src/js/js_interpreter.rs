//! The interpreter of JavaScript.
use vstd::prelude::*;

verus! {

/// Turns the tree of a JavaScript text into a runnable document.
pub struct JsInterpreter {}

} // verus!
