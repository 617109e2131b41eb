//! The interpreter of sums of numbers.
use vstd::prelude::*;

verus! {

/// Computes the value of a text of sums. Its walk of the tree computes with `f32` numbers.
pub struct MathInterpreter {}

} // verus!
