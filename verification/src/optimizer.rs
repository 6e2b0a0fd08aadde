//! The closed set of parameter-update rules.
//!
//! An optimizer is copied by value into every update call and carries no
//! per-parameter state: the moment buffers used by Adam live in the layer
//! that owns the parameters.  All coefficients are binary64 bit patterns.

use vstd::prelude::*;

verus! {

#[derive(Clone, Copy)]
pub enum Optimizer {
    SGD { learning_step: u64 },
    Adam { learning_step: u64, beta1: u64, beta2: u64 },
}

} // verus!
