//! The dimensions of the sandbox.

use vstd::prelude::*;

verus! {

#[derive(Copy, Clone, Debug, PartialEq, Eq, Structural)]
pub struct ParameterError;

#[derive(Copy, Clone, Debug, PartialEq, Eq, Structural)]
pub struct Parameters {
    pub sandbox_w: i32,
    pub sandbox_h: i32,
}

impl Parameters {
    /// The parameters of a square sandbox with `sandbox_size` cells on each
    /// side.
    pub fn new(sandbox_size: i32) -> (parameters: Self)
        ensures
            parameters.sandbox_w == sandbox_size,
            parameters.sandbox_h == sandbox_size,
    {
        Parameters { sandbox_w: sandbox_size, sandbox_h: sandbox_size }
    }
}

} // verus!
