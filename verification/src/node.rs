//! The parameters of one neuron of a fixed network.
use vstd::prelude::*;
use crate::fixed::{Fixed, SCALE};

verus! {

/// A neuron's own parameters.
#[derive(Clone, Copy, Debug, PartialEq, Eq, Structural)]
pub struct Node {
    /// How stimulated the neuron must be before it activates.
    pub bias: Fixed,
    /// How slowly the neuron's state follows its stimulation.
    pub time_constant: Fixed,
}

impl Node {
    /// A neuron with the given bias and time constant.
    pub fn new(bias: Fixed, dt: Fixed) -> (node: Self)
        ensures
            node.bias == bias,
            node.time_constant == dt,
    {
        Self { bias, time_constant: dt }
    }
}

impl Default for Node {
    /// A neuron without bias whose time constant is one.
    fn default() -> (node: Self)
        ensures
            node.bias.raw == 0,
            node.time_constant.raw == SCALE,
    {
        Self::new(Fixed { raw: 0 }, Fixed { raw: SCALE })
    }
}

} // verus!
