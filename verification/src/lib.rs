//! Continuous-time recurrent neural networks over fixed-point arithmetic.
//!
//! [`CTRNN`] is a network with constant parameters that keeps its own state;
//! [`rlctrnn::RLCTRNN`] is the adaptive variant, whose parameters are
//! [`fluctuator::Fluctuator`]s.
pub mod fixed;
pub mod series;
pub mod activation;
pub mod accuracy;
pub mod ascent;
pub mod landmarks;
pub mod wave;
pub mod fluctuator;
pub mod node;
pub mod rlctrnn;

use vstd::prelude::*;
use crate::activation::{logistic, sigmoid};
use crate::fixed::Fixed;
use crate::node::Node;

verus! {

/// The mathematical content of a [`CTRNN`]. `weights[i][j]` is the weight
/// going from node `j` to node `i`.
pub struct Circuit {
    pub count: nat,
    pub nodes: Seq<Node>,
    pub weights: Seq<Seq<Fixed>>,
    pub states: Seq<Fixed>,
}

impl Circuit {
    /// There is one node and one state per neuron, and the weights form a
    /// square matrix.
    pub open spec fn well_formed(self) -> bool {
        &&& self.nodes.len() == self.count
        &&& self.states.len() == self.count
        &&& self.weights.len() == self.count
        &&& forall|i: int| 0 <= i < self.count ==> (#[trigger] self.weights[i]).len() == self.count
    }

    /// A newly built network: default nodes, no connections, every state at
    /// one half.
    pub open spec fn fresh(count: nat) -> Circuit {
        Circuit {
            count,
            nodes: Seq::new(
                count,
                |i: int| Node { bias: Fixed { raw: 0 }, time_constant: Fixed { raw: 1_000_000_000_000_000 } },
            ),
            weights: Seq::new(count, |i: int| Seq::new(count, |j: int| Fixed { raw: 0 })),
            states: Seq::new(count, |i: int| Fixed { raw: 500_000_000_000_000 }),
        }
    }

    /// What the first `upto` neurons feed into neuron `i`: the sum of their
    /// states, each weighted by its connection to `i`, added up in the order
    /// of the neurons.
    pub open spec fn excitation(self, i: int, upto: nat) -> Fixed
        decreases upto,
    {
        if upto == 0 {
            Fixed { raw: 0 }
        } else {
            let j = upto - 1;
            self.excitation(i, j as nat).sum(self.weights[i][j].product(self.states[j]))
        }
    }

    /// The rate at which the state of neuron `i` changes: the distance from
    /// its state to the logistic curve of its excitation less its bias, over
    /// its time constant. Where the time constant is zero the rate is
    /// singular, and there is none.
    pub open spec fn delta(self, i: int) -> Option<Fixed> {
        let stimulated = self.excitation(i, self.count).difference(self.nodes[i].bias);
        (Fixed { raw: logistic(stimulated.raw as int) as i64 }).difference(self.states[i]).ratio(
            self.nodes[i].time_constant,
        )
    }

    /// The state of neuron `i` after one cycle: its input where there is
    /// one, and else its state advanced by `delta * dt`, where there is a
    /// `delta`.
    pub open spec fn next_state(self, inputs: Seq<Fixed>, dt: Fixed, i: int) -> Option<Fixed> {
        if i < inputs.len() {
            Some(inputs[i])
        } else {
            match self.delta(i) {
                Some(delta) => Some(self.states[i].sum(delta.product(dt))),
                None => None,
            }
        }
    }

    /// Every neuron that `inputs` does not reach has a time constant other
    /// than zero, so the cycle can run.
    pub open spec fn regular(self, inputs: Seq<Fixed>) -> bool {
        forall|i: int|
            inputs.len() <= i < self.count ==> (#[trigger] self.nodes[i]).time_constant.raw != 0
    }

    /// The network after one cycle, for a network that is `regular`.
    pub open spec fn ticked(self, inputs: Seq<Fixed>, dt: Fixed) -> Circuit {
        Circuit {
            states: Seq::new(self.count, |i: int| self.next_state(inputs, dt, i).unwrap()),
            ..self
        }
    }
}

/// Continuous-Time Recurrent Neural Network (`CTRNN`) with constant
/// parameters.
pub struct CTRNN {
    /// Number of nodes in the network
    count: usize,
    /// Array of each node's parameters:
    /// - `bias`: how stimulated a neuron must be before activating
    /// - `time_constant`: the excitatory component of a neuron
    nodes: Vec<Node>,
    /// Array of each node's ***input*** weights
    /// e.g. `weights[i][j]` is the weight going from node `j` TO node `i`
    weights: Vec<Vec<Fixed>>,
    /// Array of each node's activation
    states: Vec<Fixed>,
}

impl View for CTRNN {
    type V = Circuit;

    closed spec fn view(&self) -> Circuit {
        Circuit {
            count: self.count as nat,
            nodes: self.nodes@,
            weights: Seq::new(self.weights@.len(), |i: int| self.weights@[i]@),
            states: self.states@,
        }
    }
}

impl CTRNN {
    /// The network's content is well formed.
    pub open spec fn well_formed(&self) -> bool {
        self@.well_formed()
    }

    /// Create a new CTRNN instance with the specified amount of nodes.
    /// > This will create a fully-connected CTRNN
    pub fn new(nodes: usize) -> (net: Self)
        ensures
            net@ == Circuit::fresh(nodes as nat),
            net.well_formed(),
    {
        let mut parameters: Vec<Node> = Vec::new();
        let mut weights: Vec<Vec<Fixed>> = Vec::new();
        let mut states: Vec<Fixed> = Vec::new();
        for i in 0..nodes
            invariant
                parameters@ =~= Seq::new(
                    i as nat,
                    |k: int|
                        Node { bias: Fixed { raw: 0 }, time_constant: Fixed { raw: 1_000_000_000_000_000 } },
                ),
                states@ =~= Seq::new(i as nat, |k: int| Fixed { raw: 500_000_000_000_000 }),
                weights@.len() == i,
                forall|k: int|
                    0 <= k < i ==> (#[trigger] weights@[k])@ =~= Seq::new(
                        nodes as nat,
                        |j: int| Fixed { raw: 0 },
                    ),
        {
            parameters.push(Node::default());
            states.push(Fixed { raw: 500_000_000_000_000 });
            let mut row: Vec<Fixed> = Vec::new();
            for j in 0..nodes
                invariant
                    row@ =~= Seq::new(j as nat, |k: int| Fixed { raw: 0 }),
            {
                row.push(Fixed { raw: 0 });
            }
            weights.push(row);
        }
        let net = Self { count: nodes, nodes: parameters, weights, states };
        proof {
            assert(net@.weights =~= Circuit::fresh(nodes as nat).weights);
        }
        net
    }

    /// Set an individual weight within the network: the one of the
    /// connection by which node `to` gets excited from node `from`.
    /// > By default all weights are initialized to zero
    pub fn set_weight(&mut self, from: usize, to: usize, weight: Fixed) -> (net: &mut Self)
        requires
            old(self).well_formed(),
            from < old(self)@.count,
            to < old(self)@.count,
        ensures
            net@ == (Circuit {
                weights: old(self)@.weights.update(
                    to as int,
                    old(self)@.weights[to as int].update(from as int, weight),
                ),
                ..old(self)@
            }),
            net.well_formed(),
            *final(self) == *final(net),
    {
        proof {
            assert(old(self)@.weights[to as int].len() == old(self)@.count);
        }
        self.weights[to][from] = weight;
        proof {
            let expected = old(self)@.weights.update(
                to as int,
                old(self)@.weights[to as int].update(from as int, weight),
            );
            assert(self@.weights =~= expected);
            assert forall|i: int| 0 <= i < self@.count implies (#[trigger] self@.weights[i]).len()
                == self@.count by {
                assert(old(self)@.weights[i].len() == self@.count);
            }
        }
        self
    }

    /// Adjust the bias `theta` for a given neuron
    /// > Can be thought of as how stimulated a neuron must be to activate
    pub fn set_bias(&mut self, node: usize, bias: Fixed) -> (net: &mut Self)
        requires
            old(self).well_formed(),
            node < old(self)@.count,
        ensures
            net@ == (Circuit {
                nodes: old(self)@.nodes.update(
                    node as int,
                    Node { bias, ..old(self)@.nodes[node as int] },
                ),
                ..old(self)@
            }),
            net.well_formed(),
            *final(self) == *final(net),
    {
        self.nodes[node].bias = bias;
        proof {
            assert(self@.weights =~= old(self)@.weights);
        }
        self
    }

    /// Adjust the time constant `tau` for a given neuron
    /// > Can be thought of as the neuron's excitatory component
    pub fn set_time_constant(&mut self, node: usize, dt: Fixed) -> (net: &mut Self)
        requires
            old(self).well_formed(),
            node < old(self)@.count,
        ensures
            net@ == (Circuit {
                nodes: old(self)@.nodes.update(
                    node as int,
                    Node { time_constant: dt, ..old(self)@.nodes[node as int] },
                ),
                ..old(self)@
            }),
            net.well_formed(),
            *final(self) == *final(net),
    {
        self.nodes[node].time_constant = dt;
        proof {
            assert(self@.weights =~= old(self)@.weights);
        }
        self
    }

    /// Execute a single calculation cycle. A neuron that has an entry in
    /// `inputs` takes it as its state; every other neuron integrates its
    /// state over the time step `dt`, from the states before the cycle.
    ///
    /// If one of the neurons to integrate has a time constant of zero, the
    /// cycle is singular: nothing changes and `None` is returned.
    pub fn tick(&mut self, inputs: Vec<Fixed>, dt: Fixed) -> (net: Option<&mut Self>)
        requires
            old(self).well_formed(),
        ensures
            net.is_some() <==> old(self)@.regular(inputs@),
            net.is_some() ==> net.unwrap()@ == old(self)@.ticked(inputs@, dt)
                && net.unwrap().well_formed() && *final(self) == *final(net.unwrap()),
            net.is_none() ==> *final(self) == *old(self),
    {
        let mut states: Vec<Fixed> = Vec::new();
        for i in 0..self.count
            invariant
                *self == *old(self),
                self.well_formed(),
                states@.len() == i,
                forall|k: int|
                    inputs@.len() <= k < i ==> (#[trigger] self@.nodes[k]).time_constant.raw != 0,
                forall|k: int|
                    0 <= k < i ==> Some(#[trigger] states@[k]) == self@.next_state(inputs@, dt, k),
        {
            if i < inputs.len() {
                states.push(inputs[i])
            } else {
                match self.get_delta(i) {
                    Some(delta) => {
                        states.push(self.states[i].saturating_add(delta.saturating_mul(dt)));
                    },
                    None => {
                        assert(self@.nodes[i as int].time_constant.raw == 0);
                        return None;
                    },
                }
            }
        }
        self.states.clear();
        self.states.append(&mut states);
        proof {
            assert(self@.weights =~= old(self)@.weights);
            assert(self@.states =~= old(self)@.ticked(inputs@, dt).states);
        }
        Some(self)
    }

    /// The number of neurons.
    pub fn count(&self) -> (count: usize)
        ensures
            count == self@.count,
    {
        self.count
    }

    /// The parameters of every neuron.
    pub fn nodes(&self) -> (nodes: &Vec<Node>)
        ensures
            nodes@ == self@.nodes,
    {
        &self.nodes
    }

    /// The weights, one row per receiving neuron.
    pub fn weights(&self) -> (weights: &Vec<Vec<Fixed>>)
        ensures
            weights@.len() == self@.weights.len(),
            forall|i: int| 0 <= i < weights@.len() ==> (#[trigger] weights@[i])@ == self@.weights[i],
    {
        &self.weights
    }

    /// The state of every neuron.
    pub fn states(&self) -> (states: &Vec<Fixed>)
        ensures
            states@ == self@.states,
    {
        &self.states
    }

    /// The rate of change of the state of neuron `index`, if its time
    /// constant is not zero.
    fn get_delta(&self, index: usize) -> (delta: Option<Fixed>)
        requires
            self.well_formed(),
            index < self@.count,
        ensures
            delta == self@.delta(index as int),
            delta.is_none() <==> self@.nodes[index as int].time_constant.raw == 0,
    {
        proof {
            assert(self@.weights[index as int].len() == self@.count);
        }
        let weights = &self.weights[index];
        let mut sum = Fixed { raw: 0 };
        for j in 0..self.count
            invariant
                self.well_formed(),
                index < self@.count,
                weights@ == self@.weights[index as int],
                sum == self@.excitation(index as int, j as nat),
        {
            sum = sum.saturating_add(weights[j].saturating_mul(self.states[j]));
        }
        let lhs = sigmoid(sum.saturating_sub(self.nodes[index].bias)).saturating_sub(
            self.states[index],
        );
        lhs.checked_div(self.nodes[index].time_constant)
    }
}

} // verus!

