//! A continuous-time recurrent neural network whose parameters adapt.
//!
//! Every bias, time constant and connection weight of an [`RLCTRNN`] is a
//! [`Fluctuator`]. The network itself only reads them: one call of
//! [`RLCTRNN::update`] integrates the neuron voltages over one time step.
use vstd::prelude::*;
use crate::activation::{logistic, sigmoid};
use crate::fixed::{Fixed, SCALE};
use crate::fluctuator::{lemma_still_parameter_reads_center, Fluctuator};

verus! {

/// The parameters of a network of `count` neurons, as mathematical
/// sequences. `weights[i][j]` is the weight of the connection from neuron `j`
/// to neuron `i`.
pub struct Parameters {
    pub count: nat,
    pub biases: Seq<Fluctuator>,
    pub time_constants: Seq<Fluctuator>,
    pub weights: Seq<Seq<Fluctuator>>,
}

/// The entry of `inputs` for neuron `i`; a missing entry counts as zero.
pub open spec fn input_at(inputs: Seq<Fixed>, i: int) -> Fixed {
    if 0 <= i < inputs.len() {
        inputs[i]
    } else {
        Fixed { raw: 0 }
    }
}

impl Parameters {
    /// There is one bias and one time constant per neuron, the weights form
    /// a square matrix, and every parameter is valid.
    pub open spec fn well_formed(self) -> bool {
        &&& self.biases.len() == self.count
        &&& self.time_constants.len() == self.count
        &&& self.weights.len() == self.count
        &&& forall|i: int| 0 <= i < self.count ==> (#[trigger] self.weights[i]).len() == self.count
        &&& forall|i: int| 0 <= i < self.count ==> (#[trigger] self.biases[i]).valid()
        &&& forall|i: int| 0 <= i < self.count ==> (#[trigger] self.time_constants[i]).valid()
        &&& forall|i: int, j: int|
            0 <= i < self.count && 0 <= j < self.count ==> (#[trigger] self.weights[i][j]).valid()
    }

    /// The parameters of a newly built network: biases and weights centered
    /// at zero, time constants centered at one.
    pub open spec fn fresh(count: nat) -> Parameters {
        Parameters {
            count,
            biases: Seq::new(count, |i: int| Fluctuator::initial(Fixed { raw: 0 })),
            time_constants: Seq::new(count, |i: int| Fluctuator::initial(Fixed { raw: SCALE })),
            weights: Seq::new(
                count,
                |i: int| Seq::new(count, |j: int| Fluctuator::initial(Fixed { raw: 0 })),
            ),
        }
    }

    /// The output of neuron `j`: the logistic curve of its voltage plus its
    /// bias.
    pub open spec fn output(self, voltages: Seq<Fixed>, j: int) -> Fixed {
        Fixed { raw: logistic(voltages[j].sum(self.biases[j].value()).raw as int) as i64 }
    }

    /// What the first `upto` neurons feed into neuron `i`: the sum of their
    /// outputs, each weighted by its connection to `i`, added up in the order
    /// of the neurons.
    pub open spec fn drive(self, voltages: Seq<Fixed>, i: int, upto: nat) -> Fixed
        decreases upto,
    {
        if upto == 0 {
            Fixed { raw: 0 }
        } else {
            let j = upto - 1;
            self.drive(voltages, i, j as nat).sum(
                self.weights[i][j].value().product(self.output(voltages, j)),
            )
        }
    }

    /// The rate at which the voltage of neuron `i` changes: the distance
    /// from its voltage to what the network feeds into it, over its time
    /// constant. Where the time constant reads zero the rate is singular,
    /// and there is none.
    pub open spec fn delta(self, voltages: Seq<Fixed>, i: int) -> Option<Fixed> {
        self.drive(voltages, i, self.count).difference(voltages[i]).ratio(
            self.time_constants[i].value(),
        )
    }

    /// The voltage of neuron `i` one time step later:
    /// `voltage + delta * dt + input`, where there is a `delta`.
    pub open spec fn next_voltage(
        self,
        dt: Fixed,
        voltages: Seq<Fixed>,
        inputs: Seq<Fixed>,
        i: int,
    ) -> Option<Fixed> {
        match self.delta(voltages, i) {
            Some(delta) => Some(voltages[i].sum(delta.product(dt)).sum(input_at(inputs, i))),
            None => None,
        }
    }

    /// No time constant reads zero, so every neuron can be integrated.
    pub open spec fn regular(self) -> bool {
        forall|i: int| 0 <= i < self.count ==> (#[trigger] self.time_constants[i]).value().raw != 0
    }
}

/// Why an integration step was refused.
#[derive(Clone, Copy, Debug, PartialEq, Eq, Structural)]
pub enum StepError {
    /// There is not exactly one voltage per neuron.
    Dimension,
    /// A time constant reads zero, which makes the step singular.
    Singular,
}

/// A network of leaky-integrator neurons with adaptive parameters.
pub struct RLCTRNN {
    count: usize,
    biases: Vec<Fluctuator>,
    time_constants: Vec<Fluctuator>,
    weights: Vec<Vec<Fluctuator>>,
}

impl View for RLCTRNN {
    type V = Parameters;

    closed spec fn view(&self) -> Parameters {
        Parameters {
            count: self.count as nat,
            biases: self.biases@,
            time_constants: self.time_constants@,
            weights: Seq::new(self.weights@.len(), |i: int| self.weights@[i]@),
        }
    }
}

impl RLCTRNN {
    /// The network's parameters are well formed.
    pub open spec fn well_formed(&self) -> bool {
        self@.well_formed()
    }

    /// Create a new RLCTRNN instance with the specified amount of nodes. The
    /// network is fully connected; every weight and bias starts at zero and
    /// every time constant at one.
    pub fn new(nodes: usize) -> (net: Self)
        ensures
            net@ == Parameters::fresh(nodes as nat),
            net.well_formed(),
    {
        let mut ctrnn = Self {
            count: nodes,
            biases: Vec::new(),
            time_constants: Vec::new(),
            weights: Vec::new(),
        };

        for i in 0..nodes
            invariant
                ctrnn.count == nodes,
                ctrnn.biases@ =~= Seq::new(i as nat, |k: int| Fluctuator::initial(Fixed { raw: 0 })),
                ctrnn.time_constants@ =~= Seq::new(
                    i as nat,
                    |k: int| Fluctuator::initial(Fixed { raw: SCALE }),
                ),
                ctrnn.weights@.len() == i,
                forall|k: int|
                    0 <= k < i ==> (#[trigger] ctrnn.weights@[k])@ =~= Seq::new(
                        nodes as nat,
                        |j: int| Fluctuator::initial(Fixed { raw: 0 }),
                    ),
        {
            ctrnn.biases.push(Fluctuator::from(Fixed { raw: 0 }));
            ctrnn.time_constants.push(Fluctuator::from(Fixed { raw: SCALE }));
            let mut weights: Vec<Fluctuator> = Vec::new();
            for j in 0..nodes
                invariant
                    weights@ =~= Seq::new(j as nat, |k: int| Fluctuator::initial(Fixed { raw: 0 })),
            {
                weights.push(Fluctuator::from(Fixed { raw: 0 }));
            }
            ctrnn.weights.push(weights);
        }

        proof {
            let fresh = Parameters::fresh(nodes as nat);
            assert(ctrnn@.weights =~= fresh.weights);
            assert(Fluctuator::initial(Fixed { raw: 0 }).valid());
            assert(Fluctuator::initial(Fixed { raw: SCALE }).valid());
        }
        ctrnn
    }

    /// Adjust the bias `theta` for a given neuron: its center is overwritten
    /// and its oscillation is left as it is.
    /// > Can be thought of as how stimulated a neuron must be to activate
    pub fn set_bias(&mut self, index: usize, value: Fixed) -> (net: &mut Self)
        requires
            old(self).well_formed(),
            index < old(self)@.count,
        ensures
            net@ == (Parameters {
                biases: old(self)@.biases.update(
                    index as int,
                    Fluctuator { center: value, ..old(self)@.biases[index as int] },
                ),
                ..old(self)@
            }),
            net.well_formed(),
            *final(self) == *final(net),
    {
        self.biases[index].center = value;
        proof {
            assert(self@.weights =~= old(self)@.weights);
        }
        self
    }

    /// Adjust the time constant `tau` for a given neuron: its center is
    /// overwritten and its oscillation is left as it is.
    /// > Can be thought of as the neuron's excitatory component
    pub fn set_time_constant(&mut self, index: usize, value: Fixed) -> (net: &mut Self)
        requires
            old(self).well_formed(),
            index < old(self)@.count,
        ensures
            net@ == (Parameters {
                time_constants: old(self)@.time_constants.update(
                    index as int,
                    Fluctuator { center: value, ..old(self)@.time_constants[index as int] },
                ),
                ..old(self)@
            }),
            net.well_formed(),
            *final(self) == *final(net),
    {
        self.time_constants[index].center = value;
        proof {
            assert(self@.weights =~= old(self)@.weights);
        }
        self
    }

    /// Set an individual weight within the network: the center of the
    /// connection from node `from` to node `to` is overwritten and its
    /// oscillation is left as it is.
    /// > By default all weights are initialized to zero
    pub fn set_weight(&mut self, from: usize, to: usize, value: Fixed) -> (net: &mut Self)
        requires
            old(self).well_formed(),
            from < old(self)@.count,
            to < old(self)@.count,
        ensures
            net@ == (Parameters {
                weights: old(self)@.weights.update(
                    to as int,
                    old(self)@.weights[to as int].update(
                        from as int,
                        Fluctuator {
                            center: value,
                            ..old(self)@.weights[to as int][from as int]
                        },
                    ),
                ),
                ..old(self)@
            }),
            net.well_formed(),
            *final(self) == *final(net),
    {
        proof {
            assert(old(self)@.weights[to as int].len() == old(self)@.count);
        }
        self.weights[to][from].center = value;
        proof {
            let row = old(self)@.weights[to as int];
            let expected = old(self)@.weights.update(
                to as int,
                row.update(from as int, Fluctuator { center: value, ..row[from as int] }),
            );
            assert(self@.weights =~= expected);
            assert forall|i: int, j: int| 0 <= i < self@.count && 0 <= j < self@.count implies (
            #[trigger] self@.weights[i][j]).valid() by {
                assert(old(self)@.weights[i][j].valid());
            }
            assert forall|i: int| 0 <= i < self@.count implies (#[trigger] self@.weights[i]).len()
                == self@.count by {
                assert(old(self)@.weights[i].len() == self@.count);
            }
        }
        self
    }

    /// Executes a single integration step of length `dt` and returns the
    /// next voltage of every neuron. An entry that `inputs` lacks counts as
    /// zero. Every next voltage is computed from the voltages that were
    /// passed in, and no parameter changes.
    ///
    /// A time constant that reads zero makes the step singular: then no
    /// voltage is returned at all.
    pub fn update(&mut self, dt: Fixed, voltages: Vec<Fixed>, inputs: Vec<Fixed>) -> (next: Option<
        Vec<Fixed>,
    >)
        requires
            old(self).well_formed(),
            voltages@.len() == old(self)@.count,
        ensures
            *final(self) == *old(self),
            next.is_some() <==> old(self)@.regular(),
            next.is_some() ==> next.unwrap()@.len() == old(self)@.count && forall|i: int|
                0 <= i < old(self)@.count ==> Some(#[trigger] next.unwrap()@[i]) == old(self)@.next_voltage(dt, voltages@, inputs@, i),
    {
        let mut next: Vec<Fixed> = Vec::new();
        for i in 0..self.count
            invariant
                *self == *old(self),
                self.well_formed(),
                voltages@.len() == self@.count,
                next@.len() == i,
                forall|k: int| 0 <= k < i ==> (#[trigger] self@.time_constants[k]).value().raw != 0,
                forall|k: int|
                    0 <= k < i ==> Some(#[trigger] next@[k]) == self@.next_voltage(
                        dt,
                        voltages@,
                        inputs@,
                        k,
                    ),
        {
            let input = if i < inputs.len() {
                inputs[i]
            } else {
                Fixed { raw: 0 }
            };
            match self.get_delta(&voltages, i) {
                Some(delta) => {
                    next.push(
                        voltages[i].saturating_add(delta.saturating_mul(dt)).saturating_add(input),
                    );
                },
                None => {
                    assert(self@.time_constants[i as int].value().raw == 0);
                    return None;
                },
            }
        }
        Some(next)
    }

    /// Executes a single integration step like [`RLCTRNN::update`], for a
    /// caller that has not established the dimension of `voltages`: the step
    /// is refused unless there is exactly one voltage per neuron, whatever
    /// the number of voltages, and nothing is cut off or filled in.
    pub fn try_update(&mut self, dt: Fixed, voltages: Vec<Fixed>, inputs: Vec<Fixed>) -> (next:
        Result<Vec<Fixed>, StepError>)
        requires
            old(self).well_formed(),
        ensures
            *final(self) == *old(self),
            voltages@.len() != old(self)@.count <==> next == Err::<Vec<Fixed>, StepError>(
                StepError::Dimension,
            ),
            voltages@.len() == old(self)@.count && !old(self)@.regular() <==> next == Err::<
                Vec<Fixed>,
                StepError,
            >(StepError::Singular),
            next.is_ok() ==> next.unwrap()@.len() == old(self)@.count && forall|i: int|
                0 <= i < old(self)@.count ==> Some(#[trigger] next.unwrap()@[i]) == old(self)@.next_voltage(dt, voltages@, inputs@, i),
    {
        if voltages.len() != self.count {
            return Err(StepError::Dimension);
        }
        match self.update(dt, voltages, inputs) {
            Some(next) => Ok(next),
            None => Err(StepError::Singular),
        }
    }

    /// The output of every neuron: the logistic curve of its voltage plus
    /// its bias.
    pub fn get_outputs(&self, voltages: &Vec<Fixed>) -> (outputs: Vec<Fixed>)
        requires
            self.well_formed(),
            voltages@.len() == self@.count,
        ensures
            outputs@.len() == self@.count,
            forall|i: int|
                0 <= i < self@.count ==> #[trigger] outputs@[i] == self@.output(voltages@, i),
            forall|i: int| 0 <= i < self@.count ==> 0 <= (#[trigger] outputs@[i]).raw <= SCALE,
    {
        let mut outputs: Vec<Fixed> = Vec::new();
        for i in 0..self.count
            invariant
                self.well_formed(),
                voltages@.len() == self@.count,
                outputs@.len() == i,
                forall|k: int|
                    0 <= k < i ==> #[trigger] outputs@[k] == self@.output(voltages@, k),
                forall|k: int| 0 <= k < i ==> 0 <= (#[trigger] outputs@[k]).raw <= SCALE,
        {
            outputs.push(sigmoid(voltages[i].saturating_add(self.biases[i].get())));
        }
        outputs
    }

    /// The canonical starting state: a voltage of zero for every neuron.
    pub fn init_voltage(&self) -> (voltages: Vec<Fixed>)
        ensures
            voltages@ == Seq::new(self@.count, |i: int| Fixed { raw: 0 }),
    {
        let mut voltages: Vec<Fixed> = Vec::new();
        for i in 0..self.count
            invariant
                voltages@ =~= Seq::new(i as nat, |k: int| Fixed { raw: 0 }),
        {
            voltages.push(Fixed { raw: 0 });
        }
        voltages
    }

    /// The number of neurons.
    pub fn count(&self) -> (count: usize)
        ensures
            count == self@.count,
    {
        self.count
    }

    /// The bias of every neuron.
    pub fn biases(&self) -> (biases: &Vec<Fluctuator>)
        ensures
            biases@ == self@.biases,
    {
        &self.biases
    }

    /// The time constant of every neuron.
    pub fn time_constants(&self) -> (time_constants: &Vec<Fluctuator>)
        ensures
            time_constants@ == self@.time_constants,
    {
        &self.time_constants
    }

    /// The weights, one row per receiving neuron.
    pub fn weights(&self) -> (weights: &Vec<Vec<Fluctuator>>)
        ensures
            weights@.len() == self@.weights.len(),
            forall|i: int| 0 <= i < weights@.len() ==> (#[trigger] weights@[i])@ == self@.weights[i],
    {
        &self.weights
    }

    /// The rate of change of the voltage of neuron `index`, if its time
    /// constant does not read zero.
    fn get_delta(&self, voltages: &Vec<Fixed>, index: usize) -> (delta: Option<Fixed>)
        requires
            self.well_formed(),
            voltages@.len() == self@.count,
            index < self@.count,
        ensures
            delta == self@.delta(voltages@, index as int),
            delta.is_none() <==> self@.time_constants[index as int].value().raw == 0,
    {
        proof {
            assert(self@.weights[index as int].len() == self@.count);
        }
        let weights = &self.weights[index];
        let mut sum = Fixed { raw: 0 };
        for j in 0..self.count
            invariant
                self.well_formed(),
                voltages@.len() == self@.count,
                index < self@.count,
                weights@ == self@.weights[index as int],
                sum == self@.drive(voltages@, index as int, j as nat),
        {
            proof {
                assert(self@.weights[index as int][j as int].valid());
                assert(self@.biases[j as int].valid());
            }
            let activation = sigmoid(voltages[j].saturating_add(self.biases[j].get()));
            sum = sum.saturating_add(weights[j].get().saturating_mul(activation));
        }
        proof {
            assert(self@.time_constants[index as int].valid());
        }
        sum.saturating_sub(voltages[index]).checked_div(self.time_constants[index].get())
    }
}

/// Neurons whose connections to neuron `i` all read zero feed nothing into
/// it.
pub proof fn lemma_silent_connections_feed_nothing(
    p: Parameters,
    voltages: Seq<Fixed>,
    i: int,
    upto: nat,
)
    requires
        forall|j: int| 0 <= j < upto ==> (#[trigger] p.weights[i][j]).value().raw == 0,
    ensures
        p.drive(voltages, i, upto).raw == 0,
    decreases upto,
{
    if upto > 0 {
        let j = upto - 1;
        lemma_silent_connections_feed_nothing(p, voltages, i, j as nat);
        assert(p.weights[i][j].value().raw == 0);
        assert(0 * p.output(voltages, j).raw == 0);
    }
}

/// A neuron at zero voltage that is fed nothing, neither by the network nor
/// from outside, stays at zero, whatever the time step and its bias, as long
/// as its time constant does not read zero.
pub proof fn lemma_silent_neuron_stays_at_rest(
    p: Parameters,
    dt: Fixed,
    voltages: Seq<Fixed>,
    inputs: Seq<Fixed>,
    i: int,
)
    requires
        forall|j: int| 0 <= j < p.count ==> (#[trigger] p.weights[i][j]).value().raw == 0,
        p.time_constants[i].value().raw != 0,
        voltages[i].raw == 0,
        input_at(inputs, i).raw == 0,
    ensures
        p.next_voltage(dt, voltages, inputs, i) == Some(voltages[i]),
{
    lemma_silent_connections_feed_nothing(p, voltages, i, p.count);
    let tau = p.time_constants[i].value().raw as int;
    assert(0int / tau == 0) by (nonlinear_arith)
        requires
            tau != 0,
    ;
    assert(0 * SCALE == 0);
    assert(p.delta(voltages, i) == Some(Fixed { raw: 0 }));
    assert(0 * dt.raw == 0);
}

/// A network whose weights all read zero stays at rest: with every voltage
/// at zero and every input zero or missing, one integration step gives back
/// the voltages it was given.
pub proof fn lemma_silent_network_stays_at_rest(
    p: Parameters,
    dt: Fixed,
    voltages: Seq<Fixed>,
    inputs: Seq<Fixed>,
)
    requires
        voltages.len() == p.count,
        p.regular(),
        forall|i: int, j: int|
            0 <= i < p.count && 0 <= j < p.count ==> (#[trigger] p.weights[i][j]).value().raw
                == 0,
        forall|i: int| 0 <= i < p.count ==> (#[trigger] voltages[i]).raw == 0,
        forall|i: int| 0 <= i < inputs.len() ==> (#[trigger] inputs[i]).raw == 0,
    ensures
        forall|i: int|
            0 <= i < p.count ==> #[trigger] p.next_voltage(dt, voltages, inputs, i) == Some(
                voltages[i],
            ),
{
    assert forall|i: int| 0 <= i < p.count implies #[trigger] p.next_voltage(
        dt,
        voltages,
        inputs,
        i,
    ) == Some(voltages[i]) by {
        assert(voltages[i].raw == 0);
        assert(p.time_constants[i].value().raw != 0);
        lemma_silent_neuron_stays_at_rest(p, dt, voltages, inputs, i);
    }
}

/// The state of rest is a fixed point: in a network whose weights are all
/// centered at zero and not displaced from there, and whose time constants
/// do not read zero, with every voltage at zero and every input zero or
/// missing, one integration step gives back the voltages it was given,
/// whatever the time step and the biases.
pub proof fn lemma_rest_is_a_fixed_point(
    p: Parameters,
    dt: Fixed,
    voltages: Seq<Fixed>,
    inputs: Seq<Fixed>,
)
    requires
        voltages.len() == p.count,
        p.regular(),
        forall|i: int, j: int|
            0 <= i < p.count && 0 <= j < p.count ==> (#[trigger] p.weights[i][j]).center.raw == 0
                && p.weights[i][j].displacement().raw == 0,
        forall|i: int| 0 <= i < p.count ==> (#[trigger] voltages[i]).raw == 0,
        forall|i: int| 0 <= i < inputs.len() ==> (#[trigger] inputs[i]).raw == 0,
    ensures
        forall|i: int|
            0 <= i < p.count ==> #[trigger] p.next_voltage(dt, voltages, inputs, i) == Some(
                voltages[i],
            ),
{
    assert forall|i: int, j: int| 0 <= i < p.count && 0 <= j < p.count implies (
    #[trigger] p.weights[i][j]).value().raw == 0 by {
        lemma_still_parameter_reads_center(p.weights[i][j]);
    }
    lemma_silent_network_stays_at_rest(p, dt, voltages, inputs);
}

/// In a newly built network every parameter reads as its center: zero for
/// the weights and the biases, one for the time constants.
pub proof fn lemma_fresh_parameters_read_their_centers(count: nat)
    ensures
        Parameters::fresh(count).well_formed(),
        Parameters::fresh(count).regular(),
        forall|i: int, j: int|
            0 <= i < count && 0 <= j < count ==> (#[trigger] Parameters::fresh(
                count,
            ).weights[i][j]).value().raw == 0,
        forall|i: int|
            0 <= i < count ==> (#[trigger] Parameters::fresh(count).biases[i]).value().raw == 0,
        forall|i: int|
            0 <= i < count ==> (#[trigger] Parameters::fresh(count).time_constants[i]).value().raw
                == SCALE,
{
    lemma_still_parameter_reads_center(Fluctuator::initial(Fixed { raw: 0 }));
    lemma_still_parameter_reads_center(Fluctuator::initial(Fixed { raw: SCALE }));
}

} // verus!
