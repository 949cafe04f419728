use vstd::prelude::*;
use crate::components::{Adder, Multiplier, UnitFault};
use crate::event::{binary, Evento};
use crate::fault::{embed_error, embed_spec, error_type_of, valid_error_code, ErrorType};
use crate::float::{Fpu, ZERO_BITS};
use crate::neuron::{
    fire_outcome, lif_after, lif_potential, membrane_fault, same_parameters, state_wf, stuck_spec, threshold_fault,
    LIFNeuron, LifState,
};

verus! {

/// A one-shot bit flip on a component of a layer, at one timestep.
///
/// Component codes: 0 threshold, 1 membrane potential, 2 an inbound weight of
/// the neuron, 3 an intra-layer weight of the neuron, 4 adder output, 5 adder
/// inputs, 6 multiplier output, 7 multiplier inputs.
#[derive(Clone, Copy, Debug)]
pub struct TransientError {
    /// The neuron whose component is hit.
    pub neuron: usize,
    /// The component code.
    pub component: i32,
    /// The flipped bit.
    pub position: u8,
    /// The timestep at which the flip happens.
    pub time: u64,
    /// For the input components (5 and 7), the fault codes of the two inputs.
    pub input_errors: (i32, i32),
    /// For the weight components (2 and 3), the column of the hit weight.
    pub weight_index: usize,
}

impl TransientError {
    pub fn new(
        neuron: usize,
        component: i32,
        position: u8,
        time: u64,
        input_errors: (i32, i32),
        weight_index: usize,
    ) -> (r: TransientError)
        ensures
            r == (TransientError { neuron, component, position, time, input_errors, weight_index }),
    {
        TransientError { neuron, component, position, time, input_errors, weight_index }
    }
}

/// The state of a [`Layer`]: its neurons, the weights from the previous layer
/// (`weights[i][k]` from input `k` to neuron `i`), the weights within the
/// layer (`intra_weights[i][j]` from neuron `j` to neuron `i`), the spikes of
/// the last timestep, and the pending transient fault.
pub struct LayerState {
    pub neurons: Seq<LifState>,
    pub weights: Seq<Seq<u64>>,
    pub intra_weights: Seq<Seq<u64>>,
    pub prev_output: Seq<u8>,
    pub error: Option<TransientError>,
}

/// A transient fault that names a neuron, a component and a weight cell of
/// the layer `s`.
pub open spec fn transient_wf(s: LayerState, e: TransientError) -> bool {
    &&& e.neuron < s.neurons.len()
    &&& 0 <= e.component <= 7
    &&& e.position < 64
    &&& valid_error_code(e.input_errors.0 as int)
    &&& valid_error_code(e.input_errors.1 as int)
    &&& e.component == 2 ==> e.weight_index < s.weights[e.neuron as int].len()
    &&& e.component == 3 ==> e.weight_index < s.intra_weights[e.neuron as int].len()
}

/// One row of weights per neuron, a square intra-layer matrix, one previous
/// spike per neuron, and a transient fault, if any, that fits the layer.
pub open spec fn layer_wf(s: LayerState) -> bool {
    let n = s.neurons.len();
    &&& s.weights.len() == n
    &&& s.intra_weights.len() == n
    &&& s.prev_output.len() == n
    &&& forall|i: int| 0 <= i < n ==> state_wf(#[trigger] s.neurons[i])
    &&& forall|i: int| 0 <= i < n ==> #[trigger] s.intra_weights[i].len() == n
    &&& binary(s.prev_output)
    &&& s.error matches Some(e) ==> transient_wf(s, e)
}

/// Every row of inbound weights has one weight per input of width `width`.
pub open spec fn inbound_width(s: LayerState, width: nat) -> bool {
    forall|i: int| 0 <= i < s.weights.len() ==> #[trigger] s.weights[i].len() == width
}

/// The layer `s` after its transient fault, if it strikes a stored value at
/// timestep `t`: the threshold, the membrane potential or a weight gets its bit
/// flipped. Faults on the arithmetic units leave the state as it is.
pub open spec fn after_transient(s: LayerState, t: u64) -> LayerState {
    match s.error {
        Some(e) => {
            let k = e.neuron as int;
            let n = s.neurons[k];
            if e.time != t {
                s
            } else if e.component == 0 {
                LayerState {
                    neurons: s.neurons.update(
                        k,
                        LifState { v_th: embed_spec(n.v_th, ErrorType::Flip, e.position), ..n },
                    ),
                    ..s
                }
            } else if e.component == 1 {
                LayerState {
                    neurons: s.neurons.update(
                        k,
                        LifState {
                            v_mem: stuck_spec(
                                embed_spec(n.v_mem, ErrorType::Flip, e.position),
                                n.membrane_error,
                            ),
                            ..n
                        },
                    ),
                    ..s
                }
            } else if e.component == 2 {
                LayerState {
                    weights: s.weights.update(
                        k,
                        s.weights[k].update(
                            e.weight_index as int,
                            embed_spec(s.weights[k][e.weight_index as int], ErrorType::Flip, e.position),
                        ),
                    ),
                    ..s
                }
            } else if e.component == 3 {
                LayerState {
                    intra_weights: s.intra_weights.update(
                        k,
                        s.intra_weights[k].update(
                            e.weight_index as int,
                            embed_spec(
                                s.intra_weights[k][e.weight_index as int],
                                ErrorType::Flip,
                                e.position,
                            ),
                        ),
                    ),
                    ..s
                }
            } else {
                s
            }
        },
        None => s,
    }
}

/// The weights of `row` whose spike in `spikes` is not 0, in order, leaving out
/// column `skip`.
pub open spec fn active_weights(row: Seq<u64>, spikes: Seq<u8>, skip: int) -> Seq<u64>
    decreases row.len(),
{
    if row.len() == 0 {
        seq![]
    } else {
        let k = row.len() - 1;
        let prefix = active_weights(row.drop_last(), spikes, skip);
        if k != skip && spikes[k] != 0 {
            prefix.push(row[k])
        } else {
            prefix
        }
    }
}

/// The configurations of the adder and the multiplier that the layer `s`
/// computes with at timestep `t`, given those of its units `a` and `m`: a
/// transient fault on a unit that is due at `t` puts a flip on that unit's
/// output or inputs for this timestep; otherwise the units are as given.
pub open spec fn units_at(s: LayerState, t: u64, a: UnitFault, m: UnitFault) -> (UnitFault, UnitFault) {
    match s.error {
        Some(e) => if e.time == t && 4 <= e.component <= 7 {
            let on_output = UnitFault { error: ErrorType::Flip, position: e.position, input: None };
            let on_inputs = UnitFault {
                error: ErrorType::NoFault,
                position: e.position,
                input: Some(
                    (error_type_of(e.input_errors.0 as int), error_type_of(e.input_errors.1 as int)),
                ),
            };
            if e.component == 4 {
                (on_output, m)
            } else if e.component == 5 {
                (on_inputs, m)
            } else if e.component == 6 {
                (a, on_output)
            } else {
                (a, on_inputs)
            }
        } else {
            (a, m)
        },
        None => (a, m),
    }
}

/// The potential that neuron `j` of the layer `s` computes at timestep `t`
/// with the units `units`: the sum over its inbound weights whose input spiked
/// in `spikes`, and the sum over its intra-layer weights from the other
/// neurons that spiked at the previous timestep, both from +0.0 in index
/// order, go into [`lif_potential`].
pub open spec fn step_potential<F: Fpu>(
    fpu: F,
    s: LayerState,
    j: int,
    spikes: Seq<u8>,
    t: u64,
    units: (UnitFault, UnitFault),
) -> u64 {
    let extra = sum_spec(fpu, active_weights(s.weights[j], spikes, -1));
    let intra = sum_spec(fpu, active_weights(s.intra_weights[j], s.prev_output, j));
    lif_potential(fpu, s.neurons[j], t, intra, extra, units.0, units.1)
}

/// The layer `s` after processing the spikes `spikes` of timestep `t` with
/// units configured as `a` and `m`, and the spikes it emits: the transient
/// fault, if due, strikes first (see [`after_transient`] and [`units_at`]);
/// then every neuron steps with the potential of [`step_potential`], and the
/// emitted spikes become the previous output.
pub open spec fn layer_step<F: Fpu>(
    fpu: F,
    s: LayerState,
    spikes: Seq<u8>,
    t: u64,
    a: UnitFault,
    m: UnitFault,
) -> (LayerState, Seq<u8>) {
    let mid = after_transient(s, t);
    let units = units_at(s, t, a, m);
    let n = mid.neurons.len();
    let out = Seq::new(n, |j: int| fire_outcome(mid.neurons[j], step_potential(fpu, mid, j, spikes, t, units)).0);
    let neurons = Seq::new(
        n,
        |j: int| lif_after(mid.neurons[j], t, step_potential(fpu, mid, j, spikes, t, units)),
    );
    (LayerState { neurons, prev_output: out, ..mid }, out)
}

/// Neuron state `after` is `before` advanced by one timestep `t` that
/// produced `spike`: the parameters stay, `t_s` becomes `t`, and the spike and
/// the new potential are those of [`fire_outcome`] for some potential
/// computed by the datapath.
pub open spec fn neuron_stepped(before: LifState, after: LifState, spike: u8, t: u64) -> bool {
    &&& state_wf(after)
    &&& same_parameters(after, before)
    &&& after.t_s == t
    &&& exists|p: u64| #[trigger] fire_outcome(before, p) == (spike, after.v_mem)
}

/// Layer state `after` is `before` advanced by one timestep `t` that emitted
/// `spikes`: weights and pending fault stay, every neuron steps (see
/// [`neuron_stepped`]), and the spikes become the previous output.
pub open spec fn stepped(before: LayerState, after: LayerState, spikes: Seq<u8>, t: u64) -> bool {
    &&& after.weights == before.weights
    &&& after.intra_weights == before.intra_weights
    &&& after.error == before.error
    &&& after.neurons.len() == before.neurons.len()
    &&& spikes.len() == before.neurons.len()
    &&& after.prev_output == spikes
    &&& binary(spikes)
    &&& forall|j: int| 0 <= j < before.neurons.len() ==> neuron_stepped(
        before.neurons[j],
        #[trigger] after.neurons[j],
        spikes[j],
        t,
    )
}

/// One layer of the network.
pub struct Layer {
    neurons: Vec<LIFNeuron>,
    weights: Vec<Vec<u64>>,
    intra_weights: Vec<Vec<u64>>,
    prev_output: Vec<u8>,
    error: Option<TransientError>,
}

impl View for Layer {
    type V = LayerState;

    closed spec fn view(&self) -> LayerState {
        LayerState {
            neurons: self.neurons@.map_values(|n: LIFNeuron| n@),
            weights: self.weights@.map_values(|r: Vec<u64>| r@),
            intra_weights: self.intra_weights@.map_values(|r: Vec<u64>| r@),
            prev_output: self.prev_output@,
            error: self.error,
        }
    }
}

impl Layer {
    pub fn neurons(&self) -> (r: &Vec<LIFNeuron>)
        ensures
            r@.map_values(|n: LIFNeuron| n@) == self@.neurons,
    {
        &self.neurons
    }

    pub fn weights(&self) -> (r: &Vec<Vec<u64>>)
        ensures
            r@.map_values(|w: Vec<u64>| w@) == self@.weights,
    {
        &self.weights
    }

    pub fn intra_weights(&self) -> (r: &Vec<Vec<u64>>)
        ensures
            r@.map_values(|w: Vec<u64>| w@) == self@.intra_weights,
    {
        &self.intra_weights
    }

    /// The transient fault armed on the layer, if any.
    pub fn transient_error(&self) -> (r: Option<TransientError>)
        ensures
            r == self@.error,
    {
        self.error
    }

    pub fn prev_output(&self) -> (r: &Vec<u8>)
        ensures
            r@ == self@.prev_output,
    {
        &self.prev_output
    }

    /// A layer of `neurons` with inbound `weights` and `intra_weights`, no
    /// previous spikes and no transient fault.
    pub fn new(neurons: Vec<LIFNeuron>, weights: Vec<Vec<u64>>, intra_weights: Vec<Vec<u64>>) -> (r:
        Layer)
        requires
            weights@.len() == neurons@.len(),
            intra_weights@.len() == neurons@.len(),
            forall|i: int| 0 <= i < neurons@.len() ==> (#[trigger] neurons@[i]).wf(),
            forall|i: int| 0 <= i < neurons@.len() ==> #[trigger] intra_weights@[i]@.len()
                == neurons@.len(),
        ensures
            layer_wf(r@),
            r@.neurons == neurons@.map_values(|n: LIFNeuron| n@),
            r@.weights == weights@.map_values(|w: Vec<u64>| w@),
            r@.intra_weights == intra_weights@.map_values(|w: Vec<u64>| w@),
            r@.prev_output == Seq::new(neurons@.len(), |i: int| 0u8),
            r@.error is None,
    {
        let len = neurons.len();
        let r = Layer { neurons, weights, intra_weights, prev_output: vec![0u8; len], error: None };
        assert(r@.prev_output =~= Seq::new(len as nat, |i: int| 0u8));
        assert forall|i: int| 0 <= i < r@.neurons.len() implies state_wf(#[trigger] r@.neurons[i]) by {
            assert(r.neurons@[i].wf());
        }
        assert forall|i: int| 0 <= i < r@.neurons.len() implies #[trigger] r@.intra_weights[i].len()
            == r@.neurons.len() by {
            assert(r.intra_weights@[i]@.len() == len);
        }
        r
    }

    /// Arms a transient bit flip on a component of the layer (see
    /// [`TransientError`]), replacing any earlier one.
    pub fn set_transient_error(
        &mut self,
        neuron: usize,
        component: i32,
        position: u8,
        time: u64,
        input_errors: (i32, i32),
        weight_index: usize,
    )
        requires
            layer_wf(old(self)@),
            transient_wf(
                old(self)@,
                TransientError { neuron, component, position, time, input_errors, weight_index },
            ),
        ensures
            layer_wf(final(self)@),
            final(self)@ == (LayerState {
                error: Some(
                    TransientError { neuron, component, position, time, input_errors, weight_index },
                ),
                ..old(self)@
            }),
    {
        self.error = Some(
            TransientError::new(neuron, component, position, time, input_errors, weight_index),
        );
    }

    /// Fires the transient fault if it is due at `current_instant`. A fault on a
    /// stored value is written into the layer (see [`after_transient`]); a fault
    /// on an arithmetic unit leaves the layer as it is and returns copies of the
    /// units with the fault, for this timestep alone.
    pub fn check_transient_error(&mut self, current_instant: u64, adder: Adder, mult: Multiplier) -> (r:
        Option<(Adder, Multiplier)>)
        requires
            layer_wf(old(self)@),
            adder.wf(),
            mult.wf(),
        ensures
            layer_wf(final(self)@),
            final(self)@ == after_transient(old(self)@, current_instant),
            match old(self)@.error {
                Some(e) => if e.time == current_instant && 4 <= e.component <= 7 {
                    r matches Some((a, m)) && a.wf() && m.wf() && (a.model(), m.model()) == units_at(
                        old(self)@,
                        current_instant,
                        adder.model(),
                        mult.model(),
                    )
                } else {
                    r is None
                },
                None => r is None,
            },
    {
        let e = match self.error {
            Some(e) => e,
            None => {
                return None;
            },
        };
        if e.time != current_instant {
            return None;
        }
        let ghost s0 = self@;
        let k = e.neuron;
        if e.component == 0 {
            let mut n = self.neurons[k];
            threshold_fault(&mut n, 2, e.position);
            self.neurons.set(k, n);
            proof { self.lemma_neurons_updated(s0, k as int); }
            None
        } else if e.component == 1 {
            let mut n = self.neurons[k];
            membrane_fault(&mut n, 2, e.position);
            self.neurons.set(k, n);
            proof { self.lemma_neurons_updated(s0, k as int); }
            None
        } else if e.component == 2 {
            let w = self.weights[k][e.weight_index];
            self.weights[k][e.weight_index] = embed_error(w, ErrorType::Flip, e.position);
            assert(self@.weights =~= after_transient(s0, current_instant).weights);
            assert(self@ == after_transient(s0, current_instant));
            None
        } else if e.component == 3 {
            let w = self.intra_weights[k][e.weight_index];
            self.intra_weights[k][e.weight_index] = embed_error(w, ErrorType::Flip, e.position);
            assert(self@.intra_weights =~= after_transient(s0, current_instant).intra_weights);
            assert(self@ == after_transient(s0, current_instant));
            None
        } else if e.component == 4 {
            let mut a = adder;
            a.set_params(2, e.position);
            Some((a, mult))
        } else if e.component == 5 {
            let mut a = adder;
            a.set_params_input(e.position, e.input_errors.0, e.input_errors.1);
            Some((a, mult))
        } else if e.component == 6 {
            let mut m = mult;
            m.set_params(2, e.position);
            Some((adder, m))
        } else {
            let mut m = mult;
            m.set_params_input(e.position, e.input_errors.0, e.input_errors.1);
            Some((adder, m))
        }
    }

    /// Processes the spikes of one timestep: fires the transient fault if it is
    /// due, then updates every neuron with the sum of its inbound weights over
    /// the active inputs and the sum of its intra-layer weights over the other
    /// neurons that spiked at the previous timestep, and returns the new spikes
    /// under the same timestamp. The spikes become the layer's previous output.
    pub fn process_event<F: Fpu>(&mut self, fpu: &F, adder: Adder, multiplier: Multiplier, input:
        &Evento) -> (out: Evento)
        requires
            layer_wf(old(self)@),
            inbound_width(old(self)@, input.spikes@.len()),
            adder.wf(),
            multiplier.wf(),
        ensures
            layer_wf(final(self)@),
            inbound_width(final(self)@, input.spikes@.len()),
            out.ts == input.ts,
            stepped(after_transient(old(self)@, input.ts), final(self)@, out.spikes@, input.ts),
            (final(self)@, out.spikes@) == layer_step(
                *fpu,
                old(self)@,
                input.spikes@,
                input.ts,
                adder.model(),
                multiplier.model(),
            ),
    {
        let ghost s0 = self@;
        let instant = input.ts;
        let (local_adder, local_mult) = match self.check_transient_error(instant, adder, multiplier) {
            Some((a, m)) => (a, m),
            None => (adder, multiplier),
        };
        let ghost mid = self@;
        let ghost units = units_at(s0, instant, adder.model(), multiplier.model());
        assert((local_adder.model(), local_mult.model()) == units);
        let ghost target = layer_step(*fpu, s0, input.spikes@, instant, adder.model(), multiplier.model());
        let n = self.neurons.len();
        let mut output_spikes: Vec<u8> = Vec::with_capacity(n);
        let mut i: usize = 0;
        while i < n
            invariant
                n == mid.neurons.len(),
                layer_wf(mid),
                inbound_width(mid, input.spikes@.len()),
                local_adder.wf(),
                local_mult.wf(),
                i <= n,
                self@.weights == mid.weights,
                self@.intra_weights == mid.intra_weights,
                self@.prev_output == mid.prev_output,
                self@.error == mid.error,
                self@.neurons.len() == n,
                output_spikes@.len() == i,
                binary(output_spikes@),
                forall|j: int| i <= j < n ==> self@.neurons[j] == mid.neurons[j],
                mid == after_transient(s0, instant),
                (local_adder.model(), local_mult.model()) == units,
                units == units_at(s0, instant, adder.model(), multiplier.model()),
                target == layer_step(*fpu, s0, input.spikes@, instant, adder.model(), multiplier.model()),
                forall|j: int| 0 <= j < i ==> #[trigger] self@.neurons[j] == target.0.neurons[j],
                forall|j: int| 0 <= j < i ==> #[trigger] output_spikes@[j] == target.1[j],
                forall|j: int| 0 <= j < i ==> neuron_stepped(
                    mid.neurons[j],
                    #[trigger] self@.neurons[j],
                    output_spikes@[j],
                    instant,
                ),
            decreases n - i,
        {
            assert(self.weights@[i as int]@ == mid.weights[i as int]);
            assert(self.intra_weights@[i as int]@ == mid.intra_weights[i as int]);
            let extra = select_active(&self.weights[i], &input.spikes, None);
            let intra = select_active(&self.intra_weights[i], &self.prev_output, Some(i));
            let extra_sum = sum_of(fpu, &extra);
            let intra_sum = sum_of(fpu, &intra);
            let mut neuron = self.neurons[i];
            assert(neuron@ == mid.neurons[i as int]);
            let spike = neuron.update_v_mem(fpu, instant, intra_sum, extra_sum, local_adder, local_mult);
            assert(intra_sum == sum_spec(*fpu, active_weights(mid.intra_weights[i as int], mid.prev_output, i as int)));
            assert(extra_sum == sum_spec(*fpu, active_weights(mid.weights[i as int], input.spikes@, -1)));
            let ghost before = self@;
            self.neurons.set(i, neuron);
            output_spikes.push(spike);
            proof {
                self.lemma_neuron_set(before, i as int);
                let p = choose|p: u64| #[trigger] fire_outcome(mid.neurons[i as int], p) == (spike, neuron@.v_mem);
                assert(fire_outcome(mid.neurons[i as int], p).0 <= 1);
                assert(neuron_stepped(mid.neurons[i as int], self@.neurons[i as int], spike, instant));
                assert forall|j: int| 0 <= j < i + 1 implies #[trigger] self@.neurons[j] == target.0.neurons[j]
                    && output_spikes@[j] == target.1[j] by {
                    if j < i {
                        assert(self@.neurons[j] == before.neurons[j]);
                    }
                }
                assert forall|j: int| 0 <= j < i + 1 implies neuron_stepped(
                    mid.neurons[j],
                    #[trigger] self@.neurons[j],
                    output_spikes@[j],
                    instant,
                ) by {
                    if j < i {
                        assert(self@.neurons[j] == before.neurons[j]);
                    }
                }
            }
            i = i + 1;
        }
        self.prev_output = output_spikes.clone();
        proof {
            assert(self@.prev_output == output_spikes@);
            assert(output_spikes@ =~= target.1);
            assert(self@.neurons =~= target.0.neurons);
            assert forall|j: int| 0 <= j < n implies state_wf(#[trigger] self@.neurons[j]) by {
                assert(neuron_stepped(mid.neurons[j], self@.neurons[j], output_spikes@[j], instant));
            }
        }
        Evento::new(instant, output_spikes)
    }

    /// Puts every neuron back at rest and forgets the previous spikes.
    pub fn init_layer(&mut self)
        requires
            layer_wf(old(self)@),
        ensures
            layer_wf(final(self)@),
            final(self)@.weights == old(self)@.weights,
            final(self)@.intra_weights == old(self)@.intra_weights,
            final(self)@.error == old(self)@.error,
            final(self)@.prev_output == Seq::new(old(self)@.neurons.len(), |i: int| 0u8),
            final(self)@.neurons.len() == old(self)@.neurons.len(),
            forall|i: int| 0 <= i < old(self)@.neurons.len() ==> #[trigger] final(self)@.neurons[i]
                == (LifState {
                    v_mem: old(self)@.neurons[i].v_rest,
                    t_s: 0,
                    membrane_error: None,
                    ..old(self)@.neurons[i]
                }),
    {
        let ghost s0 = self@;
        let n = self.neurons.len();
        self.prev_output = vec![0u8; n];
        let mut i: usize = 0;
        while i < n
            invariant
                n == s0.neurons.len(),
                layer_wf(s0),
                i <= n,
                self@.weights == s0.weights,
                self@.intra_weights == s0.intra_weights,
                self@.error == s0.error,
                self@.prev_output == Seq::new(n as nat, |k: int| 0u8),
                self@.neurons.len() == n,
                forall|j: int| i <= j < n ==> self@.neurons[j] == s0.neurons[j],
                forall|j: int| 0 <= j < i ==> #[trigger] self@.neurons[j] == (LifState {
                    v_mem: s0.neurons[j].v_rest,
                    t_s: 0,
                    membrane_error: None,
                    ..s0.neurons[j]
                }),
            decreases n - i,
        {
            let mut neuron = self.neurons[i];
            neuron.init_neuron();
            let ghost before = self@;
            self.neurons.set(i, neuron);
            proof { self.lemma_neuron_set(before, i as int); }
            i = i + 1;
        }
        proof {
            assert forall|j: int| 0 <= j < n implies state_wf(#[trigger] self@.neurons[j]) by {
                assert(self@.neurons[j].membrane_error is None);
            }
            assert(binary(self@.prev_output));
        }
    }

    /// What `self.neurons.set(k, _)` did to the view, starting from `before`.
    proof fn lemma_neuron_set(&self, before: LayerState, k: int)
        requires
            0 <= k < before.neurons.len(),
            self.neurons@.len() == before.neurons.len(),
            forall|j: int| 0 <= j < before.neurons.len() && j != k ==> #[trigger] self.neurons@[j]@
                == before.neurons[j],
        ensures
            self@.neurons.len() == before.neurons.len(),
            forall|j: int| 0 <= j < before.neurons.len() && j != k ==> #[trigger] self@.neurons[j]
                == before.neurons[j],
            self@.neurons[k] == self.neurons@[k]@,
    {
    }

    proof fn lemma_neurons_updated(&self, s0: LayerState, k: int)
        requires
            0 <= k < s0.neurons.len(),
            layer_wf(s0),
            self@.weights == s0.weights,
            self@.intra_weights == s0.intra_weights,
            self@.prev_output == s0.prev_output,
            self@.error == s0.error,
            self@.neurons.len() == s0.neurons.len(),
            forall|i: int| 0 <= i < s0.neurons.len() && i != k ==> self@.neurons[i] == s0.neurons[i],
            state_wf(self@.neurons[k]),
            self@.neurons[k].membrane_error == s0.neurons[k].membrane_error,
        ensures
            layer_wf(self@),
            self@ == (LayerState { neurons: s0.neurons.update(k, self@.neurons[k]), ..s0 }),
    {
        assert(self@.neurons =~= s0.neurons.update(k, self@.neurons[k]));
    }
}

/// The weights of `row` whose spike is not 0, leaving out column `skip`.
pub fn select_active(row: &Vec<u64>, spikes: &Vec<u8>, skip: Option<usize>) -> (r: Vec<u64>)
    requires
        spikes@.len() >= row@.len(),
    ensures
        r@ == active_weights(
            row@,
            spikes@,
            match skip {
                Some(k) => k as int,
                None => -1,
            },
        ),
{
    let ghost skip_at: int = match skip {
        Some(k) => k as int,
        None => -1,
    };
    let mut r: Vec<u64> = Vec::new();
    let mut k: usize = 0;
    while k < row.len()
        invariant
            k <= row@.len() <= spikes@.len(),
            r@ == active_weights(row@.subrange(0, k as int), spikes@, skip_at),
            skip_at == match skip {
                Some(s) => s as int,
                None => -1,
            },
        decreases row@.len() - k,
    {
        assert(row@.subrange(0, k as int + 1).drop_last() == row@.subrange(0, k as int));
        let skipped = match skip {
            Some(s) => s == k,
            None => false,
        };
        if !skipped && spikes[k] != 0 {
            r.push(row[k]);
        }
        k = k + 1;
    }
    assert(row@.subrange(0, row@.len() as int) == row@);
    r
}

/// The sum of `values` from +0.0, left to right, in the arithmetic of `fpu`.
pub open spec fn sum_spec<F: Fpu>(fpu: F, values: Seq<u64>) -> u64
    decreases values.len(),
{
    if values.len() == 0 {
        ZERO_BITS
    } else {
        fpu.add_spec(sum_spec(fpu, values.drop_last()), values.last())
    }
}

/// The sum of `values` from +0.0, left to right.
pub fn sum_of<F: Fpu>(fpu: &F, values: &Vec<u64>) -> (r: u64)
    ensures
        r == sum_spec(*fpu, values@),
{
    let mut acc: u64 = ZERO_BITS;
    let mut k: usize = 0;
    while k < values.len()
        invariant
            k <= values@.len(),
            acc == sum_spec(*fpu, values@.subrange(0, k as int)),
        decreases values@.len() - k,
    {
        assert(values@.subrange(0, k as int + 1).drop_last() == values@.subrange(0, k as int));
        acc = fpu.add(acc, values[k]);
        k = k + 1;
    }
    assert(values@.subrange(0, values@.len() as int) == values@);
    acc
}

} // verus!
