use vstd::prelude::*;
use crate::components::{Adder, Multiplier, UnitFault};
use crate::event::{binary, Evento};
use crate::float::Fpu;
use crate::random::random_below;
use crate::layer::{after_transient, layer_step, inbound_width, layer_wf, stepped, transient_wf, Layer, LayerState, TransientError};

verus! {

/// Why a network could not be built or could not run.
#[derive(Clone, Copy, Debug, PartialEq, Eq, Structural)]
pub enum SnnError {
    /// An inbound weight is below zero or not a number.
    NegativeWeight,
    /// An intra-layer weight off the diagonal is above zero or not a number.
    PositiveIntraWeight,
    /// The layers, weight matrices and network dimensions do not fit together.
    LayerMismatch,
    /// A component code is not in `0..8`, or the fault code not in `0..3`.
    InvalidFaultConfig,
    /// A fault was asked for, and the drawn place holds nothing to fault.
    NoFaultSite,
    /// An input spike is neither 0 nor 1, or an input row has the wrong width.
    InvalidInput,
    /// The output events do not give one row of the output width per timestep.
    InvalidOutput,
}

/// Whether every row of `spikes` has `width` entries, each 0 or 1.
pub open spec fn valid_spike_matrix(spikes: Seq<Vec<u8>>, width: nat) -> bool {
    forall|t: int| 0 <= t < spikes.len() ==> #[trigger] spikes[t]@.len() == width && binary(spikes[t]@)
}

/// Whether `events` carries row `t` of `spikes` at timestamp `t`, for every `t`.
pub open spec fn events_of(spikes: Seq<Vec<u8>>, events: Seq<Evento>) -> bool {
    &&& events.len() == spikes.len()
    &&& forall|t: int| 0 <= t < spikes.len() ==> (#[trigger] events[t]).ts == t && events[t].spikes@
        == spikes[t]@
}

/// Turns a matrix of input spikes, one row per timestep, into one event per
/// timestep. Fails unless every row has `width` entries, each 0 or 1.
pub fn spikes_to_events(spikes_matrix: &Vec<Vec<u8>>, width: usize) -> (r: Result<Vec<Evento>, SnnError>)
    ensures
        r is Ok <==> valid_spike_matrix(spikes_matrix@, width as nat),
        r matches Ok(events) ==> events_of(spikes_matrix@, events@),
        r matches Err(e) ==> e == SnnError::InvalidInput,
{
    let mut eventi: Vec<Evento> = Vec::new();
    let mut ts: usize = 0;
    while ts < spikes_matrix.len()
        invariant
            ts <= spikes_matrix@.len(),
            valid_spike_matrix(spikes_matrix@.subrange(0, ts as int), width as nat),
            events_of(spikes_matrix@.subrange(0, ts as int), eventi@),
        decreases spikes_matrix@.len() - ts,
    {
        let row = &spikes_matrix[ts];
        if row.len() != width {
            assert(!(spikes_matrix@[ts as int]@.len() == width && binary(spikes_matrix@[ts as int]@)));
            return Err(SnnError::InvalidInput);
        }
        let mut k: usize = 0;
        while k < row.len()
            invariant
                ts < spikes_matrix@.len(),
                row@ == spikes_matrix@[ts as int]@,
                k <= row@.len(),
                forall|j: int| 0 <= j < k ==> #[trigger] row@[j] <= 1,
            decreases row@.len() - k,
        {
            if row[k] > 1 {
                assert(!binary(spikes_matrix@[ts as int]@));
                return Err(SnnError::InvalidInput);
            }
            k = k + 1;
        }
        let mut copy: Vec<u8> = Vec::new();
        let mut k: usize = 0;
        while k < row.len()
            invariant
                k <= row@.len(),
                copy@ == row@.subrange(0, k as int),
            decreases row@.len() - k,
        {
            copy.push(row[k]);
            k = k + 1;
        }
        assert(copy@ == row@);
        eventi.push(Evento::new(ts as u64, copy));
        assert(spikes_matrix@.subrange(0, ts as int + 1).drop_last() == spikes_matrix@.subrange(0, ts as int));
        ts = ts + 1;
    }
    assert(spikes_matrix@.subrange(0, spikes_matrix@.len() as int) == spikes_matrix@);
    Ok(eventi)
}

/// Whether `events` gives, at position `t`, timestep `t` with `width` spikes,
/// for `duration` timesteps.
pub open spec fn valid_output_events(events: Seq<Evento>, width: nat, duration: nat) -> bool {
    &&& events.len() == duration
    &&& forall|t: int| 0 <= t < events.len() ==> (#[trigger] events[t]).ts == t && events[t].spikes@.len()
        == width
}

/// Turns the events that leave the network into a matrix of output spikes, one
/// row per timestep. Fails unless there is one event of `width` spikes per
/// timestep of `0..duration`, in order.
pub fn spikes_from_events(eventi: Vec<Evento>, width: usize, duration: usize) -> (r: Result<
    Vec<Vec<u8>>,
    SnnError,
>)
    ensures
        r is Ok <==> valid_output_events(eventi@, width as nat, duration as nat),
        r matches Ok(m) ==> m@.len() == eventi@.len() && forall|t: int| 0 <= t < m@.len() ==> (#[trigger] m@[t])@
            == eventi@[t].spikes@,
        r matches Err(e) ==> e == SnnError::InvalidOutput,
{
    if eventi.len() != duration {
        return Err(SnnError::InvalidOutput);
    }
    let ghost events = eventi@;
    assert(events == eventi@);
    let mut raw_matrix: Vec<Vec<u8>> = Vec::new();
    let mut rest = eventi;
    let mut t: usize = 0;
    while t < duration
        invariant
            events == eventi@,
            events.len() == duration,
            t <= duration,
            raw_matrix@.len() == t,
            rest@.len() == duration - t,
            forall|j: int| 0 <= j < rest@.len() ==> #[trigger] rest@[j] == events[t + j],
            forall|j: int| 0 <= j < t ==> (#[trigger] events[j]).ts == j && events[j].spikes@.len() == width,
            forall|j: int| 0 <= j < t ==> (#[trigger] raw_matrix@[j])@ == events[j].spikes@,
        decreases duration - t,
    {
        let evento = rest.remove(0);
        assert(evento == events[t as int]);
        if evento.ts != t as u64 || evento.spikes.len() != width {
            assert(!(events[t as int].ts == t && events[t as int].spikes@.len() == width));
            assert(!valid_output_events(events, width as nat, duration as nat));
            return Err(SnnError::InvalidOutput);
        }
        raw_matrix.push(evento.spikes);
        t = t + 1;
    }
    assert(valid_output_events(events, width as nat, duration as nat));
    Ok(raw_matrix)
}

/// Where a fault is placed, and what it is. `component` and `error_type` are
/// codes (see [`TransientError`] and [`crate::fault::error_type_of`]);
/// `weight_index` matters for the weight components, `input_errors` for the
/// input components.
#[derive(Clone, Copy, Debug)]
pub struct FaultSpec {
    pub component: i32,
    pub error_type: i32,
    pub position: u8,
    pub layer: usize,
    pub neuron: usize,
    pub weight_index: usize,
    pub input_errors: (i32, i32),
}

/// The transient fault that `f` arms at timestep `time`.
pub open spec fn transient_of(f: FaultSpec, time: u64) -> TransientError {
    TransientError {
        neuron: f.neuron,
        component: f.component,
        position: f.position,
        time,
        input_errors: f.input_errors,
        weight_index: f.weight_index,
    }
}

/// The state of an [`SNN`].
pub struct SnnState {
    pub layers: Seq<LayerState>,
    pub fault: Option<FaultSpec>,
    pub adder: Adder,
    pub multiplier: Multiplier,
    pub input_dim: nat,
    pub output_dim: nat,
}

/// The width of the spikes that reach layer `l`.
pub open spec fn width_into(s: SnnState, l: int) -> nat {
    if l == 0 {
        s.input_dim
    } else {
        s.layers[l - 1].neurons.len()
    }
}

/// Whether the fault `f` is a bit flip, armed at a random timestep of each run.
pub open spec fn is_transient(f: Option<FaultSpec>) -> bool {
    f matches Some(g) && g.error_type == 2
}

/// Every layer is well formed and takes as many inputs as the layer before it
/// has neurons; the last layer gives the output width; a transient fault fits
/// the layer it names.
pub open spec fn snn_wf(s: SnnState) -> bool {
    &&& forall|l: int| 0 <= l < s.layers.len() ==> layer_wf(#[trigger] s.layers[l])
    &&& forall|l: int| 0 <= l < s.layers.len() ==> inbound_width(#[trigger] s.layers[l], width_into(s, l))
    &&& s.output_dim == width_into(s, s.layers.len() as int)
    &&& s.adder.wf()
    &&& s.multiplier.wf()
    &&& is_transient(s.fault) ==> {
        let f = s.fault->Some_0;
        f.layer < s.layers.len() && transient_wf(s.layers[f.layer as int], transient_of(f, 0))
    }
}

/// A spiking neural network: layers in order, the fault placed on it when it
/// was built, and the arithmetic units its neurons compute with.
pub struct SNN {
    layers: Vec<Layer>,
    fault: Option<FaultSpec>,
    adder: Adder,
    multiplier: Multiplier,
    input_dim: usize,
    output_dim: usize,
}

impl View for SNN {
    type V = SnnState;

    closed spec fn view(&self) -> SnnState {
        SnnState {
            layers: self.layers@.map_values(|l: Layer| l@),
            fault: self.fault,
            adder: self.adder,
            multiplier: self.multiplier,
            input_dim: self.input_dim as nat,
            output_dim: self.output_dim as nat,
        }
    }
}

impl SNN {
    pub fn new(
        layers: Vec<Layer>,
        fault: Option<FaultSpec>,
        adder: Adder,
        multiplier: Multiplier,
        input_dim: usize,
        output_dim: usize,
    ) -> (r: SNN)
        ensures
            r@ == (SnnState {
                layers: layers@.map_values(|l: Layer| l@),
                fault,
                adder,
                multiplier,
                input_dim: input_dim as nat,
                output_dim: output_dim as nat,
            }),
    {
        SNN { layers, fault, adder, multiplier, input_dim, output_dim }
    }

    pub fn layers(&self) -> (r: &Vec<Layer>)
        ensures
            r@.map_values(|l: Layer| l@) == self@.layers,
    {
        &self.layers
    }

    /// The layers, for a caller that runs each of them on a worker of its own.
    pub fn layers_mut(&mut self) -> (r: &mut Vec<Layer>)
        ensures
            r@.map_values(|l: Layer| l@) == old(self)@.layers,
    {
        &mut self.layers
    }

    /// The fault placed on the network when it was built, if any.
    pub fn fault(&self) -> (r: Option<FaultSpec>)
        ensures
            r == self@.fault,
    {
        self.fault
    }

    pub fn adder(&self) -> (r: Adder)
        ensures
            r == self@.adder,
    {
        self.adder
    }

    pub fn multiplier(&self) -> (r: Multiplier)
        ensures
            r == self@.multiplier,
    {
        self.multiplier
    }

    pub fn input_dim(&self) -> (r: usize)
        ensures
            r == self@.input_dim,
    {
        self.input_dim
    }

    pub fn output_dim(&self) -> (r: usize)
        ensures
            r == self@.output_dim,
    {
        self.output_dim
    }

    /// Readies a run on `input_spikes`, one row per timestep: checks the input,
    /// turns it into events and, for a transient fault, arms it on its layer at
    /// a timestep drawn uniformly from the run's duration.
    pub fn prepare(&mut self, input_spikes: &Vec<Vec<u8>>) -> (r: Result<Vec<Evento>, SnnError>)
        requires
            snn_wf(old(self)@),
        ensures
            snn_wf(final(self)@),
            r is Ok <==> valid_spike_matrix(input_spikes@, old(self)@.input_dim),
            r matches Err(e) ==> e == SnnError::InvalidInput && final(self)@ == old(self)@,
            r matches Ok(events) ==> {
                &&& events_of(input_spikes@, events@)
                &&& armed(old(self)@, final(self)@, input_spikes@.len())
            },
    {
        let events = match spikes_to_events(input_spikes, self.input_dim) {
            Ok(events) => events,
            Err(e) => {
                return Err(e);
            },
        };
        let duration = events.len();
        if let Some(f) = self.fault {
            if f.error_type == 2 && duration > 0 {
                let time = random_below(duration) as u64;
                let ghost s0 = self@;
                let l = f.layer;
                self.layers[l].set_transient_error(
                    f.neuron,
                    f.component,
                    f.position,
                    time,
                    f.input_errors,
                    f.weight_index,
                );
                proof {
                    self.lemma_layer_set(s0, l as int);
                    assert(self@.layers =~= s0.layers.update(
                        l as int,
                        LayerState { error: Some(transient_of(f, time)), ..s0.layers[l as int] },
                    ));
                    assert forall|k: int| 0 <= k < self@.layers.len() implies inbound_width(
                        #[trigger] self@.layers[k],
                        width_into(self@, k),
                    ) by {
                        assert(inbound_width(s0.layers[k], width_into(s0, k)));
                        if k > 0 {
                            assert(s0.layers[k - 1].neurons == self@.layers[k - 1].neurons);
                        }
                    }
                    assert(width_into(self@, self@.layers.len() as int) == width_into(
                        s0,
                        s0.layers.len() as int,
                    ));
                }
            }
        }
        Ok(events)
    }

    /// Runs the network on `input_spikes`, one row per timestep, and returns
    /// the output spikes, one row per timestep. Each event passes through the
    /// layers in order; since a layer is a state machine over the ordered
    /// events it receives, this gives the same output as one worker per layer
    /// joined by FIFO queues. Fails, before any change, on an invalid input.
    pub fn process<F: Fpu>(&mut self, fpu: &F, input_spikes: &Vec<Vec<u8>>) -> (r: Result<
        Vec<Vec<u8>>,
        SnnError,
    >)
        requires
            snn_wf(old(self)@),
        ensures
            snn_wf(final(self)@),
            final(self)@.fault == old(self)@.fault,
            r is Ok <==> valid_spike_matrix(input_spikes@, old(self)@.input_dim),
            r matches Err(e) ==> e == SnnError::InvalidInput && final(self)@ == old(self)@,
            r matches Ok(m) ==> m@.len() == input_spikes@.len() && valid_spike_matrix(
                m@,
                old(self)@.output_dim,
            ),
            r matches Ok(m) ==> old(self)@.layers.len() == 0 ==> forall|t: int|
                0 <= t < m@.len() ==> (#[trigger] m@[t])@ == input_spikes@[t]@,
            r matches Ok(m) ==> exists|s: SnnState|
                armed(old(self)@, s, input_spikes@.len()) && #[trigger] ran(
                    *fpu,
                    s,
                    rows_of(input_spikes@),
                    final(self)@,
                    rows_of(m@),
                ),
    {
        let events = match self.prepare(input_spikes) {
            Ok(events) => events,
            Err(e) => {
                return Err(e);
            },
        };
        let ghost s1 = self@;
        let ghost rows = rows_of(input_spikes@);
        let ghost ua = s1.adder.model();
        let ghost um = s1.multiplier.model();
        assert(spikes_of(events@) =~= rows);
        assert(run_layers(*fpu, s1.layers.subrange(0, 0), rows, ua, um).1 == rows);
        let duration = events.len();
        let adder = self.adder;
        let multiplier = self.multiplier;
        let mut current = events;
        let n_layers = self.layers.len();
        let mut l: usize = 0;
        while l < n_layers
            invariant
                snn_wf(self@),
                n_layers == self@.layers.len(),
                l <= n_layers,
                adder == self@.adder,
                multiplier == self@.multiplier,
                self@.fault == s1.fault,
                self@.input_dim == s1.input_dim,
                self@.output_dim == s1.output_dim,
                current@.len() == duration,
                forall|t: int| 0 <= t < duration ==> (#[trigger] current@[t]).ts == t
                    && current@[t].spikes@.len() == width_into(self@, l as int),
                n_layers == 0 ==> forall|t: int| 0 <= t < duration ==> (#[trigger] current@[t]).spikes@
                    == input_spikes@[t]@,
                forall|t: int| 0 <= t < duration ==> binary((#[trigger] current@[t]).spikes@),
                rows == rows_of(input_spikes@),
                ua == s1.adder.model() && um == s1.multiplier.model(),
                adder == s1.adder && multiplier == s1.multiplier,
                s1.layers.len() == n_layers,
                spikes_of(current@) == run_layers(*fpu, s1.layers.subrange(0, l as int), rows, ua, um).1,
                forall|j: int| 0 <= j < l ==> #[trigger] self@.layers[j] == run_layers(
                    *fpu,
                    s1.layers.subrange(0, l as int),
                    rows,
                    ua,
                    um,
                ).0[j],
                forall|j: int| l <= j < n_layers ==> #[trigger] self@.layers[j] == s1.layers[j],
                run_layers(*fpu, s1.layers.subrange(0, l as int), rows, ua, um).0.len() == l,
            decreases n_layers - l,
        {
            let ghost prefix = run_layers(*fpu, s1.layers.subrange(0, l as int), rows, ua, um);
            let mut next: Vec<Evento> = Vec::new();
            let mut t: usize = 0;
            while t < duration
                invariant
                    snn_wf(self@),
                    n_layers == self@.layers.len(),
                    l < n_layers,
                    t <= duration,
                    adder == self@.adder,
                    multiplier == self@.multiplier,
                    self@.fault == s1.fault,
                    self@.input_dim == s1.input_dim,
                    self@.output_dim == s1.output_dim,
                    current@.len() == duration,
                    forall|k: int| 0 <= k < duration ==> (#[trigger] current@[k]).ts == k
                        && current@[k].spikes@.len() == width_into(self@, l as int),
                    next@.len() == t,
                    forall|k: int| 0 <= k < t ==> (#[trigger] next@[k]).ts == k
                        && next@[k].spikes@.len() == self@.layers[l as int].neurons.len(),
                    forall|k: int| 0 <= k < t ==> binary((#[trigger] next@[k]).spikes@),
                    rows == rows_of(input_spikes@),
                    ua == s1.adder.model() && um == s1.multiplier.model(),
                    adder == s1.adder && multiplier == s1.multiplier,
                    s1.layers.len() == n_layers,
                    prefix == run_layers(*fpu, s1.layers.subrange(0, l as int), rows, ua, um),
                    prefix.0.len() == l,
                    spikes_of(current@) == prefix.1,
                    forall|j: int| 0 <= j < l ==> #[trigger] self@.layers[j] == prefix.0[j],
                    forall|j: int| l < j < n_layers ==> #[trigger] self@.layers[j] == s1.layers[j],
                    self@.layers[l as int] == run_layer(
                        *fpu,
                        s1.layers[l as int],
                        prefix.1.subrange(0, t as int),
                        ua,
                        um,
                    ).0,
                    spikes_of(next@) == run_layer(
                        *fpu,
                        s1.layers[l as int],
                        prefix.1.subrange(0, t as int),
                        ua,
                        um,
                    ).1,
                decreases duration - t,
            {
                let ghost s0 = self@;
                let ghost inputs_next = prefix.1.subrange(0, t as int + 1);
                assert(inputs_next.drop_last() == prefix.1.subrange(0, t as int));
                assert(current@[t as int].spikes@ == prefix.1[t as int]);
                assert(layer_wf(s0.layers[l as int]));
                assert(inbound_width(s0.layers[l as int], width_into(s0, l as int)));
                let ev = self.layers[l].process_event(fpu, adder, multiplier, &current[t]);
                proof {
                    self.lemma_layer_set(s0, l as int);
                    let before = s0.layers[l as int];
                    let after = self@.layers[l as int];
                    lemma_step_shape(before, after, ev.spikes@, current@[t as int].ts);
                    assert(self@.layers =~= s0.layers.update(l as int, after));
                    assert forall|k: int| 0 <= k < self@.layers.len() implies inbound_width(
                        #[trigger] self@.layers[k],
                        width_into(self@, k),
                    ) by {
                        assert(inbound_width(s0.layers[k], width_into(s0, k)));
                        if k > 0 {
                            assert(s0.layers[k - 1].neurons.len() == self@.layers[k - 1].neurons.len());
                        }
                    }
                    assert forall|k: int| 0 <= k < self@.layers.len() implies layer_wf(
                        #[trigger] self@.layers[k],
                    ) by {
                        assert(layer_wf(s0.layers[k]));
                    }
                    assert(width_into(self@, self@.layers.len() as int) == width_into(
                        s0,
                        s0.layers.len() as int,
                    ));
                    assert(width_into(self@, l as int) == width_into(s0, l as int));
                    if is_transient(self@.fault) {
                        let f = self@.fault->Some_0;
                        assert(transient_wf(s0.layers[f.layer as int], transient_of(f, 0)));
                    }
                }
                let ghost next_before = next@;
                next.push(ev);
                proof {
                    assert(spikes_of(next@) =~= spikes_of(next_before).push(ev.spikes@));
                    assert(self@.layers[l as int] == run_layer(*fpu, s1.layers[l as int], inputs_next, ua, um).0);
                    assert forall|j: int| 0 <= j < l implies #[trigger] self@.layers[j] == prefix.0[j] by {
                        assert(self@.layers[j] == s0.layers[j]);
                    }
                    assert forall|j: int| l < j < n_layers implies #[trigger] self@.layers[j] == s1.layers[j] by {
                        assert(self@.layers[j] == s0.layers[j]);
                    }
                }
                t = t + 1;
            }
            proof {
                assert(prefix.1.subrange(0, duration as int) == prefix.1);
                let grown = s1.layers.subrange(0, l as int + 1);
                assert(grown.drop_last() == s1.layers.subrange(0, l as int));
                assert(grown.last() == s1.layers[l as int]);
                let run2 = run_layers(*fpu, grown, rows, ua, um);
                assert(run2.0 == prefix.0.push(self@.layers[l as int]));
                assert(spikes_of(next@) == run2.1);
                assert forall|j: int| 0 <= j < l + 1 implies #[trigger] self@.layers[j] == run2.0[j] by {
                }
            }
            current = next;
            l = l + 1;
        }
        proof {
            assert(s1.layers.subrange(0, n_layers as int) == s1.layers);
        }
        let ghost fin = current@;
        let r = spikes_from_events(current, self.output_dim, duration);
        assert(valid_output_events(fin, self@.output_dim, duration as nat));
        match r {
            Ok(m) => {
                proof {
                    let run = run_layers(*fpu, s1.layers, rows, ua, um);
                    assert(self@.layers =~= run.0);
                    assert(self@ == (SnnState { layers: run.0, ..s1 }));
                    assert(rows_of(m@) =~= spikes_of(fin));
                    assert(ran(*fpu, s1, rows, self@, rows_of(m@)));
                }
                assert forall|t: int| 0 <= t < m@.len() implies #[trigger] m@[t]@.len() == self@.output_dim
                    && binary(m@[t]@) by {
                    assert(binary(fin[t].spikes@));
                }
                Ok(m)
            },
            Err(e) => Err(e),
        }
    }

    /// What writing `self.layers[k]` did to the view, starting from `before`.
    proof fn lemma_layer_set(&self, before: SnnState, k: int)
        requires
            0 <= k < before.layers.len(),
            self.layers@.len() == before.layers.len(),
            forall|j: int| 0 <= j < before.layers.len() && j != k ==> #[trigger] self.layers@[j]@
                == before.layers[j],
        ensures
            self@.layers.len() == before.layers.len(),
            forall|j: int| 0 <= j < before.layers.len() && j != k ==> #[trigger] self@.layers[j]
                == before.layers[j],
            self@.layers[k] == self.layers@[k]@,
    {
    }
}

/// State `after` is state `before` readied for a run of `duration` timesteps:
/// unchanged, except that a transient fault, when the run has a timestep, is
/// armed on its layer at a timestep inside the run.
pub open spec fn armed(before: SnnState, after: SnnState, duration: nat) -> bool {
    if is_transient(before.fault) && duration > 0 {
        let f = before.fault->Some_0;
        exists|time: u64|
            time < duration && after == (SnnState {
                layers: before.layers.update(
                    f.layer as int,
                    LayerState {
                        error: Some(#[trigger] transient_of(f, time)),
                        ..before.layers[f.layer as int]
                    },
                ),
                ..before
            })
    } else {
        after == before
    }
}

/// The spikes of each event, in order.
pub open spec fn spikes_of(events: Seq<Evento>) -> Seq<Seq<u8>> {
    events.map_values(|e: Evento| e.spikes@)
}

/// The rows of a matrix of spikes.
pub open spec fn rows_of(m: Seq<Vec<u8>>) -> Seq<Seq<u8>> {
    m.map_values(|row: Vec<u8>| row@)
}

/// The layer `s` after it has processed `inputs`, row `t` at timestep `t`, with
/// units configured as `a` and `m`, and the rows it emitted (see
/// [`layer_step`]).
pub open spec fn run_layer<F: Fpu>(
    fpu: F,
    s: LayerState,
    inputs: Seq<Seq<u8>>,
    a: UnitFault,
    m: UnitFault,
) -> (LayerState, Seq<Seq<u8>>)
    decreases inputs.len(),
{
    if inputs.len() == 0 {
        (s, Seq::empty())
    } else {
        let before = run_layer(fpu, s, inputs.drop_last(), a, m);
        let step = layer_step(fpu, before.0, inputs.last(), (inputs.len() - 1) as u64, a, m);
        (step.0, before.1.push(step.1))
    }
}

/// The layers `layers` after running on `inputs` one after another, each on
/// the rows that the one before it emitted, and the rows that the last one
/// emitted (`inputs` itself for no layers).
pub open spec fn run_layers<F: Fpu>(
    fpu: F,
    layers: Seq<LayerState>,
    inputs: Seq<Seq<u8>>,
    a: UnitFault,
    m: UnitFault,
) -> (Seq<LayerState>, Seq<Seq<u8>>)
    decreases layers.len(),
{
    if layers.len() == 0 {
        (Seq::empty(), inputs)
    } else {
        let before = run_layers(fpu, layers.drop_last(), inputs, a, m);
        let last = run_layer(fpu, layers.last(), before.1, a, m);
        (before.0.push(last.0), last.1)
    }
}

/// Whether `after` and `output` are what a run of the readied network `armed`
/// on `inputs` gives: every layer runs on the rows of the layer before it.
pub open spec fn ran<F: Fpu>(fpu: F, armed: SnnState, inputs: Seq<Seq<u8>>, after: SnnState, output: Seq<Seq<u8>>) -> bool {
    let run = run_layers(fpu, armed.layers, inputs, armed.adder.model(), armed.multiplier.model());
    &&& after == (SnnState { layers: run.0, ..armed })
    &&& output == run.1
}

/// Without a fault, a run draws nothing: runs of equal fault-free networks on
/// equal input, in the same arithmetic, give equal outputs and leave equal
/// networks.
pub proof fn lemma_fault_free_runs_agree<F: Fpu>(
    fpu: F,
    s1: SnnState,
    s2: SnnState,
    inputs: Seq<Seq<u8>>,
    armed1: SnnState,
    armed2: SnnState,
    after1: SnnState,
    after2: SnnState,
    out1: Seq<Seq<u8>>,
    out2: Seq<Seq<u8>>,
)
    requires
        s1 == s2,
        s1.fault is None,
        armed(s1, armed1, inputs.len()),
        armed(s2, armed2, inputs.len()),
        ran(fpu, armed1, inputs, after1, out1),
        ran(fpu, armed2, inputs, after2, out2),
    ensures
        out1 == out2,
        after1 == after2,
{
}

/// Whether two layer states have the same neurons count and matrix shapes.
pub open spec fn same_shape(a: LayerState, b: LayerState) -> bool {
    &&& a.neurons.len() == b.neurons.len()
    &&& a.weights.len() == b.weights.len()
    &&& a.intra_weights.len() == b.intra_weights.len()
    &&& forall|i: int| 0 <= i < a.weights.len() ==> (#[trigger] a.weights[i]).len() == b.weights[i].len()
    &&& forall|i: int| 0 <= i < a.intra_weights.len() ==> (#[trigger] a.intra_weights[i]).len()
        == b.intra_weights[i].len()
}

/// A transient fault keeps the shape of the layer it strikes; so does a step.
pub proof fn lemma_step_shape(s: LayerState, after: LayerState, spikes: Seq<u8>, t: u64)
    requires
        layer_wf(s),
        stepped(after_transient(s, t), after, spikes, t),
    ensures
        same_shape(s, after),
        forall|e: TransientError| transient_wf(s, e) ==> transient_wf(after, e),
        forall|w: nat| inbound_width(s, w) ==> inbound_width(after, w),
{
    let m = after_transient(s, t);
    assert forall|i: int| 0 <= i < s.weights.len() implies (#[trigger] s.weights[i]).len()
        == after.weights[i].len() by {
        assert(m.weights[i].len() == s.weights[i].len());
    }
    assert forall|i: int| 0 <= i < s.intra_weights.len() implies (#[trigger] s.intra_weights[i]).len()
        == after.intra_weights[i].len() by {
        assert(m.intra_weights[i].len() == s.intra_weights[i].len());
    }
    assert forall|e: TransientError| transient_wf(s, e) implies transient_wf(after, e) by {
        assert(s.weights[e.neuron as int].len() == after.weights[e.neuron as int].len());
        assert(s.intra_weights[e.neuron as int].len() == after.intra_weights[e.neuron as int].len());
    }
    assert forall|w: nat| inbound_width(s, w) implies inbound_width(after, w) by {
        assert forall|i: int| 0 <= i < after.weights.len() implies #[trigger] after.weights[i].len() == w by {
            assert(s.weights[i].len() == w);
        }
    }
}

} // verus!
