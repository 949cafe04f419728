use vstd::prelude::*;
use crate::components::{unit_add, unit_div, unit_mul, unit_sub, Adder, Multiplier, UnitFault};
use crate::fault::{embed_error, embed_spec, error_type_of, valid_error_code, ErrorType};
use crate::float::{float_gt, gt, sign_set, Fpu, ZERO_BITS};

verus! {

/// A stuck-at fault on one bit of the membrane potential.
#[derive(Clone, Copy, Debug)]
pub struct ErrorBit {
    /// The value the bit is stuck at, 0 or 1.
    pub error_type: u8,
    /// The position of the stuck bit.
    pub position: u8,
}

impl ErrorBit {
    /// The bit at `position` stuck at `error_type`.
    pub fn new(error_type: u8, position: u8) -> (r: ErrorBit)
        ensures
            r.error_type == error_type,
            r.position == position,
    {
        ErrorBit { error_type, position }
    }
}

/// `value` as a line with the stuck bit `fault` reads it.
pub open spec fn stuck_spec(value: u64, fault: Option<ErrorBit>) -> u64 {
    match fault {
        Some(e) => if e.error_type == 0 {
            embed_spec(value, ErrorType::Stuck0, e.position)
        } else if e.error_type == 1 {
            embed_spec(value, ErrorType::Stuck1, e.position)
        } else {
            value
        },
        None => value,
    }
}

/// The state of a [`LIFNeuron`]. Potentials, `tau` and `d_t` are binary64
/// bit patterns; `t_s` is the timestep of the last update.
pub struct LifState {
    pub v_th: u64,
    pub v_rest: u64,
    pub v_reset: u64,
    pub tau: u64,
    pub d_t: u64,
    pub v_mem: u64,
    pub t_s: u64,
    pub membrane_error: Option<ErrorBit>,
}

/// The spike and the new membrane potential of a neuron in state `s` whose
/// datapath computed the potential `p`: the stuck bit is forced onto `p`, and a
/// potential above threshold fires and resets.
pub open spec fn fire_outcome(s: LifState, p: u64) -> (u8, u64) {
    let pe = stuck_spec(p, s.membrane_error);
    if float_gt(pe, s.v_th) {
        (1, stuck_spec(s.v_reset, s.membrane_error))
    } else {
        (0, pe)
    }
}

/// The potential that the datapath of a neuron in state `s` computes at
/// timestep `t` from the weighted sums `intra` and `extra`, every sum,
/// difference, product and quotient taken through the adder `a` and the
/// multiplier `m`:
/// `v_rest + (v_mem - v_rest) * exp(-((t - t_s) * d_t) / tau) + (intra + extra)`.
pub open spec fn lif_potential<F: Fpu>(
    fpu: F,
    s: LifState,
    t: u64,
    intra: u64,
    extra: u64,
    a: UnitFault,
    m: UnitFault,
) -> u64 {
    let weight_sum = unit_add(a, fpu, intra, extra);
    let elapsed = unit_sub(a, fpu, fpu.from_u64_spec(t), fpu.from_u64_spec(s.t_s));
    let scaled = unit_div(m, fpu, unit_mul(m, fpu, elapsed, s.d_t), s.tau);
    let decay = fpu.exp_spec(embed_spec(scaled, ErrorType::Flip, 63));
    let leak = unit_mul(m, fpu, unit_sub(a, fpu, s.v_mem, s.v_rest), decay);
    unit_add(a, fpu, unit_add(a, fpu, s.v_rest, leak), weight_sum)
}

/// The state of a neuron in state `s` after a timestep `t` whose datapath
/// computed the potential `p` (see [`fire_outcome`]).
pub open spec fn lif_after(s: LifState, t: u64, p: u64) -> LifState {
    LifState { v_mem: fire_outcome(s, p).1, t_s: t, ..s }
}

/// Two states that differ at most in the membrane potential and the time of
/// the last update.
pub open spec fn same_parameters(a: LifState, b: LifState) -> bool {
    &&& a.v_th == b.v_th
    &&& a.v_rest == b.v_rest
    &&& a.v_reset == b.v_reset
    &&& a.tau == b.tau
    &&& a.d_t == b.d_t
    &&& a.membrane_error == b.membrane_error
}

/// A stuck bit, if any, is a 0 or a 1 on one of the 64 bits, and the stored
/// membrane potential already reads as the stuck line forces it.
pub open spec fn state_wf(s: LifState) -> bool {
    &&& s.membrane_error matches Some(e) ==> e.error_type <= 1 && e.position < 64
    &&& s.v_mem == stuck_spec(s.v_mem, s.membrane_error)
}

/// A leaky integrate-and-fire neuron.
#[derive(Clone, Copy, Debug)]
pub struct LIFNeuron {
    v_th: u64,
    v_rest: u64,
    v_reset: u64,
    tau: u64,
    d_t: u64,
    v_mem: u64,
    t_s: u64,
    membrane_error: Option<ErrorBit>,
}

impl View for LIFNeuron {
    type V = LifState;

    closed spec fn view(&self) -> LifState {
        LifState {
            v_th: self.v_th,
            v_rest: self.v_rest,
            v_reset: self.v_reset,
            tau: self.tau,
            d_t: self.d_t,
            v_mem: self.v_mem,
            t_s: self.t_s,
            membrane_error: self.membrane_error,
        }
    }
}

impl LIFNeuron {
    /// See [`state_wf`].
    pub open spec fn wf(&self) -> bool {
        state_wf(self@)
    }

    /// A neuron at rest: `v_mem` is `v_rest`, `t_s` is 0, and no bit is stuck.
    pub fn new(v_th: u64, v_rest: u64, v_reset: u64, tau: u64, d_t: u64) -> (r: LIFNeuron)
        ensures
            r.wf(),
            r@ == (LifState {
                v_th,
                v_rest,
                v_reset,
                tau,
                d_t,
                v_mem: v_rest,
                t_s: 0,
                membrane_error: None,
            }),
    {
        LIFNeuron { v_th, v_rest, v_reset, tau, d_t, v_mem: v_rest, t_s: 0, membrane_error: None }
    }

    pub fn v_rest(&self) -> (r: u64)
        ensures
            r == self@.v_rest,
    {
        self.v_rest
    }

    pub fn v_reset(&self) -> (r: u64)
        ensures
            r == self@.v_reset,
    {
        self.v_reset
    }

    pub fn tau(&self) -> (r: u64)
        ensures
            r == self@.tau,
    {
        self.tau
    }

    pub fn d_t(&self) -> (r: u64)
        ensures
            r == self@.d_t,
    {
        self.d_t
    }

    pub fn v_mem(&self) -> (r: u64)
        ensures
            r == self@.v_mem,
    {
        self.v_mem
    }

    pub fn t_s(&self) -> (r: u64)
        ensures
            r == self@.t_s,
    {
        self.t_s
    }

    /// Forces the stuck bit, if any, onto the membrane potential.
    fn check_error(&mut self)
        requires
            old(self)@.membrane_error matches Some(e) ==> e.position < 64,
        ensures
            final(self)@ == (LifState {
                v_mem: stuck_spec(old(self)@.v_mem, old(self)@.membrane_error),
                ..old(self)@
            }),
    {
        if let Some(error) = self.membrane_error {
            if error.error_type == 0 {
                self.v_mem = embed_error(self.v_mem, ErrorType::Stuck0, error.position);
            } else if error.error_type == 1 {
                self.v_mem = embed_error(self.v_mem, ErrorType::Stuck1, error.position);
            }
        }
    }

    /// Ends an update at timestep `t` whose datapath computed the potential
    /// `potential`: forces the stuck bit, compares with the threshold, and fires
    /// and resets when the potential is above it.
    pub fn settle(&mut self, t: u64, potential: u64) -> (spike: u8)
        requires
            old(self).wf(),
        ensures
            final(self).wf(),
            same_parameters(final(self)@, old(self)@),
            final(self)@.t_s == t,
            (spike, final(self)@.v_mem) == fire_outcome(old(self)@, potential),
    {
        self.v_mem = potential;
        self.t_s = t;
        self.check_error();
        if gt(self.v_mem, self.v_th) {
            self.v_mem = self.v_reset;
            self.check_error();
            proof { lemma_stuck_stable(self.v_reset, self.membrane_error); }
            1
        } else {
            proof { lemma_stuck_stable(potential, self.membrane_error); }
            0
        }
    }

    /// One timestep of the neuron at time `t`, given the weighted input sums
    /// from its own layer (`intra_weight`) and from the previous layer
    /// (`extra_weight`). With every sum, difference, product and quotient taken
    /// through `adder` and `mult`, the new potential is
    /// `v_rest + (v_mem - v_rest) * exp(-((t - t_s) * d_t) / tau) + (intra + extra)`,
    /// and [`LIFNeuron::settle`] ends the step. Returns the spike, 0 or 1.
    pub fn update_v_mem<F: Fpu>(
        &mut self,
        fpu: &F,
        t: u64,
        intra_weight: u64,
        extra_weight: u64,
        adder: Adder,
        mult: Multiplier,
    ) -> (spike: u8)
        requires
            old(self).wf(),
            adder.wf(),
            mult.wf(),
        ensures
            final(self).wf(),
            final(self)@ == lif_after(
                old(self)@,
                t,
                lif_potential(*fpu, old(self)@, t, intra_weight, extra_weight, adder.model(), mult.model()),
            ),
            spike == fire_outcome(
                old(self)@,
                lif_potential(*fpu, old(self)@, t, intra_weight, extra_weight, adder.model(), mult.model()),
            ).0,
    {
        let weight_sum = adder.add(fpu, intra_weight, extra_weight);
        let elapsed = adder.sub(fpu, fpu.from_u64(t), fpu.from_u64(self.t_s));
        let scaled = mult.div(fpu, mult.mul(fpu, elapsed, self.d_t), self.tau);
        let exponent = crate::fault::flip_bit(scaled, 63);
        let decay = fpu.exp(exponent);
        self.check_error();
        proof { lemma_stuck_stable(old(self)@.v_mem, self.membrane_error); }
        let leak = mult.mul(fpu, adder.sub(fpu, self.v_mem, self.v_rest), decay);
        let potential = adder.add(fpu, adder.add(fpu, self.v_rest, leak), weight_sum);
        self.settle(t, potential)
    }

    /// Puts the neuron back at rest and removes any stuck bit.
    pub fn init_neuron(&mut self)
        ensures
            final(self).wf(),
            final(self)@ == (LifState {
                v_mem: old(self)@.v_rest,
                t_s: 0,
                membrane_error: None,
                ..old(self)@
            }),
    {
        self.v_mem = self.v_rest;
        self.t_s = 0;
        self.membrane_error = None;
    }

    /// Sticks bit `position` of the membrane potential at `error_type` (0 or 1),
    /// from this call on.
    pub fn set_membrane_error(&mut self, error_type: u8, position: u8)
        requires
            old(self).wf(),
            error_type <= 1,
            position < 64,
        ensures
            final(self).wf(),
            final(self)@ == (LifState {
                membrane_error: Some(ErrorBit { error_type, position }),
                v_mem: stuck_spec(old(self)@.v_mem, Some(ErrorBit { error_type, position })),
                ..old(self)@
            }),
    {
        self.membrane_error = Some(ErrorBit::new(error_type, position));
        self.check_error();
        proof { lemma_stuck_stable(old(self)@.v_mem, self.membrane_error); }
    }

    pub fn get_th(&self) -> (r: u64)
        ensures
            r == self@.v_th,
    {
        self.v_th
    }

    pub fn set_th(&mut self, new_th: u64)
        ensures
            final(self)@ == (LifState { v_th: new_th, ..old(self)@ }),
    {
        self.v_th = new_th;
    }

    /// The membrane potential, as the stuck line, if any, reads it.
    pub fn get_mem(&self) -> (r: u64)
        requires
            self.wf(),
        ensures
            r == self@.v_mem,
            r == stuck_spec(r, self@.membrane_error),
    {
        self.v_mem
    }

    /// Writes the membrane potential; a stuck bit holds against the write.
    pub fn set_mem(&mut self, new_mem: u64)
        requires
            old(self).wf(),
        ensures
            final(self).wf(),
            final(self)@ == (LifState {
                v_mem: stuck_spec(new_mem, old(self)@.membrane_error),
                ..old(self)@
            }),
    {
        self.v_mem = new_mem;
        self.check_error();
        proof { lemma_stuck_stable(new_mem, self.membrane_error); }
    }
}

/// Forcing a stuck bit twice is forcing it once.
pub proof fn lemma_stuck_stable(value: u64, fault: Option<ErrorBit>)
    requires
        fault matches Some(e) ==> e.position < 64,
    ensures
        stuck_spec(stuck_spec(value, fault), fault) == stuck_spec(value, fault),
{
    if let Some(e) = fault {
        if e.error_type == 0 {
            crate::fault::lemma_stuck_idempotent(value, ErrorType::Stuck0, e.position);
        } else if e.error_type == 1 {
            crate::fault::lemma_stuck_idempotent(value, ErrorType::Stuck1, e.position);
        }
    }
}

/// With the sign bit (63) of the membrane stuck, every read of the potential
/// of a well-formed neuron has that sign: stuck at 1, the potential never
/// reads above zero (it is negative, -0 or a NaN); stuck at 0, it never reads
/// below zero.
pub proof fn lemma_sign_bit_stuck(n: LifState, stuck_at: u8)
    requires
        state_wf(n),
        n.membrane_error == Some(ErrorBit { error_type: stuck_at, position: 63 }),
    ensures
        stuck_at == 1 ==> sign_set(n.v_mem) && !float_gt(n.v_mem, ZERO_BITS),
        stuck_at == 0 ==> !sign_set(n.v_mem) && !float_gt(ZERO_BITS, n.v_mem),
{
    let v = n.v_mem;
    if stuck_at == 1 {
        assert(v == v | (1u64 << 63u64) ==> v >> 63u64 == 1) by (bit_vector);
        crate::float::lemma_sign_set_not_positive(v);
    } else if stuck_at == 0 {
        assert(v == v & !(1u64 << 63u64) ==> v >> 63u64 == 0) by (bit_vector);
        crate::float::lemma_sign_clear_not_negative(v);
    }
}

/// Applies the fault with numeric code `error_type` to bit `position` of the
/// neuron's threshold, once.
pub fn threshold_fault(neuron: &mut LIFNeuron, error_type: i32, position: u8)
    requires
        valid_error_code(error_type as int),
        position < 64,
    ensures
        final(neuron)@ == (LifState {
            v_th: embed_spec(old(neuron)@.v_th, error_type_of(error_type as int), position),
            ..old(neuron)@
        }),
{
    let new_threshold = embed_error(neuron.get_th(), ErrorType::from_index(error_type), position);
    neuron.set_th(new_threshold);
}

/// Puts the fault with numeric code `error_type` on bit `position` of the
/// neuron's membrane potential: a stuck-at fault stays on the neuron, a flip
/// inverts the bit once, and code 3 does nothing.
pub fn membrane_fault(neuron: &mut LIFNeuron, error_type: i32, position: u8)
    requires
        old(neuron).wf(),
        valid_error_code(error_type as int),
        position < 64,
    ensures
        final(neuron).wf(),
        error_type == 0 || error_type == 1 ==> final(neuron)@ == (LifState {
            membrane_error: Some(ErrorBit { error_type: error_type as u8, position }),
            v_mem: stuck_spec(
                old(neuron)@.v_mem,
                Some(ErrorBit { error_type: error_type as u8, position }),
            ),
            ..old(neuron)@
        }),
        error_type == 2 ==> final(neuron)@ == (LifState {
            v_mem: stuck_spec(
                embed_spec(old(neuron)@.v_mem, ErrorType::Flip, position),
                old(neuron)@.membrane_error,
            ),
            ..old(neuron)@
        }),
        error_type == 3 ==> final(neuron)@ == old(neuron)@,
{
    if error_type == 0 || error_type == 1 {
        neuron.set_membrane_error(error_type as u8, position);
    } else if error_type == 2 {
        let new_mem = embed_error(neuron.get_mem(), ErrorType::Flip, position);
        neuron.set_mem(new_mem);
    }
}

} // verus!
