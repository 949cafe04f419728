use vstd::prelude::*;
use crate::fault::{embed_error, embed_spec, error_type_of, valid_error_code, ErrorType};
use crate::float::Fpu;

verus! {

/// The adder of a neuron's datapath. It carries either one fault on its output
/// or independent faults on its two inputs, never both; the two input faults sit
/// on the same bit position.
#[derive(Clone, Copy, Debug)]
pub struct Adder {
    error: ErrorType,
    position: u8,
    input: Option<(ErrorType, ErrorType)>,
}

/// The multiplier of a neuron's datapath, with the same fault model as [`Adder`].
#[derive(Clone, Copy, Debug)]
pub struct Multiplier {
    error: ErrorType,
    position: u8,
    input: Option<(ErrorType, ErrorType)>,
}

/// What configures the faults of an arithmetic unit: the fault on its
/// output, the bit position, and the faults on its two inputs in input mode.
pub struct UnitFault {
    pub error: ErrorType,
    pub position: u8,
    pub input: Option<(ErrorType, ErrorType)>,
}

/// The operands that reach a unit's core: faulted one by one in input mode,
/// as given otherwise.
pub open spec fn faulted_operands(
    input: Option<(ErrorType, ErrorType)>,
    position: u8,
    a: u64,
    b: u64,
) -> (u64, u64) {
    match input {
        Some((e1, e2)) => (embed_spec(a, e1, position), embed_spec(b, e2, position)),
        None => (a, b),
    }
}

/// The value that leaves a unit whose core computed `raw`: faulted in output
/// mode, as computed in input mode.
pub open spec fn faulted_output(
    error: ErrorType,
    input: Option<(ErrorType, ErrorType)>,
    position: u8,
    raw: u64,
) -> u64 {
    match input {
        Some(_) => raw,
        None => embed_spec(raw, error, position),
    }
}

/// `a + b` through an adder configured by `u`.
pub open spec fn unit_add<F: Fpu>(u: UnitFault, fpu: F, a: u64, b: u64) -> u64 {
    let ops = faulted_operands(u.input, u.position, a, b);
    faulted_output(u.error, u.input, u.position, fpu.add_spec(ops.0, ops.1))
}

/// `a - b` through an adder configured by `u`.
pub open spec fn unit_sub<F: Fpu>(u: UnitFault, fpu: F, a: u64, b: u64) -> u64 {
    let ops = faulted_operands(u.input, u.position, a, b);
    faulted_output(u.error, u.input, u.position, fpu.sub_spec(ops.0, ops.1))
}

/// `a * b` through a multiplier configured by `u`.
pub open spec fn unit_mul<F: Fpu>(u: UnitFault, fpu: F, a: u64, b: u64) -> u64 {
    let ops = faulted_operands(u.input, u.position, a, b);
    faulted_output(u.error, u.input, u.position, fpu.mul_spec(ops.0, ops.1))
}

/// `a / b` through a multiplier configured by `u`.
pub open spec fn unit_div<F: Fpu>(u: UnitFault, fpu: F, a: u64, b: u64) -> u64 {
    let ops = faulted_operands(u.input, u.position, a, b);
    faulted_output(u.error, u.input, u.position, fpu.div_spec(ops.0, ops.1))
}

impl Adder {
    /// The fault configuration as a whole.
    pub open spec fn model(&self) -> UnitFault {
        UnitFault { error: self.output_error(), position: self.fault_position(), input: self.input_errors() }
    }

    /// The fault on the output.
    pub closed spec fn output_error(&self) -> ErrorType {
        self.error
    }

    /// The bit position of the fault, on the output or on the inputs.
    pub closed spec fn fault_position(&self) -> u8 {
        self.position
    }

    /// The faults on the two inputs, in input mode.
    pub closed spec fn input_errors(&self) -> Option<(ErrorType, ErrorType)> {
        self.input
    }

    /// The position is a bit of a 64-bit word, and input mode leaves the output
    /// clean.
    pub closed spec fn wf(&self) -> bool {
        &&& self.position < 64
        &&& self.input is Some ==> self.error == ErrorType::NoFault
    }

    /// Whether the adder computes without any fault.
    pub open spec fn fault_free(&self) -> bool {
        self.output_error() == ErrorType::NoFault && self.input_errors() is None
    }

    /// An adder with the fault of code `err` (see [`error_type_of`]) on bit `pos`
    /// of its output.
    pub fn new(err: i32, pos: u8) -> (r: Adder)
        requires
            valid_error_code(err as int),
            pos < 64,
        ensures
            r.wf(),
            r.output_error() == error_type_of(err as int),
            r.fault_position() == pos,
            r.input_errors() is None,
    {
        Adder { error: ErrorType::from_index(err), position: pos, input: None }
    }

    /// The operands as they reach the adder's core.
    pub fn operands(&self, a: u64, b: u64) -> (r: (u64, u64))
        requires
            self.wf(),
        ensures
            r == faulted_operands(self.input_errors(), self.fault_position(), a, b),
    {
        match self.input {
            Some((e1, e2)) => (embed_error(a, e1, self.position), embed_error(b, e2, self.position)),
            None => (a, b),
        }
    }

    /// The value that leaves the adder when its core computed `raw`.
    pub fn output(&self, raw: u64) -> (r: u64)
        requires
            self.wf(),
        ensures
            r == faulted_output(self.output_error(), self.input_errors(), self.fault_position(), raw),
    {
        match self.input {
            Some(_) => raw,
            None => embed_error(raw, self.error, self.position),
        }
    }

    /// `a + b` through the adder: its core adds the operands of
    /// [`Adder::operands`], and the sum leaves through [`Adder::output`].
    pub fn add<F: Fpu>(&self, fpu: &F, a: u64, b: u64) -> (r: u64)
        requires
            self.wf(),
        ensures
            r == unit_add(self.model(), *fpu, a, b),
    {
        let (x, y) = self.operands(a, b);
        let raw = fpu.add(x, y);
        self.output(raw)
    }

    /// `a - b` through the adder, faulted as [`Adder::add`] is.
    pub fn sub<F: Fpu>(&self, fpu: &F, a: u64, b: u64) -> (r: u64)
        requires
            self.wf(),
        ensures
            r == unit_sub(self.model(), *fpu, a, b),
    {
        let (x, y) = self.operands(a, b);
        let raw = fpu.sub(x, y);
        self.output(raw)
    }

    /// Puts the fault of code `err` on bit `pos` of the output, and clears any
    /// input fault.
    pub fn set_params(&mut self, err: i32, pos: u8)
        requires
            valid_error_code(err as int),
            pos < 64,
        ensures
            final(self).wf(),
            final(self).output_error() == error_type_of(err as int),
            final(self).fault_position() == pos,
            final(self).input_errors() is None,
    {
        self.position = pos;
        self.error = ErrorType::from_index(err);
        self.input = None;
    }

    /// Puts the faults of codes `err_input1` and `err_input2` on bit `pos` of the
    /// first and second input, and clears any output fault.
    pub fn set_params_input(&mut self, pos: u8, err_input1: i32, err_input2: i32)
        requires
            valid_error_code(err_input1 as int),
            valid_error_code(err_input2 as int),
            pos < 64,
        ensures
            final(self).wf(),
            final(self).output_error() == ErrorType::NoFault,
            final(self).fault_position() == pos,
            final(self).input_errors() == Some(
                (error_type_of(err_input1 as int), error_type_of(err_input2 as int)),
            ),
    {
        self.position = pos;
        self.error = ErrorType::NoFault;
        self.input = Some((ErrorType::from_index(err_input1), ErrorType::from_index(err_input2)));
    }
}

impl Multiplier {
    /// The fault configuration as a whole.
    pub open spec fn model(&self) -> UnitFault {
        UnitFault { error: self.output_error(), position: self.fault_position(), input: self.input_errors() }
    }

    /// The fault on the output.
    pub closed spec fn output_error(&self) -> ErrorType {
        self.error
    }

    /// The bit position of the fault, on the output or on the inputs.
    pub closed spec fn fault_position(&self) -> u8 {
        self.position
    }

    /// The faults on the two inputs, in input mode.
    pub closed spec fn input_errors(&self) -> Option<(ErrorType, ErrorType)> {
        self.input
    }

    /// The position is a bit of a 64-bit word, and input mode leaves the output
    /// clean.
    pub closed spec fn wf(&self) -> bool {
        &&& self.position < 64
        &&& self.input is Some ==> self.error == ErrorType::NoFault
    }

    /// Whether the multiplier computes without any fault.
    pub open spec fn fault_free(&self) -> bool {
        self.output_error() == ErrorType::NoFault && self.input_errors() is None
    }

    /// A multiplier with the fault of code `err` (see [`error_type_of`]) on bit `pos`
    /// of its output.
    pub fn new(err: i32, pos: u8) -> (r: Multiplier)
        requires
            valid_error_code(err as int),
            pos < 64,
        ensures
            r.wf(),
            r.output_error() == error_type_of(err as int),
            r.fault_position() == pos,
            r.input_errors() is None,
    {
        Multiplier { error: ErrorType::from_index(err), position: pos, input: None }
    }

    /// The operands as they reach the multiplier's core.
    pub fn operands(&self, a: u64, b: u64) -> (r: (u64, u64))
        requires
            self.wf(),
        ensures
            r == faulted_operands(self.input_errors(), self.fault_position(), a, b),
    {
        match self.input {
            Some((e1, e2)) => (embed_error(a, e1, self.position), embed_error(b, e2, self.position)),
            None => (a, b),
        }
    }

    /// The value that leaves the multiplier when its core computed `raw`.
    pub fn output(&self, raw: u64) -> (r: u64)
        requires
            self.wf(),
        ensures
            r == faulted_output(self.output_error(), self.input_errors(), self.fault_position(), raw),
    {
        match self.input {
            Some(_) => raw,
            None => embed_error(raw, self.error, self.position),
        }
    }

    /// `a * b` through the multiplier: its core multiplies the operands of
    /// [`Multiplier::operands`], and the product leaves through
    /// [`Multiplier::output`].
    pub fn mul<F: Fpu>(&self, fpu: &F, a: u64, b: u64) -> (r: u64)
        requires
            self.wf(),
        ensures
            r == unit_mul(self.model(), *fpu, a, b),
    {
        let (x, y) = self.operands(a, b);
        let raw = fpu.mul(x, y);
        self.output(raw)
    }

    /// `a / b` through the multiplier, faulted as [`Multiplier::mul`] is.
    pub fn div<F: Fpu>(&self, fpu: &F, a: u64, b: u64) -> (r: u64)
        requires
            self.wf(),
        ensures
            r == unit_div(self.model(), *fpu, a, b),
    {
        let (x, y) = self.operands(a, b);
        let raw = fpu.div(x, y);
        self.output(raw)
    }

    /// Puts the fault of code `err` on bit `pos` of the output, and clears any
    /// input fault.
    pub fn set_params(&mut self, err: i32, pos: u8)
        requires
            valid_error_code(err as int),
            pos < 64,
        ensures
            final(self).wf(),
            final(self).output_error() == error_type_of(err as int),
            final(self).fault_position() == pos,
            final(self).input_errors() is None,
    {
        self.position = pos;
        self.error = ErrorType::from_index(err);
        self.input = None;
    }

    /// Puts the faults of codes `err_input1` and `err_input2` on bit `pos` of the
    /// first and second input, and clears any output fault.
    pub fn set_params_input(&mut self, pos: u8, err_input1: i32, err_input2: i32)
        requires
            valid_error_code(err_input1 as int),
            valid_error_code(err_input2 as int),
            pos < 64,
        ensures
            final(self).wf(),
            final(self).output_error() == ErrorType::NoFault,
            final(self).fault_position() == pos,
            final(self).input_errors() == Some(
                (error_type_of(err_input1 as int), error_type_of(err_input2 as int)),
            ),
    {
        self.position = pos;
        self.error = ErrorType::NoFault;
        self.input = Some((ErrorType::from_index(err_input1), ErrorType::from_index(err_input2)));
    }
}

} // verus!
