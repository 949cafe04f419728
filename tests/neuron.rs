use snn_faults::components::{Adder, Multiplier};
use snn_faults::float::Fpu;
use snn_faults::neuron::{membrane_fault, threshold_fault, ErrorBit, LIFNeuron};

struct Hardware;

impl Fpu for Hardware {
    fn add_spec(&self, a: u64, b: u64) -> u64 {
        (f64::from_bits(a) + f64::from_bits(b)).to_bits()
    }
    fn sub_spec(&self, a: u64, b: u64) -> u64 {
        (f64::from_bits(a) - f64::from_bits(b)).to_bits()
    }
    fn mul_spec(&self, a: u64, b: u64) -> u64 {
        (f64::from_bits(a) * f64::from_bits(b)).to_bits()
    }
    fn div_spec(&self, a: u64, b: u64) -> u64 {
        (f64::from_bits(a) / f64::from_bits(b)).to_bits()
    }
    fn exp_spec(&self, a: u64) -> u64 {
        f64::from_bits(a).exp().to_bits()
    }
    fn from_u64_spec(&self, t: u64) -> u64 {
        (t as f64).to_bits()
    }
    fn add(&self, a: u64, b: u64) -> u64 {
        self.add_spec(a, b)
    }
    fn sub(&self, a: u64, b: u64) -> u64 {
        self.sub_spec(a, b)
    }
    fn mul(&self, a: u64, b: u64) -> u64 {
        self.mul_spec(a, b)
    }
    fn div(&self, a: u64, b: u64) -> u64 {
        self.div_spec(a, b)
    }
    fn exp(&self, a: u64) -> u64 {
        self.exp_spec(a)
    }
    fn from_u64(&self, t: u64) -> u64 {
        self.from_u64_spec(t)
    }
}

fn b(x: f64) -> u64 {
    x.to_bits()
}

fn f(x: u64) -> f64 {
    f64::from_bits(x)
}

fn neuron(v_th: f64, v_rest: f64, v_reset: f64) -> LIFNeuron {
    LIFNeuron::new(b(v_th), b(v_rest), b(v_reset), b(1.0), b(1.0))
}

fn units() -> (Adder, Multiplier) {
    (Adder::new(3, 0), Multiplier::new(3, 0))
}

#[test]
fn new_neuron_is_at_rest() {
    let n = LIFNeuron::new(b(0.3), b(0.05), b(0.1), b(2.0), b(0.5));
    assert_eq!(f(n.get_th()), 0.3);
    assert_eq!(f(n.v_rest()), 0.05);
    assert_eq!(f(n.v_reset()), 0.1);
    assert_eq!(f(n.tau()), 2.0);
    assert_eq!(f(n.d_t()), 0.5);
    assert_eq!(f(n.v_mem()), 0.05);
    assert_eq!(n.t_s(), 0);
    let e = ErrorBit::new(1, 4);
    assert_eq!((e.error_type, e.position), (1, 4));
}

#[test]
fn fires_above_threshold_and_resets() {
    let (a, m) = units();
    let mut n = neuron(0.5, 0.0, 0.25);
    assert_eq!(n.update_v_mem(&Hardware, 0, b(0.0), b(1.0), a, m), 1);
    assert_eq!(f(n.v_mem()), 0.25);
    assert_eq!(n.t_s(), 0);
}

#[test]
fn integrates_with_leak() {
    let (a, m) = units();
    let mut n = neuron(10.0, 0.0, 0.0);
    assert_eq!(n.update_v_mem(&Hardware, 0, b(0.0), b(1.0), a, m), 0);
    assert_eq!(f(n.v_mem()), 1.0);
    assert_eq!(n.update_v_mem(&Hardware, 2, b(-0.5), b(1.0), a, m), 0);
    assert_eq!(f(n.v_mem()), (-2.0f64).exp() + 0.5);
    assert_eq!(n.t_s(), 2);
}

#[test]
fn settle_compares_after_forcing_the_stuck_bit() {
    let mut n = neuron(0.5, 0.0, 0.0);
    n.set_membrane_error(1, 63);
    // 1.0 reads as -1.0 on a line with the sign stuck at 1: no spike.
    assert_eq!(n.settle(3, b(1.0)), 0);
    assert_eq!(f(n.v_mem()), -1.0);
    assert_eq!(n.t_s(), 3);
    let mut k = neuron(0.5, 0.0, 0.0);
    assert_eq!(k.settle(1, b(f64::NAN)), 0);
}

#[test]
fn sign_bit_stuck_at_one_is_never_positive() {
    let (a, m) = units();
    let mut n = neuron(-100.0, 0.0, 0.0);
    n.set_membrane_error(1, 63);
    for t in 0..5u64 {
        n.update_v_mem(&Hardware, t, b(0.0), b(2.0), a, m);
        let v = f(n.get_mem());
        assert!(v.is_sign_negative());
        assert!(!(v > 0.0));
    }
    n.set_mem(b(7.0));
    assert_eq!(f(n.get_mem()), -7.0);
}

#[test]
fn sign_bit_stuck_at_zero_is_never_negative() {
    let (a, m) = units();
    let mut n = neuron(100.0, 0.0, 0.0);
    membrane_fault(&mut n, 0, 63);
    for t in 0..5u64 {
        n.update_v_mem(&Hardware, t, b(-3.0), b(0.0), a, m);
        let v = f(n.get_mem());
        assert!(!(v < 0.0));
    }
}

#[test]
fn transient_membrane_flip_is_applied_once() {
    let mut n = neuron(0.5, 0.25, 0.0);
    membrane_fault(&mut n, 2, 63);
    assert_eq!(f(n.get_mem()), -0.25);
    let (a, m) = units();
    n.update_v_mem(&Hardware, 0, b(0.0), b(0.0), a, m);
    // No stuck line remains: the potential is what the datapath computed.
    assert_eq!(f(n.get_mem()), 0.25 + (-0.25 - 0.25));
}

#[test]
fn threshold_fault_applies_once() {
    let mut n = neuron(0.5, 0.0, 0.0);
    threshold_fault(&mut n, 1, 63);
    assert_eq!(f(n.get_th()), -0.5);
    let (a, m) = units();
    // Threshold -0.5: a potential of 0.0 fires.
    assert_eq!(n.update_v_mem(&Hardware, 0, b(0.0), b(0.0), a, m), 1);
}

#[test]
fn init_clears_state_and_fault() {
    let (a, m) = units();
    let mut n = neuron(10.0, 0.125, 0.0);
    n.set_membrane_error(1, 63);
    n.update_v_mem(&Hardware, 4, b(0.0), b(1.0), a, m);
    n.init_neuron();
    assert_eq!(f(n.v_mem()), 0.125);
    assert_eq!(n.t_s(), 0);
    n.set_mem(b(2.0));
    assert_eq!(f(n.get_mem()), 2.0);
}
