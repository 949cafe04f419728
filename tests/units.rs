use snn_faults::components::{Adder, Multiplier};
use snn_faults::float::Fpu;

struct Hardware;

impl Fpu for Hardware {
    fn add_spec(&self, a: u64, b: u64) -> u64 {
        (f64::from_bits(a) + f64::from_bits(b)).to_bits()
    }
    fn sub_spec(&self, a: u64, b: u64) -> u64 {
        (f64::from_bits(a) - f64::from_bits(b)).to_bits()
    }
    fn mul_spec(&self, a: u64, b: u64) -> u64 {
        (f64::from_bits(a) * f64::from_bits(b)).to_bits()
    }
    fn div_spec(&self, a: u64, b: u64) -> u64 {
        (f64::from_bits(a) / f64::from_bits(b)).to_bits()
    }
    fn exp_spec(&self, a: u64) -> u64 {
        f64::from_bits(a).exp().to_bits()
    }
    fn from_u64_spec(&self, t: u64) -> u64 {
        (t as f64).to_bits()
    }
    fn add(&self, a: u64, b: u64) -> u64 {
        self.add_spec(a, b)
    }
    fn sub(&self, a: u64, b: u64) -> u64 {
        self.sub_spec(a, b)
    }
    fn mul(&self, a: u64, b: u64) -> u64 {
        self.mul_spec(a, b)
    }
    fn div(&self, a: u64, b: u64) -> u64 {
        self.div_spec(a, b)
    }
    fn exp(&self, a: u64) -> u64 {
        self.exp_spec(a)
    }
    fn from_u64(&self, t: u64) -> u64 {
        self.from_u64_spec(t)
    }
}

fn b(x: f64) -> u64 {
    x.to_bits()
}

fn f(x: u64) -> f64 {
    f64::from_bits(x)
}

#[test]
fn fault_free_units_compute_plainly() {
    let a = Adder::new(3, 0);
    let m = Multiplier::new(3, 0);
    assert_eq!(f(a.add(&Hardware, b(1.5), b(2.25))), 3.75);
    assert_eq!(f(a.sub(&Hardware, b(1.5), b(2.25))), -0.75);
    assert_eq!(f(m.mul(&Hardware, b(1.5), b(2.0))), 3.0);
    assert_eq!(f(m.div(&Hardware, b(3.0), b(2.0))), 1.5);
}

#[test]
fn output_fault_hits_the_result() {
    let a = Adder::new(1, 63);
    assert_eq!(f(a.add(&Hardware, b(1.0), b(2.0))), -3.0);
    let mut m = Multiplier::new(3, 0);
    m.set_params(1, 63);
    assert_eq!(f(m.mul(&Hardware, b(2.0), b(2.0))), -4.0);
    assert_eq!(f(m.div(&Hardware, b(2.0), b(2.0))), -1.0);
}

#[test]
fn input_faults_are_independent() {
    let mut a = Adder::new(3, 0);
    // Sign bit stuck at 1 on the first input only.
    a.set_params_input(63, 1, 3);
    assert_eq!(a.operands(b(1.0), b(2.0)), (b(-1.0), b(2.0)));
    assert_eq!(f(a.add(&Hardware, b(1.0), b(2.0))), 1.0);
    // On the second input only.
    a.set_params_input(63, 3, 1);
    assert_eq!(f(a.add(&Hardware, b(1.0), b(2.0))), -1.0);
    // On both.
    a.set_params_input(63, 1, 1);
    assert_eq!(f(a.add(&Hardware, b(1.0), b(2.0))), -3.0);
    assert_eq!(f(a.sub(&Hardware, b(1.0), b(2.0))), 1.0);
}

#[test]
fn modes_exclude_each_other() {
    let mut a = Adder::new(1, 63);
    a.set_params_input(63, 3, 3);
    // The output fault is gone.
    assert_eq!(f(a.add(&Hardware, b(1.0), b(2.0))), 3.0);
    a.set_params(3, 0);
    assert_eq!(a.operands(b(1.0), b(2.0)), (b(1.0), b(2.0)));
    let mut m = Multiplier::new(3, 0);
    m.set_params_input(63, 1, 3);
    m.set_params(3, 0);
    // The input fault is gone.
    assert_eq!(f(m.mul(&Hardware, b(2.0), b(3.0))), 6.0);
}

#[test]
fn output_in_input_mode_is_untouched() {
    let mut m = Multiplier::new(3, 0);
    m.set_params_input(0, 2, 2);
    assert_eq!(m.output(b(7.0)), b(7.0));
    assert_eq!(m.operands(b(7.0), b(7.0)), (b(7.0) ^ 1, b(7.0) ^ 1));
}
