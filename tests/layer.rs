use snn_faults::components::{Adder, Multiplier};
use snn_faults::event::Evento;
use snn_faults::float::Fpu;
use snn_faults::layer::{select_active, sum_of, Layer, TransientError};
use snn_faults::neuron::LIFNeuron;

struct Hardware;

impl Fpu for Hardware {
    fn add_spec(&self, a: u64, b: u64) -> u64 {
        (f64::from_bits(a) + f64::from_bits(b)).to_bits()
    }
    fn sub_spec(&self, a: u64, b: u64) -> u64 {
        (f64::from_bits(a) - f64::from_bits(b)).to_bits()
    }
    fn mul_spec(&self, a: u64, b: u64) -> u64 {
        (f64::from_bits(a) * f64::from_bits(b)).to_bits()
    }
    fn div_spec(&self, a: u64, b: u64) -> u64 {
        (f64::from_bits(a) / f64::from_bits(b)).to_bits()
    }
    fn exp_spec(&self, a: u64) -> u64 {
        f64::from_bits(a).exp().to_bits()
    }
    fn from_u64_spec(&self, t: u64) -> u64 {
        (t as f64).to_bits()
    }
    fn add(&self, a: u64, b: u64) -> u64 {
        self.add_spec(a, b)
    }
    fn sub(&self, a: u64, b: u64) -> u64 {
        self.sub_spec(a, b)
    }
    fn mul(&self, a: u64, b: u64) -> u64 {
        self.mul_spec(a, b)
    }
    fn div(&self, a: u64, b: u64) -> u64 {
        self.div_spec(a, b)
    }
    fn exp(&self, a: u64) -> u64 {
        self.exp_spec(a)
    }
    fn from_u64(&self, t: u64) -> u64 {
        self.from_u64_spec(t)
    }
}

fn b(x: f64) -> u64 {
    x.to_bits()
}

fn f(x: u64) -> f64 {
    f64::from_bits(x)
}

fn layer() -> Layer {
    let n = || LIFNeuron::new(b(0.5), b(0.0), b(0.0), b(1.0), b(1.0));
    Layer::new(
        vec![n(), n()],
        vec![vec![b(0.25), b(0.5)], vec![b(1.0), b(2.0)]],
        vec![vec![b(0.0), b(-1.0)], vec![b(-0.5), b(0.0)]],
    )
}

fn units() -> (Adder, Multiplier) {
    (Adder::new(3, 0), Multiplier::new(3, 0))
}

#[test]
fn new_layer_has_quiet_history() {
    let l = layer();
    assert_eq!(l.prev_output(), &vec![0, 0]);
    assert!(l.transient_error().is_none());
    assert_eq!(l.neurons().len(), 2);
    assert_eq!(l.weights()[1], vec![b(1.0), b(2.0)]);
    assert_eq!(l.intra_weights()[1], vec![b(-0.5), b(0.0)]);
}

#[test]
fn active_weights_follow_the_spikes() {
    let row = vec![b(1.0), b(2.0), b(3.0), b(4.0)];
    assert_eq!(select_active(&row, &vec![1, 0, 1, 1], None), vec![b(1.0), b(3.0), b(4.0)]);
    assert_eq!(select_active(&row, &vec![1, 0, 1, 1], Some(2)), vec![b(1.0), b(4.0)]);
    assert_eq!(select_active(&row, &vec![0, 0, 0, 0], None), Vec::<u64>::new());
    assert_eq!(f(sum_of(&Hardware, &vec![b(1.0), b(3.0), b(4.0)])), 8.0);
    assert_eq!(sum_of(&Hardware, &vec![]), b(0.0));
}

#[test]
fn step_sums_inputs_and_previous_spikes() {
    let mut l = layer();
    let (a, m) = units();
    // Neuron 0 gets 0.25 (below threshold), neuron 1 gets 1.0 and fires.
    let out = l.process_event(&Hardware, a, m, &Evento::new(0, vec![1, 0]));
    assert_eq!(out.ts, 0);
    assert_eq!(out.spikes, vec![0, 1]);
    assert_eq!(l.prev_output(), &vec![0, 1]);
    assert_eq!(f(l.neurons()[0].v_mem()), 0.25);
    // Neuron 0 now also gets -1.0 from neuron 1's spike.
    let out = l.process_event(&Hardware, a, m, &Evento::new(1, vec![0, 1]));
    assert_eq!(out.spikes, vec![0, 1]);
    assert_eq!(f(l.neurons()[0].v_mem()), 0.25 * (-1.0f64).exp() + (-1.0 + 0.5));
}

#[test]
fn transient_threshold_flip_fires_once_at_its_time() {
    let mut l = layer();
    let (a, m) = units();
    l.set_transient_error(0, 0, 63, 1, (3, 3), 0);
    assert!(l.check_transient_error(0, a, m).is_none());
    assert_eq!(f(l.neurons()[0].get_th()), 0.5);
    assert!(l.check_transient_error(1, a, m).is_none());
    assert_eq!(f(l.neurons()[0].get_th()), -0.5);
    let e: TransientError = l.transient_error().unwrap();
    assert_eq!((e.neuron, e.component, e.position, e.time), (0, 0, 63, 1));
}

#[test]
fn transient_membrane_flip() {
    let mut l = layer();
    let (a, m) = units();
    let _ = l.process_event(&Hardware, a, m, &Evento::new(0, vec![1, 0]));
    l.set_transient_error(0, 1, 63, 1, (3, 3), 0);
    assert!(l.check_transient_error(1, a, m).is_none());
    assert_eq!(f(l.neurons()[0].get_mem()), -0.25);
}

#[test]
fn transient_weight_flips_hit_the_chosen_cell() {
    let mut l = layer();
    let (a, m) = units();
    l.set_transient_error(1, 2, 63, 0, (3, 3), 1);
    assert!(l.check_transient_error(0, a, m).is_none());
    assert_eq!(l.weights()[1], vec![b(1.0), b(-2.0)]);
    l.set_transient_error(0, 3, 63, 0, (3, 3), 1);
    assert!(l.check_transient_error(0, a, m).is_none());
    assert_eq!(l.intra_weights()[0], vec![b(0.0), b(1.0)]);
}

#[test]
fn transient_unit_faults_give_faulted_copies() {
    let mut l = layer();
    let (a, m) = units();
    l.set_transient_error(0, 4, 63, 2, (3, 3), 0);
    let (fa, fm) = l.check_transient_error(2, a, m).unwrap();
    assert_eq!(f(fa.add(&Hardware, b(1.0), b(1.0))), -2.0);
    assert_eq!(f(fm.mul(&Hardware, b(1.0), b(1.0))), 1.0);
    l.set_transient_error(0, 5, 63, 2, (2, 3), 0);
    let (fa, _) = l.check_transient_error(2, a, m).unwrap();
    assert_eq!(f(fa.add(&Hardware, b(1.0), b(3.0))), 2.0);
    l.set_transient_error(0, 6, 63, 2, (3, 3), 0);
    let (fa, fm) = l.check_transient_error(2, a, m).unwrap();
    assert_eq!(f(fa.add(&Hardware, b(1.0), b(1.0))), 2.0);
    assert_eq!(f(fm.div(&Hardware, b(1.0), b(4.0))), -0.25);
    l.set_transient_error(0, 7, 63, 2, (3, 2), 0);
    let (_, fm) = l.check_transient_error(2, a, m).unwrap();
    assert_eq!(f(fm.mul(&Hardware, b(3.0), b(2.0))), -6.0);
    // The baseline units stay fault-free.
    assert_eq!(f(a.add(&Hardware, b(1.0), b(1.0))), 2.0);
    assert!(l.check_transient_error(3, a, m).is_none());
}

#[test]
fn init_layer_forgets_history() {
    let mut l = layer();
    let (a, m) = units();
    let _ = l.process_event(&Hardware, a, m, &Evento::new(0, vec![1, 1]));
    assert_eq!(l.prev_output(), &vec![1, 1]);
    l.init_layer();
    assert_eq!(l.prev_output(), &vec![0, 0]);
    assert_eq!(l.neurons()[0].t_s(), 0);
    assert_eq!(f(l.neurons()[1].v_mem()), 0.0);
}
