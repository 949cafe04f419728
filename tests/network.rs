use snn_faults::builder::{generate_input_error, SnnBuilder};
use snn_faults::float::Fpu;
use snn_faults::network::{spikes_from_events, spikes_to_events, SnnError, SNN};
use snn_faults::event::Evento;
use snn_faults::neuron::LIFNeuron;
use snn_faults::report::{calculate_accuracy, faulted_inputs, from_index_to_str_component, from_index_to_str_error};

struct Hardware;

impl Fpu for Hardware {
    fn add_spec(&self, a: u64, b: u64) -> u64 {
        (f64::from_bits(a) + f64::from_bits(b)).to_bits()
    }
    fn sub_spec(&self, a: u64, b: u64) -> u64 {
        (f64::from_bits(a) - f64::from_bits(b)).to_bits()
    }
    fn mul_spec(&self, a: u64, b: u64) -> u64 {
        (f64::from_bits(a) * f64::from_bits(b)).to_bits()
    }
    fn div_spec(&self, a: u64, b: u64) -> u64 {
        (f64::from_bits(a) / f64::from_bits(b)).to_bits()
    }
    fn exp_spec(&self, a: u64) -> u64 {
        f64::from_bits(a).exp().to_bits()
    }
    fn from_u64_spec(&self, t: u64) -> u64 {
        (t as f64).to_bits()
    }
    fn add(&self, a: u64, b: u64) -> u64 {
        self.add_spec(a, b)
    }
    fn sub(&self, a: u64, b: u64) -> u64 {
        self.sub_spec(a, b)
    }
    fn mul(&self, a: u64, b: u64) -> u64 {
        self.mul_spec(a, b)
    }
    fn div(&self, a: u64, b: u64) -> u64 {
        self.div_spec(a, b)
    }
    fn exp(&self, a: u64) -> u64 {
        self.exp_spec(a)
    }
    fn from_u64(&self, t: u64) -> u64 {
        self.from_u64_spec(t)
    }
}

fn m(rows: &[&[f64]]) -> Vec<Vec<u64>> {
    rows.iter().map(|r| r.iter().map(|x| x.to_bits()).collect()).collect()
}

fn lif(v_th: f64, v_rest: f64, v_reset: f64, tau: f64, d_t: f64) -> LIFNeuron {
    LIFNeuron::new(v_th.to_bits(), v_rest.to_bits(), v_reset.to_bits(), tau.to_bits(), d_t.to_bits())
}

/// One layer of two neurons over one input, inhibiting each other.
fn small_builder() -> SnnBuilder {
    let mut b = SnnBuilder::new();
    b.add_layer();
    b.add_weight(m(&[&[1.0], &[1.0]])).unwrap();
    b.add_neurons(vec![lif(0.5, 0.0, 0.0, 1.0, 1.0), lif(0.5, 0.0, 0.0, 1.0, 1.0)]);
    b.add_intra_weights(m(&[&[0.0, -1.0], &[-1.0, 0.0]])).unwrap();
    b
}

/// The four-layer network of the command-line program.
fn deep_builder() -> SnnBuilder {
    let mut b = SnnBuilder::new();
    b.add_layer();
    b.add_weight(m(&[&[0.1, 0.2], &[0.3, 0.4], &[0.5, 0.6]])).unwrap();
    b.add_neurons(vec![
        lif(0.03, 0.05, 0.1, 1.0, 1.0),
        lif(0.05, 0.05, 0.1, 1.0, 1.0),
        lif(0.09, 0.05, 0.1, 1.0, 1.0),
    ]);
    b.add_intra_weights(m(&[&[0.0, -0.25, -0.3], &[-0.10, 0.0, -0.3], &[-0.1, -0.3, 0.0]])).unwrap();
    b.add_layer();
    b.add_weight(m(&[&[0.1, 0.2, 0.3], &[0.4, 0.5, 0.6]])).unwrap();
    b.add_neurons(vec![lif(0.07, 0.04, 0.4, 1.0, 1.0), lif(0.3, 0.01, 0.4, 1.0, 1.0)]);
    b.add_intra_weights(m(&[&[0.0, -0.25], &[-0.10, 0.0]])).unwrap();
    b.add_layer();
    b.add_weight(m(&[&[0.1, 0.2], &[0.3, 0.4], &[0.5, 0.6]])).unwrap();
    b.add_neurons(vec![
        lif(0.03, 0.01, 0.1, 1.0, 1.0),
        lif(0.05, 0.03, 0.2, 1.0, 1.0),
        lif(0.09, 0.06, 0.4, 1.0, 1.0),
    ]);
    b.add_intra_weights(m(&[&[0.0, -0.25, -0.3], &[-0.10, 0.0, -0.3], &[-0.1, -0.3, 0.0]])).unwrap();
    b.add_layer();
    b.add_weight(m(&[&[0.1, 0.2, 0.3], &[0.4, 0.5, 0.6]])).unwrap();
    b.add_neurons(vec![lif(0.07, 0.01, 0.2, 1.0, 1.0), lif(0.03, 0.08, 0.3, 1.0, 1.0)]);
    b.add_intra_weights(m(&[&[0.0, -0.25], &[-0.10, 0.0]])).unwrap();
    b
}

fn deep_input() -> Vec<Vec<u8>> {
    vec![vec![0, 1], vec![0, 0], vec![1, 1], vec![1, 0], vec![0, 1], vec![0, 1]]
}

#[test]
fn two_neurons_example_output() {
    let mut snn = small_builder().build(&vec![], -1, 1, 2).unwrap();
    let out = snn.process(&Hardware, &vec![vec![1], vec![0]]).unwrap();
    assert_eq!(out, vec![vec![1, 1], vec![0, 0]]);
    let n = &snn.layers()[0].neurons()[0];
    assert_eq!(f64::from_bits(n.v_mem()), -1.0);
    assert_eq!(n.t_s(), 1);
    assert_eq!(snn.layers()[0].prev_output(), &vec![0, 0]);
}

#[test]
fn recurrent_inhibition_uses_previous_output() {
    let mut snn = small_builder().build(&vec![], -1, 1, 2).unwrap();
    // Input stays on: the sibling's spike of the step before inhibits by -1.
    let out = snn.process(&Hardware, &vec![vec![1], vec![1], vec![1]]).unwrap();
    assert_eq!(out, vec![vec![1, 1], vec![0, 0], vec![1, 1]]);
}

#[test]
fn fault_free_runs_are_identical() {
    let builder = deep_builder();
    let mut first = builder.clone();
    let mut snn1 = first.build(&vec![], -1, 2, 2).unwrap();
    let mut second = builder.clone();
    let mut snn2 = second.build(&vec![], -1, 2, 2).unwrap();
    let a = snn1.process(&Hardware, &deep_input()).unwrap();
    let b = snn2.process(&Hardware, &deep_input()).unwrap();
    assert_eq!(a, b);
    assert_eq!(a.len(), 6);
    assert!(a.iter().all(|row| row.len() == 2 && row.iter().all(|&s| s <= 1)));
    assert!(snn1.fault().is_none());
}

#[test]
fn empty_network_passes_input_through() {
    let mut snn = SnnBuilder::new().build(&vec![], -1, 3, 3).unwrap();
    let input = vec![vec![0, 1, 1], vec![1, 0, 0]];
    assert_eq!(snn.process(&Hardware, &input).unwrap(), input);
}

#[test]
fn negative_inbound_weight_is_refused() {
    let mut b = SnnBuilder::new();
    assert_eq!(b.add_weight(m(&[&[0.1, -0.2]])), Err(SnnError::NegativeWeight));
    assert_eq!(b.add_weight(m(&[&[0.1], &[f64::NAN]])), Err(SnnError::NegativeWeight));
    assert_eq!(b.add_weight(m(&[&[0.0, -0.0, f64::INFINITY]])), Ok(()));
}

#[test]
fn positive_intra_weight_is_refused() {
    let mut b = SnnBuilder::new();
    assert_eq!(b.add_intra_weights(m(&[&[0.0, 0.3], &[-0.1, 0.0]])), Err(SnnError::PositiveIntraWeight));
    assert_eq!(b.add_intra_weights(m(&[&[0.0, -0.3], &[f64::NAN, 0.0]])), Err(SnnError::PositiveIntraWeight));
    assert_eq!(b.add_intra_weights(m(&[&[0.0, -0.3], &[-0.1, 0.0]])), Ok(()));
    // The diagonal is not used, and not constrained.
    assert_eq!(b.add_intra_weights(m(&[&[0.7, -0.3], &[-0.1, f64::NAN]])), Ok(()));
}

#[test]
fn mismatched_layers_are_refused() {
    let mut b = small_builder();
    assert!(matches!(b.build(&vec![], -1, 2, 2), Err(SnnError::LayerMismatch)));
    assert!(matches!(b.build(&vec![], -1, 1, 3), Err(SnnError::LayerMismatch)));
    let mut c = small_builder();
    c.add_neurons(vec![lif(0.5, 0.0, 0.0, 1.0, 1.0)]);
    assert!(matches!(c.build(&vec![], -1, 1, 1), Err(SnnError::LayerMismatch)));
}

#[test]
fn invalid_fault_codes_are_refused() {
    let mut b = small_builder();
    assert!(matches!(b.build(&vec![8], 0, 1, 2), Err(SnnError::InvalidFaultConfig)));
    assert!(matches!(b.build(&vec![0], 3, 1, 2), Err(SnnError::InvalidFaultConfig)));
    assert!(matches!(b.build(&vec![0, -1], 1, 1, 2), Err(SnnError::InvalidFaultConfig)));
}

#[test]
fn fault_without_a_site_is_refused() {
    let mut b = SnnBuilder::new();
    assert!(matches!(b.build(&vec![0], 0, 2, 2), Err(SnnError::NoFaultSite)));
}

#[test]
fn invalid_input_is_refused() {
    let mut snn = small_builder().build(&vec![], -1, 1, 2).unwrap();
    assert!(matches!(snn.process(&Hardware, &vec![vec![2]]), Err(SnnError::InvalidInput)));
    assert!(matches!(snn.process(&Hardware, &vec![vec![1, 0]]), Err(SnnError::InvalidInput)));
    assert!(matches!(spikes_to_events(&vec![vec![0, 1], vec![1, 7]], 2), Err(SnnError::InvalidInput)));
}

#[test]
fn events_round_trip() {
    let input = vec![vec![0, 1, 1], vec![1, 0, 1]];
    let events = spikes_to_events(&input, 3).unwrap();
    assert_eq!(events.len(), 2);
    assert_eq!(events[1].ts, 1);
    assert_eq!(events[1].spikes, vec![1, 0, 1]);
    assert_eq!(spikes_from_events(events, 3, 2).unwrap(), input);
}

#[test]
fn bad_output_events_are_refused() {
    let short = vec![Evento::new(0, vec![1, 0])];
    assert!(matches!(spikes_from_events(short, 2, 2), Err(SnnError::InvalidOutput)));
    let wide = vec![Evento::new(0, vec![1, 0, 1])];
    assert!(matches!(spikes_from_events(wide, 2, 1), Err(SnnError::InvalidOutput)));
    let late = vec![Evento::new(1, vec![1, 0])];
    assert!(matches!(spikes_from_events(late, 2, 1), Err(SnnError::InvalidOutput)));
}

#[test]
fn drawn_faults_fit_the_network() {
    for kind in 0..3 {
        for _ in 0..50 {
            let mut b = deep_builder();
            let snn = b.build(&vec![0, 1, 2, 3, 4, 5, 6, 7], kind, 2, 2).unwrap();
            let f = snn.fault().unwrap();
            assert!((0..8).contains(&f.component));
            assert_eq!(f.error_type, kind);
            assert!(f.position < 64);
            assert!(f.layer < 4);
            let n = snn.layers()[f.layer].neurons().len();
            assert!(f.neuron < n);
            if f.component == 2 {
                assert!(f.weight_index < snn.layers()[f.layer].weights()[f.neuron].len());
            }
            if f.component == 3 {
                assert!(f.weight_index < n);
            }
            let sides = [(kind, 3), (3, kind), (kind, kind)];
            assert!(sides.contains(&f.input_errors));
        }
    }
}

#[test]
fn drawn_component_comes_from_the_list() {
    for _ in 0..50 {
        let mut b = deep_builder();
        let snn = b.build(&vec![2, 3], 1, 2, 2).unwrap();
        let c = snn.fault().unwrap().component;
        assert!(c == 2 || c == 3);
    }
}

#[test]
fn stuck_threshold_is_written_into_the_network() {
    for _ in 0..20 {
        let mut b = small_builder();
        let snn = b.build(&vec![0], 1, 1, 2).unwrap();
        let f = snn.fault().unwrap();
        let th = snn.layers()[f.layer].neurons()[f.neuron].get_th();
        assert_eq!(th, 0.5f64.to_bits() | (1u64 << f.position));
        // The fault was written into the builder itself.
        let again = b.build(&vec![], -1, 1, 2).unwrap();
        assert_eq!(again.layers()[f.layer].neurons()[f.neuron].get_th(), th);
    }
}

#[test]
fn transient_fault_fires_inside_the_run() {
    for _ in 0..100 {
        let mut snn: SNN = deep_builder().build(&vec![0, 1, 2, 3, 4, 5, 6, 7], 2, 2, 2).unwrap();
        let f = snn.fault().unwrap();
        assert!(snn.layers()[f.layer].transient_error().is_none());
        let events = snn.prepare(&deep_input()).unwrap();
        assert_eq!(events.len(), 6);
        let e = snn.layers()[f.layer].transient_error().unwrap();
        assert!(e.time < 6);
        assert_eq!(e.neuron, f.neuron);
        assert_eq!(e.component, f.component);
    }
}

#[test]
fn faulted_run_keeps_output_shape() {
    for _ in 0..30 {
        let mut snn = deep_builder().build(&vec![0, 1, 2, 3, 4, 5, 6, 7], 2, 2, 2).unwrap();
        let out = snn.process(&Hardware, &deep_input()).unwrap();
        assert_eq!(out.len(), 6);
        assert!(out.iter().all(|row| row.len() == 2 && row.iter().all(|&s| s <= 1)));
    }
}

#[test]
fn input_error_choices() {
    assert_eq!(generate_input_error(0, 1), (1, 3));
    assert_eq!(generate_input_error(1, 1), (3, 1));
    assert_eq!(generate_input_error(2, 1), (1, 1));
    assert_eq!(generate_input_error(5, 1), (3, 3));
}

#[test]
fn accuracy_counts_matching_cells() {
    let a = vec![vec![1, 0, 1], vec![0, 0, 1]];
    let b = vec![vec![1, 1, 1], vec![0, 0, 0]];
    assert_eq!(calculate_accuracy(&a, &b), (4, 6));
    assert_eq!(calculate_accuracy(&a, &a), (6, 6));
    assert_eq!(calculate_accuracy(&vec![], &vec![]), (0, 0));
}

#[test]
fn identical_outputs_degrade_nothing() {
    let a = deep_input();
    let (matching, total) = calculate_accuracy(&a, &a);
    let accuracy = matching as f64 / total as f64;
    assert_eq!(accuracy, 1.0);
    assert_eq!((1.0 - accuracy) * 100.0, 0.0);
}

#[test]
fn report_names() {
    assert_eq!(from_index_to_str_error(0), "Stack-At-0");
    assert_eq!(from_index_to_str_error(2), "Flip-Bit");
    assert_eq!(from_index_to_str_error(9), "None");
    assert_eq!(from_index_to_str_component(3), "Intra Weight");
    assert_eq!(from_index_to_str_component(7), "Multiplier Input");
    assert_eq!(from_index_to_str_component(8), "None");
    assert_eq!(faulted_inputs(3, 3), (0, 0));
    assert_eq!(faulted_inputs(1, 3), (1, 0));
    assert_eq!(faulted_inputs(3, 2), (0, 1));
    assert_eq!(faulted_inputs(0, 0), (1, 1));
}

#[test]
fn neurons_are_counted_layer_by_layer() {
    let b = deep_builder();
    assert_eq!(b.locate_neuron(0), (0, 0));
    assert_eq!(b.locate_neuron(2), (0, 2));
    assert_eq!(b.locate_neuron(3), (1, 0));
    assert_eq!(b.locate_neuron(5), (2, 0));
    assert_eq!(b.locate_neuron(9), (3, 1));
}

#[test]
fn fault_site_from_draws() {
    let b = deep_builder();
    let components = vec![0, 2, 5];
    let f = b.fault_site(&components, 1, 1, 17, 4, 2, 1);
    assert_eq!((f.component, f.error_type, f.position), (2, 1, 17));
    assert_eq!((f.layer, f.neuron, f.weight_index), (1, 1, 1));
    assert_eq!(f.input_errors, (1, 1));
    let g = b.fault_site(&components, 2, 2, 63, 9, 0, 7);
    assert_eq!((g.component, g.layer, g.neuron, g.weight_index), (5, 3, 1, 0));
    assert_eq!(g.input_errors, (2, 3));
}

#[test]
fn every_neuron_can_be_drawn() {
    let mut seen = std::collections::HashSet::new();
    for _ in 0..2000 {
        let mut b = deep_builder();
        let snn = b.build(&vec![0], 0, 2, 2).unwrap();
        let f = snn.fault().unwrap();
        seen.insert((f.layer, f.neuron));
    }
    assert_eq!(seen.len(), 10);
}
