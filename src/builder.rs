use vstd::prelude::*;
use crate::components::{Adder, Multiplier};
use crate::fault::{embed_spec, error_type_of, valid_error_code, weight_fault};
use crate::float::{float_gt, is_nan, is_nan_bits, is_negative, is_positive, ZERO_BITS};
use crate::layer::{layer_wf, Layer, LayerState};
use crate::network::{snn_wf, FaultSpec, SnnError, SnnState, SNN};
use crate::neuron::{membrane_fault, state_wf, stuck_spec, threshold_fault, ErrorBit, LIFNeuron, LifState};
use crate::random::random_below;

verus! {

/// The parameters of a network under construction, layer by layer.
#[derive(Clone, Debug)]
pub struct SnnParams {
    neurons: Vec<Vec<LIFNeuron>>,
    extra_weights: Vec<Vec<Vec<u64>>>,
    intra_weights: Vec<Vec<Vec<u64>>>,
}

/// The parameters of a network: per layer, the neurons, the inbound weights
/// (`extra_weights[l][i][k]` from input `k` to neuron `i`) and the weights
/// within the layer.
pub struct ParamsState {
    pub neurons: Seq<Seq<LifState>>,
    pub extra_weights: Seq<Seq<Seq<u64>>>,
    pub intra_weights: Seq<Seq<Seq<u64>>>,
}

impl View for SnnParams {
    type V = ParamsState;

    closed spec fn view(&self) -> ParamsState {
        ParamsState {
            neurons: self.neurons@.map_values(|v: Vec<LIFNeuron>| v@.map_values(|n: LIFNeuron| n@)),
            extra_weights: self.extra_weights@.map_values(
                |m: Vec<Vec<u64>>| m@.map_values(|r: Vec<u64>| r@),
            ),
            intra_weights: self.intra_weights@.map_values(
                |m: Vec<Vec<u64>>| m@.map_values(|r: Vec<u64>| r@),
            ),
        }
    }
}

/// Builds a network layer by layer, and places a fault on it.
#[derive(Clone, Debug)]
pub struct SnnBuilder {
    params: SnnParams,
    adder: Adder,
    mult: Multiplier,
}

/// The state of an [`SnnBuilder`].
pub struct BuilderState {
    pub params: ParamsState,
    pub adder: Adder,
    pub mult: Multiplier,
}

impl View for SnnBuilder {
    type V = BuilderState;

    closed spec fn view(&self) -> BuilderState {
        BuilderState { params: self.params@, adder: self.adder, mult: self.mult }
    }
}

/// Every neuron is well formed and so are the units.
pub open spec fn builder_wf(b: BuilderState) -> bool {
    &&& forall|l: int, i: int|
        0 <= l < b.params.neurons.len() && 0 <= i < b.params.neurons[l].len() ==> state_wf(
            #[trigger] b.params.neurons[l][i],
        )
    &&& b.adder.wf()
    &&& b.mult.wf()
}

/// IEEE-754 `w >= 0.0`: a number, not below zero.
pub open spec fn at_least_zero(w: u64) -> bool {
    !is_nan(w) && !float_gt(ZERO_BITS, w)
}

/// IEEE-754 `w <= 0.0`: a number, not above zero.
pub open spec fn at_most_zero(w: u64) -> bool {
    !is_nan(w) && !float_gt(w, ZERO_BITS)
}

/// Whether every entry of `m` is a number at least zero.
pub open spec fn all_at_least_zero(m: Seq<Seq<u64>>) -> bool {
    forall|i: int, k: int| 0 <= i < m.len() && 0 <= k < m[i].len() ==> at_least_zero(#[trigger] m[i][k])
}

/// Whether every entry of `m` off the diagonal is a number at most zero.
pub open spec fn off_diagonal_at_most_zero(m: Seq<Seq<u64>>) -> bool {
    forall|i: int, k: int|
        0 <= i < m.len() && 0 <= k < m[i].len() && i != k ==> at_most_zero(#[trigger] m[i][k])
}

/// Whether every neuron of `v` is well formed.
pub open spec fn all_wf(v: Seq<LIFNeuron>) -> bool {
    forall|i: int| 0 <= i < v.len() ==> (#[trigger] v[i]).wf()
}

/// Whether `error_type` and every entry of `components` are valid codes.
pub open spec fn valid_fault_config(components: Seq<i32>, error_type: i32) -> bool {
    &&& 0 <= error_type <= 2
    &&& forall|k: int| 0 <= k < components.len() ==> 0 <= #[trigger] components[k] <= 7
}

/// The width of the spikes that reach layer `l` of a network with inputs of
/// width `input_dim`.
pub open spec fn input_width(p: ParamsState, input_dim: nat, l: int) -> nat {
    if l == 0 {
        input_dim
    } else {
        p.neurons[l - 1].len()
    }
}

/// Whether the layers fit together: as many weight matrices as layers of
/// neurons, one row of inbound weights per neuron with one weight per input of
/// the layer, a square intra-layer matrix per layer, and a last layer as wide
/// as `output_dim`.
pub open spec fn shapes_ok(p: ParamsState, input_dim: nat, output_dim: nat) -> bool {
    let n_layers = p.neurons.len();
    &&& p.extra_weights.len() == n_layers
    &&& p.intra_weights.len() == n_layers
    &&& forall|l: int| 0 <= l < n_layers ==> (#[trigger] p.extra_weights[l]).len() == p.neurons[l].len()
    &&& forall|l: int| 0 <= l < n_layers ==> (#[trigger] p.intra_weights[l]).len() == p.neurons[l].len()
    &&& forall|l: int, i: int|
        0 <= l < n_layers && 0 <= i < p.extra_weights[l].len() ==> (#[trigger] p.extra_weights[l][i]).len()
            == input_width(p, input_dim, l)
    &&& forall|l: int, i: int|
        0 <= l < n_layers && 0 <= i < p.intra_weights[l].len() ==> (#[trigger] p.intra_weights[l][i]).len()
            == p.neurons[l].len()
    &&& output_dim == input_width(p, input_dim, n_layers as int)
}

/// Whether a fault may be drawn on the network at all: it has layers, and no
/// layer is empty.
pub open spec fn has_fault_sites(p: ParamsState) -> bool {
    &&& p.neurons.len() > 0
    &&& forall|l: int| 0 <= l < p.neurons.len() ==> (#[trigger] p.neurons[l]).len() > 0
}

/// Whether `f` names a place of the network `p`: a neuron, a valid bit, valid
/// codes, and a weight cell of that neuron's row for the weight components.
pub open spec fn fault_fits(p: ParamsState, f: FaultSpec) -> bool {
    &&& f.layer < p.neurons.len()
    &&& f.neuron < p.neurons[f.layer as int].len()
    &&& 0 <= f.component <= 7
    &&& 0 <= f.error_type <= 2
    &&& f.position < 64
    &&& valid_error_code(f.input_errors.0 as int)
    &&& valid_error_code(f.input_errors.1 as int)
    &&& f.component == 2 ==> f.weight_index < p.extra_weights[f.layer as int][f.neuron as int].len()
    &&& f.component == 3 ==> f.weight_index < p.intra_weights[f.layer as int][f.neuron as int].len()
}

/// Whether `f` could come out of a draw for `components` and `error_type`: its
/// component is one of them, its kind is `error_type`, and its input codes are
/// those of one of the three operand choices.
pub open spec fn drawn_from(f: FaultSpec, components: Seq<i32>, error_type: i32) -> bool {
    &&& components.contains(f.component)
    &&& f.error_type == error_type
    &&& exists|side: int| 0 <= side < 3 && f.input_errors == #[trigger] input_error_spec(side, error_type)
}

/// Whether builder state `after` is `before` with the persistent part of `f`
/// written in: a stuck-at fault (codes 0 and 1) on a threshold or a weight
/// changes the stored value once, one on the membrane stays on the neuron, and
/// one on a unit configures the unit. A flip (code 2) leaves the state as it
/// is: it is armed on each run.
pub open spec fn fault_injected(before: BuilderState, after: BuilderState, f: FaultSpec) -> bool {
    let p = before.params;
    let l = f.layer as int;
    let i = f.neuron as int;
    let w = f.weight_index as int;
    let kind = error_type_of(f.error_type as int);
    let n = p.neurons[l][i];
    if f.error_type == 2 {
        after == before
    } else if f.component == 0 {
        after == (BuilderState {
            params: ParamsState {
                neurons: p.neurons.update(
                    l,
                    p.neurons[l].update(i, LifState { v_th: embed_spec(n.v_th, kind, f.position), ..n }),
                ),
                ..p
            },
            ..before
        })
    } else if f.component == 1 {
        let stuck = Some(ErrorBit { error_type: f.error_type as u8, position: f.position });
        after == (BuilderState {
            params: ParamsState {
                neurons: p.neurons.update(
                    l,
                    p.neurons[l].update(
                        i,
                        LifState { membrane_error: stuck, v_mem: stuck_spec(n.v_mem, stuck), ..n },
                    ),
                ),
                ..p
            },
            ..before
        })
    } else if f.component == 2 {
        after == (BuilderState {
            params: ParamsState {
                extra_weights: p.extra_weights.update(
                    l,
                    p.extra_weights[l].update(
                        i,
                        p.extra_weights[l][i].update(w, embed_spec(p.extra_weights[l][i][w], kind, f.position)),
                    ),
                ),
                ..p
            },
            ..before
        })
    } else if f.component == 3 {
        after == (BuilderState {
            params: ParamsState {
                intra_weights: p.intra_weights.update(
                    l,
                    p.intra_weights[l].update(
                        i,
                        p.intra_weights[l][i].update(w, embed_spec(p.intra_weights[l][i][w], kind, f.position)),
                    ),
                ),
                ..p
            },
            ..before
        })
    } else {
        &&& after.params == p
        &&& f.component == 4 || f.component == 5 ==> after.mult == before.mult
            && after.adder.fault_position() == f.position
        &&& f.component == 6 || f.component == 7 ==> after.adder == before.adder
            && after.mult.fault_position() == f.position
        &&& f.component == 4 ==> after.adder.output_error() == kind && after.adder.input_errors() is None
        &&& f.component == 6 ==> after.mult.output_error() == kind && after.mult.input_errors() is None
        &&& f.component == 5 ==> after.adder.output_error() == crate::fault::ErrorType::NoFault
            && after.adder.input_errors() == Some(
            (error_type_of(f.input_errors.0 as int), error_type_of(f.input_errors.1 as int)),
        )
        &&& f.component == 7 ==> after.mult.output_error() == crate::fault::ErrorType::NoFault
            && after.mult.input_errors() == Some(
            (error_type_of(f.input_errors.0 as int), error_type_of(f.input_errors.1 as int)),
        )
    }
}

/// The number of neurons in layers `l` onwards.
pub open spec fn total_from(n: Seq<Seq<LifState>>, l: int) -> nat
    decreases n.len() - l,
{
    if l < 0 || l >= n.len() {
        0
    } else {
        n[l].len() + total_from(n, l + 1)
    }
}

/// The (layer, neuron) pair of the neuron with index `k` when the neurons of
/// layers `l` onwards are counted layer by layer, in order.
pub open spec fn locate_from(n: Seq<Seq<LifState>>, l: int, k: int) -> (int, int)
    decreases n.len() - l,
{
    if l < 0 || l >= n.len() || k < n[l].len() {
        (l, k)
    } else {
        locate_from(n, l + 1, k - n[l].len())
    }
}

/// The place of a fault that the draws give: the component `components[c]`,
/// the bit `position`, the neuron with index `k` counting all neurons layer by
/// layer, for a weight component the weight cell `w` of that neuron's row, and
/// the operand choice `side`.
pub open spec fn site_of(
    p: ParamsState,
    components: Seq<i32>,
    error_type: i32,
    c: int,
    position: u8,
    k: int,
    side: int,
    w: int,
) -> FaultSpec {
    let at = locate_from(p.neurons, 0, k);
    let component = components[c];
    FaultSpec {
        component,
        error_type,
        position,
        layer: at.0 as usize,
        neuron: at.1 as usize,
        weight_index: if component == 2 || component == 3 {
            w as usize
        } else {
            0
        },
        input_errors: input_error_spec(side, error_type),
    }
}

/// The length of the weight row of the chosen neuron that a weight component
/// draws a cell from, or 0 for other components.
pub open spec fn row_len_of(p: ParamsState, component: i32, k: int) -> nat {
    let at = locate_from(p.neurons, 0, k);
    if component == 2 {
        p.extra_weights[at.0][at.1].len()
    } else if component == 3 {
        p.intra_weights[at.0][at.1].len()
    } else {
        0
    }
}

/// The fault codes of the two inputs for operand choice `index`: the first
/// input alone, the second alone, or both; 3 marks a clean input.
pub open spec fn input_error_spec(index: int, error_type: i32) -> (i32, i32) {
    if index == 0 {
        (error_type, 3)
    } else if index == 1 {
        (3, error_type)
    } else if index == 2 {
        (error_type, error_type)
    } else {
        (3, 3)
    }
}

/// The fault codes of the two inputs of a unit for operand choice `index`
/// (see [`input_error_spec`]).
pub fn generate_input_error(index: usize, error_type: i32) -> (r: (i32, i32))
    ensures
        r == input_error_spec(index as int, error_type),
{
    if index == 0 {
        (error_type, 3)
    } else if index == 1 {
        (3, error_type)
    } else if index == 2 {
        (error_type, error_type)
    } else {
        (3, 3)
    }
}

/// Whether cell `(i, k)` of a weight matrix holding `w` breaks the sign rule:
/// an inbound weight must be a number at least zero; an intra-layer weight off
/// the diagonal must be a number at most zero, and the diagonal is free.
pub open spec fn cell_breaks_rule(w: u64, inbound: bool, i: int, k: int) -> bool {
    if inbound {
        !at_least_zero(w)
    } else {
        i != k && !at_most_zero(w)
    }
}

/// Whether some cell of `m` breaks the sign rule (see [`cell_breaks_rule`]).
fn breaks_sign_rule(m: &Vec<Vec<u64>>, inbound: bool) -> (r: bool)
    ensures
        inbound ==> (r <==> !all_at_least_zero(m@.map_values(|row: Vec<u64>| row@))),
        !inbound ==> (r <==> !off_diagonal_at_most_zero(m@.map_values(|row: Vec<u64>| row@))),
{
    let ghost mm = m@.map_values(|row: Vec<u64>| row@);
    let mut i: usize = 0;
    while i < m.len()
        invariant
            i <= m@.len(),
            mm == m@.map_values(|row: Vec<u64>| row@),
            forall|j: int, k: int| 0 <= j < i && 0 <= k < mm[j].len() ==> !cell_breaks_rule(
                #[trigger] mm[j][k],
                inbound,
                j,
                k,
            ),
        decreases m@.len() - i,
    {
        let row = &m[i];
        assert(row@ == mm[i as int]);
        let mut k: usize = 0;
        while k < row.len()
            invariant
                i < m@.len(),
                mm == m@.map_values(|row: Vec<u64>| row@),
                row@ == mm[i as int],
                k <= row@.len(),
                forall|j: int| 0 <= j < k ==> !cell_breaks_rule(#[trigger] row@[j], inbound, i as int, j),
            decreases row@.len() - k,
        {
            let w = row[k];
            let hit = if inbound {
                is_nan_bits(w) || is_negative(w)
            } else {
                i != k && (is_nan_bits(w) || is_positive(w))
            };
            if hit {
                assert(mm[i as int][k as int] == row@[k as int]);
                assert(mm.len() == m@.len());
                assert(cell_breaks_rule(mm[i as int][k as int], inbound, i as int, k as int));
                return true;
            }
            k = k + 1;
        }
        i = i + 1;
    }
    false
}

/// A copy of `row`.
fn copy_row(row: &Vec<u64>) -> (r: Vec<u64>)
    ensures
        r@ == row@,
{
    let mut r: Vec<u64> = Vec::new();
    let mut k: usize = 0;
    while k < row.len()
        invariant
            k <= row@.len(),
            r@ == row@.subrange(0, k as int),
        decreases row@.len() - k,
    {
        r.push(row[k]);
        k = k + 1;
    }
    assert(r@ == row@);
    r
}

/// A copy of the matrix `m`.
fn copy_matrix(m: &Vec<Vec<u64>>) -> (r: Vec<Vec<u64>>)
    ensures
        r@.map_values(|row: Vec<u64>| row@) == m@.map_values(|row: Vec<u64>| row@),
{
    let mut r: Vec<Vec<u64>> = Vec::new();
    let mut i: usize = 0;
    while i < m.len()
        invariant
            i <= m@.len(),
            r@.len() == i,
            forall|j: int| 0 <= j < i ==> (#[trigger] r@[j])@ == m@[j]@,
        decreases m@.len() - i,
    {
        r.push(copy_row(&m[i]));
        i = i + 1;
    }
    assert(r@.map_values(|row: Vec<u64>| row@) =~= m@.map_values(|row: Vec<u64>| row@));
    r
}

/// A copy of the neurons `v`.
fn copy_neurons(v: &Vec<LIFNeuron>) -> (r: Vec<LIFNeuron>)
    ensures
        r@ == v@,
{
    let mut r: Vec<LIFNeuron> = Vec::new();
    let mut k: usize = 0;
    while k < v.len()
        invariant
            k <= v@.len(),
            r@ == v@.subrange(0, k as int),
        decreases v@.len() - k,
    {
        r.push(v[k]);
        k = k + 1;
    }
    assert(r@ == v@);
    r
}

/// The network that a builder in state `b` makes for inputs of width
/// `input_dim` and outputs of width `output_dim`, with `fault` placed on it:
/// one layer per layer of neurons, each with no previous spikes and no armed
/// transient fault, and the builder's units.
pub open spec fn network_of(b: BuilderState, fault: Option<FaultSpec>, input_dim: nat, output_dim: nat) -> SnnState {
    SnnState {
        layers: Seq::new(
            b.params.neurons.len(),
            |l: int|
                LayerState {
                    neurons: b.params.neurons[l],
                    weights: b.params.extra_weights[l],
                    intra_weights: b.params.intra_weights[l],
                    prev_output: Seq::new(b.params.neurons[l].len(), |i: int| 0u8),
                    error: None,
                },
        ),
        fault,
        adder: b.adder,
        multiplier: b.mult,
        input_dim,
        output_dim,
    }
}

/// Where [`locate_from`] puts index `k`: a neuron of a layer from `j` on, at
/// the position that counting layer by layer gives it.
proof fn lemma_locate_position(n: Seq<Seq<LifState>>, j: int, k: int)
    requires
        0 <= j <= n.len(),
        0 <= k < total_from(n, j),
    ensures
        j <= locate_from(n, j, k).0 < n.len(),
        0 <= locate_from(n, j, k).1 < n[locate_from(n, j, k).0].len(),
        k == total_from(n, j) - total_from(n, locate_from(n, j, k).0) + locate_from(n, j, k).1,
    decreases n.len() - j,
{
    if j < n.len() && k >= n[j].len() {
        lemma_locate_position(n, j + 1, k - n[j].len());
    }
}

/// The index that counting from layer `j` gives neuron `i` of layer `l`.
proof fn lemma_locate_reaches(n: Seq<Seq<LifState>>, j: int, l: int, i: int)
    requires
        0 <= j <= l < n.len(),
        0 <= i < n[l].len(),
    ensures
        total_from(n, j) - total_from(n, l) + i < total_from(n, j),
        locate_from(n, j, total_from(n, j) - total_from(n, l) + i) == (l, i),
    decreases l - j,
{
    if j < l {
        lemma_locate_reaches(n, j + 1, l, i);
        lemma_total_from_grows(n, j + 1, l);
    }
}

/// Counting the neurons layer by layer numbers each one exactly once: distinct
/// indices below the count name distinct neurons, and every neuron has an
/// index. A uniform index therefore draws a uniform (layer, neuron) pair.
pub proof fn lemma_locate_bijective(n: Seq<Seq<LifState>>, k1: int, k2: int, l: int, i: int)
    requires
        0 <= k1 < total_from(n, 0),
        0 <= k2 < total_from(n, 0),
        0 <= l < n.len(),
        0 <= i < n[l].len(),
    ensures
        locate_from(n, 0, k1) == locate_from(n, 0, k2) ==> k1 == k2,
        0 <= locate_from(n, 0, k1).0 < n.len(),
        0 <= locate_from(n, 0, k1).1 < n[locate_from(n, 0, k1).0].len(),
        exists|k: int| 0 <= k < total_from(n, 0) && #[trigger] locate_from(n, 0, k) == (l, i),
{
    lemma_locate_position(n, 0, k1);
    lemma_locate_position(n, 0, k2);
    lemma_locate_reaches(n, 0, l, i);
    let k = total_from(n, 0) - total_from(n, l) + i;
    assert(locate_from(n, 0, k) == (l, i));
}

/// Counting from an earlier layer counts at least as many neurons.
proof fn lemma_total_from_grows(n: Seq<Seq<LifState>>, a: int, b: int)
    requires
        0 <= a <= b,
    ensures
        total_from(n, a) >= total_from(n, b),
    decreases b - a,
{
    if a < b {
        lemma_total_from_grows(n, a + 1, b);
    }
}

/// A network with layers, none empty, has neurons.
proof fn lemma_total_positive(n: Seq<Seq<LifState>>)
    requires
        n.len() > 0,
        forall|l: int| 0 <= l < n.len() ==> (#[trigger] n[l]).len() > 0,
    ensures
        total_from(n, 0) > 0,
{
    assert(n[0].len() > 0);
}

/// Writing a fault in keeps the shapes of the network and the well-formedness
/// of the builder.
proof fn lemma_injected_shapes(before: BuilderState, after: BuilderState, f: FaultSpec, i: nat, o: nat)
    requires
        shapes_ok(before.params, i, o),
        builder_wf(before),
        builder_wf(after),
        fault_fits(before.params, f),
        fault_injected(before, after, f),
    ensures
        shapes_ok(after.params, i, o),
{
    let p = before.params;
    let q = after.params;
    assert forall|l: int| 0 <= l <= p.neurons.len() implies input_width(q, i, l) == input_width(p, i, l) by {
        if l > 0 {
            assert(q.neurons[l - 1].len() == p.neurons[l - 1].len());
        }
    }
    assert forall|l: int| 0 <= l < p.neurons.len() implies (#[trigger] q.extra_weights[l]).len()
        == q.neurons[l].len() by {
        assert(p.extra_weights[l].len() == p.neurons[l].len());
    }
    assert forall|l: int| 0 <= l < p.neurons.len() implies (#[trigger] q.intra_weights[l]).len()
        == q.neurons[l].len() by {
        assert(p.intra_weights[l].len() == p.neurons[l].len());
    }
    assert forall|l: int, k: int|
        0 <= l < p.neurons.len() && 0 <= k < q.extra_weights[l].len() implies (#[trigger] q.extra_weights[l][k]).len()
        == input_width(q, i, l) by {
        assert(p.extra_weights[l][k].len() == input_width(p, i, l));
    }
    assert forall|l: int, k: int|
        0 <= l < p.neurons.len() && 0 <= k < q.intra_weights[l].len() implies (#[trigger] q.intra_weights[l][k]).len()
        == q.neurons[l].len() by {
        assert(p.intra_weights[l][k].len() == p.neurons[l].len());
    }
}

/// The network that a well-formed builder makes is well formed.
proof fn lemma_network_wf(b: BuilderState, fault: Option<FaultSpec>, i: nat, o: nat)
    requires
        shapes_ok(b.params, i, o),
        builder_wf(b),
        fault matches Some(f) ==> fault_fits(b.params, f),
    ensures
        snn_wf(network_of(b, fault, i, o)),
{
    let s = network_of(b, fault, i, o);
    let p = b.params;
    assert forall|l: int| 0 <= l < s.layers.len() implies layer_wf(#[trigger] s.layers[l]) by {
        let ls = s.layers[l];
        assert forall|k: int| 0 <= k < ls.neurons.len() implies state_wf(#[trigger] ls.neurons[k]) by {
            assert(state_wf(p.neurons[l][k]));
        }
        assert forall|k: int| 0 <= k < ls.neurons.len() implies #[trigger] ls.intra_weights[k].len()
            == ls.neurons.len() by {
            assert(p.intra_weights[l][k].len() == p.neurons[l].len());
        }
        assert(crate::event::binary(ls.prev_output));
    }
    assert forall|l: int| 0 <= l < s.layers.len() implies crate::layer::inbound_width(
        #[trigger] s.layers[l],
        crate::network::width_into(s, l),
    ) by {
        assert forall|k: int| 0 <= k < s.layers[l].weights.len() implies #[trigger] s.layers[l].weights[k].len()
            == crate::network::width_into(s, l) by {
            assert(p.extra_weights[l][k].len() == input_width(p, i, l));
        }
    }
    assert(o == crate::network::width_into(s, s.layers.len() as int));
}

impl SnnBuilder {
    /// A builder with no layers and fault-free units.
    pub fn new() -> (r: SnnBuilder)
        ensures
            builder_wf(r@),
            r@.params.neurons.len() == 0,
            r@.params.extra_weights.len() == 0,
            r@.params.intra_weights.len() == 0,
            r@.adder.fault_free(),
            r@.mult.fault_free(),
    {
        let r = SnnBuilder {
            params: SnnParams { neurons: Vec::new(), extra_weights: Vec::new(), intra_weights: Vec::new() },
            adder: Adder::new(3, 0),
            mult: Multiplier::new(3, 0),
        };
        assert(r@.params.neurons =~= Seq::empty());
        r
    }

    pub fn get_params(&self) -> (r: &SnnParams)
        ensures
            r@ == self@.params,
    {
        &self.params
    }

    /// Opens a new layer; the layer takes shape from the calls that follow.
    pub fn add_layer(&mut self)
        ensures
            final(self)@ == old(self)@,
    {
    }

    /// Adds the inbound weights of the next layer, `weights[i][k]` from input
    /// `k` to neuron `i`. Fails, adding nothing, unless every one is a number
    /// at least zero.
    pub fn add_weight(&mut self, weights: Vec<Vec<u64>>) -> (r: Result<(), SnnError>)
        ensures
            r is Err <==> !all_at_least_zero(weights@.map_values(|row: Vec<u64>| row@)),
            r matches Err(e) ==> e == SnnError::NegativeWeight && final(self)@ == old(self)@,
            r is Ok ==> final(self)@ == (BuilderState {
                params: ParamsState {
                    extra_weights: old(self)@.params.extra_weights.push(
                        weights@.map_values(|row: Vec<u64>| row@),
                    ),
                    ..old(self)@.params
                },
                ..old(self)@
            }),
    {
        if breaks_sign_rule(&weights, true) {
            return Err(SnnError::NegativeWeight);
        }
        self.params.extra_weights.push(weights);
        assert(self@.params.extra_weights =~= old(self)@.params.extra_weights.push(
            weights@.map_values(|row: Vec<u64>| row@),
        ));
        Ok(())
    }

    /// Adds the neurons of the next layer.
    pub fn add_neurons(&mut self, neurons: Vec<LIFNeuron>)
        requires
            builder_wf(old(self)@),
            all_wf(neurons@),
        ensures
            builder_wf(final(self)@),
            final(self)@ == (BuilderState {
                params: ParamsState {
                    neurons: old(self)@.params.neurons.push(neurons@.map_values(|n: LIFNeuron| n@)),
                    ..old(self)@.params
                },
                ..old(self)@
            }),
    {
        let ghost nv = neurons@.map_values(|n: LIFNeuron| n@);
        self.params.neurons.push(neurons);
        assert(self@.params.neurons =~= old(self)@.params.neurons.push(nv));
        assert forall|l: int, i: int|
            0 <= l < self@.params.neurons.len() && 0 <= i < self@.params.neurons[l].len() implies state_wf(
            #[trigger] self@.params.neurons[l][i],
        ) by {
            if l == old(self)@.params.neurons.len() {
                assert(neurons@[i].wf());
            } else {
                assert(state_wf(old(self)@.params.neurons[l][i]));
            }
        }
    }

    /// Adds the weights within the next layer, `intra_weights[i][j]` from
    /// neuron `j` to neuron `i`. Fails, adding nothing, unless every one off
    /// the diagonal is a number at most zero; the diagonal is not used.
    pub fn add_intra_weights(&mut self, intra_weights: Vec<Vec<u64>>) -> (r: Result<(), SnnError>)
        ensures
            r is Err <==> !off_diagonal_at_most_zero(intra_weights@.map_values(|row: Vec<u64>| row@)),
            r matches Err(e) ==> e == SnnError::PositiveIntraWeight && final(self)@ == old(self)@,
            r is Ok ==> final(self)@ == (BuilderState {
                params: ParamsState {
                    intra_weights: old(self)@.params.intra_weights.push(
                        intra_weights@.map_values(|row: Vec<u64>| row@),
                    ),
                    ..old(self)@.params
                },
                ..old(self)@
            }),
    {
        if breaks_sign_rule(&intra_weights, false) {
            return Err(SnnError::PositiveIntraWeight);
        }
        self.params.intra_weights.push(intra_weights);
        assert(self@.params.intra_weights =~= old(self)@.params.intra_weights.push(
            intra_weights@.map_values(|row: Vec<u64>| row@),
        ));
        Ok(())
    }

    /// Whether the layers fit together (see [`shapes_ok`]).
    fn check_shapes(&self, input_dim: usize, output_dim: usize) -> (r: bool)
        ensures
            r == shapes_ok(self@.params, input_dim as nat, output_dim as nat),
    {
        let ghost p = self@.params;
        let n_layers = self.params.neurons.len();
        if self.params.extra_weights.len() != n_layers || self.params.intra_weights.len() != n_layers {
            return false;
        }
        let mut width = input_dim;
        let mut l: usize = 0;
        while l < n_layers
            invariant
                p == self@.params,
                n_layers == p.neurons.len(),
                p.extra_weights.len() == n_layers,
                p.intra_weights.len() == n_layers,
                l <= n_layers,
                width == input_width(p, input_dim as nat, l as int),
                forall|j: int| 0 <= j < l ==> (#[trigger] p.extra_weights[j]).len() == p.neurons[j].len(),
                forall|j: int| 0 <= j < l ==> (#[trigger] p.intra_weights[j]).len() == p.neurons[j].len(),
                forall|j: int, i: int|
                    0 <= j < l && 0 <= i < p.extra_weights[j].len() ==> (#[trigger] p.extra_weights[j][i]).len()
                        == input_width(p, input_dim as nat, j),
                forall|j: int, i: int|
                    0 <= j < l && 0 <= i < p.intra_weights[j].len() ==> (#[trigger] p.intra_weights[j][i]).len()
                        == p.neurons[j].len(),
            decreases n_layers - l,
        {
            let n = self.params.neurons[l].len();
            let extra = &self.params.extra_weights[l];
            let intra = &self.params.intra_weights[l];
            assert(p.neurons[l as int].len() == n);
            assert(p.extra_weights[l as int] == extra@.map_values(|r: Vec<u64>| r@));
            assert(p.intra_weights[l as int] == intra@.map_values(|r: Vec<u64>| r@));
            if extra.len() != n || intra.len() != n {
                return false;
            }
            let mut i: usize = 0;
            while i < n
                invariant
                    p == self@.params,
                    n_layers == p.neurons.len(),
                    l < n_layers,
                    n == p.neurons[l as int].len(),
                    extra@.len() == n,
                    intra@.len() == n,
                    p.extra_weights[l as int] == extra@.map_values(|r: Vec<u64>| r@),
                    p.intra_weights[l as int] == intra@.map_values(|r: Vec<u64>| r@),
                    width == input_width(p, input_dim as nat, l as int),
                    i <= n,
                    forall|k: int| 0 <= k < i ==> (#[trigger] p.extra_weights[l as int][k]).len() == width,
                    forall|k: int| 0 <= k < i ==> (#[trigger] p.intra_weights[l as int][k]).len() == n,
                decreases n - i,
            {
                assert(p.extra_weights[l as int][i as int] == extra@[i as int]@);
                assert(p.intra_weights[l as int][i as int] == intra@[i as int]@);
                if extra[i].len() != width || intra[i].len() != n {
                    return false;
                }
                i = i + 1;
            }
            width = n;
            l = l + 1;
        }
        width == output_dim
    }

    /// The (layer, neuron) pair of the neuron with index `k`, counting all
    /// neurons layer by layer.
    pub fn locate_neuron(&self, k: usize) -> (r: (usize, usize))
        requires
            k < total_from(self@.params.neurons, 0),
        ensures
            r.0 as int == locate_from(self@.params.neurons, 0, k as int).0,
            r.1 as int == locate_from(self@.params.neurons, 0, k as int).1,
            r.0 < self@.params.neurons.len(),
            r.1 < self@.params.neurons[r.0 as int].len(),
    {
        let ghost n = self@.params.neurons;
        let mut l: usize = 0;
        let mut rest: usize = k;
        while l < self.params.neurons.len()
            invariant
                n == self@.params.neurons,
                l <= n.len(),
                rest < total_from(n, l as int),
                locate_from(n, 0, k as int) == locate_from(n, l as int, rest as int),
            decreases n.len() - l,
        {
            let len = self.params.neurons[l].len();
            assert(n[l as int].len() == len);
            if rest < len {
                return (l, rest);
            }
            rest = rest - len;
            l = l + 1;
        }
        (l, rest)
    }

    /// The number of neurons of the network, if it fits a `usize`.
    fn count_neurons(&self) -> (r: Option<usize>)
        ensures
            r matches Some(t) ==> t == total_from(self@.params.neurons, 0),
            r is None ==> total_from(self@.params.neurons, 0) > usize::MAX,
    {
        let ghost n = self@.params.neurons;
        let mut l: usize = self.params.neurons.len();
        let mut acc: usize = 0;
        while l > 0
            invariant
                n == self@.params.neurons,
                l <= n.len(),
                acc == total_from(n, l as int),
            decreases l,
        {
            let len = self.params.neurons[l - 1].len();
            assert(n[l - 1].len() == len);
            match acc.checked_add(len) {
                Some(v) => {
                    acc = v;
                },
                None => {
                    proof { lemma_total_from_grows(n, 0, l as int - 1); }
                    return None;
                },
            }
            l = l - 1;
        }
        Some(acc)
    }

    /// The place of a fault that the draws `c` (component index), `position`,
    /// `k` (neuron index over the whole network), `side` (operand choice) and
    /// `w` (weight cell, for a weight component) give (see [`site_of`]).
    pub fn fault_site(
        &self,
        components: &Vec<i32>,
        error_type: i32,
        c: usize,
        position: u8,
        k: usize,
        side: usize,
        w: usize,
    ) -> (r: FaultSpec)
        requires
            exists|i: nat, o: nat| shapes_ok(self@.params, i, o),
            valid_fault_config(components@, error_type),
            c < components@.len(),
            position < 64,
            k < total_from(self@.params.neurons, 0),
            side < 3,
            components@[c as int] == 2 || components@[c as int] == 3 ==> w < row_len_of(
                self@.params,
                components@[c as int],
                k as int,
            ),
        ensures
            r == site_of(self@.params, components@, error_type, c as int, position, k as int, side as int, w as int),
            fault_fits(self@.params, r),
            drawn_from(r, components@, error_type),
    {
        let component = components[c];
        let (layer, neuron) = self.locate_neuron(k);
        let weight_index = if component == 2 || component == 3 { w } else { 0 };
        let r = FaultSpec {
            component,
            error_type,
            position,
            layer,
            neuron,
            weight_index,
            input_errors: generate_input_error(side, error_type),
        };
        proof {
            let p = self@.params;
            assert(p.extra_weights[layer as int].len() == p.neurons[layer as int].len());
            assert(p.intra_weights[layer as int].len() == p.neurons[layer as int].len());
            assert(components@.contains(component)) by {
                assert(components@[c as int] == component);
            }
            assert(input_error_spec(side as int, error_type) == input_error_spec(side as int, error_type));
        }
        r
    }

    /// Draws the place of a fault on the network, from `components` and of kind
    /// `error_type`: a component uniformly from `components`, a bit uniformly
    /// from the 64, a (layer, neuron) pair uniformly from all neurons, one of
    /// the three operand choices uniformly and, for a weight component, a
    /// weight cell uniformly within the neuron's row (see
    /// [`SnnBuilder::fault_site`]). No fault for no components.
    fn handle_errors(&self, components: &Vec<i32>, error_type: i32, input_dim: usize, output_dim: usize) -> (r:
        Result<Option<FaultSpec>, SnnError>)
        requires
            shapes_ok(self@.params, input_dim as nat, output_dim as nat),
        ensures
            components@.len() == 0 <==> r matches Ok(None),
            components@.len() > 0 && !valid_fault_config(components@, error_type) ==> r == Err::<
                Option<FaultSpec>,
                SnnError,
            >(SnnError::InvalidFaultConfig),
            components@.len() > 0 && valid_fault_config(components@, error_type) && has_fault_sites(
                self@.params,
            ) && input_dim > 0 && total_from(self@.params.neurons, 0) <= usize::MAX ==> r is Ok,
            r matches Err(e) ==> components@.len() > 0 && (e == SnnError::InvalidFaultConfig
                && !valid_fault_config(components@, error_type) || e == SnnError::NoFaultSite
                && valid_fault_config(components@, error_type) && (!has_fault_sites(self@.params)
                || input_dim == 0 || total_from(self@.params.neurons, 0) > usize::MAX)),
            r matches Ok(Some(f)) ==> fault_fits(self@.params, f) && drawn_from(f, components@, error_type),
            r matches Ok(Some(f)) ==> exists|c: int, position: u8, k: int, side: int, w: int|
                0 <= c < components@.len() && position < 64 && 0 <= k < total_from(self@.params.neurons, 0)
                    && 0 <= side < 3 && #[trigger] site_of(
                    self@.params,
                    components@,
                    error_type,
                    c,
                    position,
                    k,
                    side,
                    w,
                ) == f,
    {
        let ghost p = self@.params;
        if components.len() == 0 {
            return Ok(None);
        }
        if error_type < 0 || error_type > 2 {
            return Err(SnnError::InvalidFaultConfig);
        }
        let mut k: usize = 0;
        while k < components.len()
            invariant
                k <= components@.len(),
                forall|j: int| 0 <= j < k ==> 0 <= #[trigger] components@[j] <= 7,
            decreases components@.len() - k,
        {
            if components[k] < 0 || components[k] > 7 {
                return Err(SnnError::InvalidFaultConfig);
            }
            k = k + 1;
        }
        assert(valid_fault_config(components@, error_type));
        let n_layers = self.params.neurons.len();
        if n_layers == 0 {
            return Err(SnnError::NoFaultSite);
        }
        let mut l: usize = 0;
        while l < n_layers
            invariant
                p == self@.params,
                n_layers == p.neurons.len(),
                l <= n_layers,
                components@.len() > 0,
                valid_fault_config(components@, error_type),
                forall|j: int| 0 <= j < l ==> (#[trigger] p.neurons[j]).len() > 0,
            decreases n_layers - l,
        {
            if self.params.neurons[l].len() == 0 {
                assert(p.neurons[l as int].len() == 0);
                return Err(SnnError::NoFaultSite);
            }
            l = l + 1;
        }
        let total = match self.count_neurons() {
            Some(total) => total,
            None => {
                return Err(SnnError::NoFaultSite);
            },
        };
        proof { lemma_total_positive(p.neurons); }
        let c = random_below(components.len());
        let component = components[c];
        let position = random_below(64) as u8;
        let k = random_below(total);
        let side = random_below(3);
        let (layer_index, neuron_index) = self.locate_neuron(k);
        let mut w: usize = 0;
        if component == 2 {
            assert(p.extra_weights[layer_index as int][neuron_index as int]
                == self.params.extra_weights@[layer_index as int]@[neuron_index as int]@);
            let row_len = self.params.extra_weights[layer_index][neuron_index].len();
            if row_len == 0 {
                assert(layer_index == 0 ==> input_dim == 0);
                assert(layer_index > 0 ==> p.neurons[layer_index - 1].len() > 0);
                return Err(SnnError::NoFaultSite);
            }
            w = random_below(row_len);
        } else if component == 3 {
            assert(p.intra_weights[layer_index as int][neuron_index as int]
                == self.params.intra_weights@[layer_index as int]@[neuron_index as int]@);
            assert(p.intra_weights[layer_index as int][neuron_index as int].len() == p.neurons[layer_index as int].len());
            w = random_below(self.params.intra_weights[layer_index][neuron_index].len());
        }
        let f = self.fault_site(components, error_type, c, position, k, side, w);
        assert(site_of(p, components@, error_type, c as int, position, k as int, side as int, w as int) == f);
        Ok(Some(f))
    }

    /// Writes the persistent part of the fault `f` into the builder (see
    /// [`fault_injected`]).
    pub fn inject(&mut self, f: FaultSpec)
        requires
            builder_wf(old(self)@),
            exists|i: nat, o: nat| shapes_ok(old(self)@.params, i, o),
            fault_fits(old(self)@.params, f),
        ensures
            builder_wf(final(self)@),
            fault_injected(old(self)@, final(self)@, f),
    {
        let ghost b0 = self@;
        let ghost p = self@.params;
        if f.error_type == 2 {
            return;
        }
        let l = f.layer;
        let i = f.neuron;
        let w = f.weight_index;
        assert(p.neurons[l as int][i as int] == self.params.neurons@[l as int]@[i as int]@);
        if f.component == 0 || f.component == 1 {
            let mut n = self.params.neurons[l][i];
            if f.component == 0 {
                threshold_fault(&mut n, f.error_type, f.position);
            } else {
                membrane_fault(&mut n, f.error_type, f.position);
            }
            let ghost old_outer = self.params.neurons@;
            self.params.neurons[l].set(i, n);
            proof {
                assert(self.params.neurons@[l as int]@ == old_outer[l as int]@.update(i as int, n));
                assert(self@.params.neurons[l as int] =~= p.neurons[l as int].update(i as int, n@));
                assert forall|a: int| 0 <= a < p.neurons.len() && a != l implies self@.params.neurons[a]
                    == p.neurons[a] by {
                    assert(self.params.neurons@[a] == old_outer[a]);
                }
                assert(self@.params.neurons =~= p.neurons.update(
                    l as int,
                    p.neurons[l as int].update(i as int, n@),
                ));
                assert forall|a: int, c: int|
                    0 <= a < self@.params.neurons.len() && 0 <= c < self@.params.neurons[a].len() implies state_wf(
                    #[trigger] self@.params.neurons[a][c],
                ) by {
                    assert(state_wf(p.neurons[a][c]));
                }
            }
        } else if f.component == 2 {
            assert(p.extra_weights[l as int][i as int][w as int]
                == self.params.extra_weights@[l as int]@[i as int]@[w as int]);
            weight_fault(&mut self.params.extra_weights[l][i][w], f.error_type, f.position);
            proof {
                assert(self@.params.extra_weights[l as int] =~= p.extra_weights[l as int].update(
                    i as int,
                    p.extra_weights[l as int][i as int].update(
                        w as int,
                        embed_spec(p.extra_weights[l as int][i as int][w as int], error_type_of(f.error_type as int), f.position),
                    ),
                ));
                assert(self@.params.extra_weights =~= p.extra_weights.update(
                    l as int,
                    self@.params.extra_weights[l as int],
                ));
            }
        } else if f.component == 3 {
            assert(p.intra_weights[l as int][i as int][w as int]
                == self.params.intra_weights@[l as int]@[i as int]@[w as int]);
            weight_fault(&mut self.params.intra_weights[l][i][w], f.error_type, f.position);
            proof {
                assert(self@.params.intra_weights[l as int] =~= p.intra_weights[l as int].update(
                    i as int,
                    p.intra_weights[l as int][i as int].update(
                        w as int,
                        embed_spec(p.intra_weights[l as int][i as int][w as int], error_type_of(f.error_type as int), f.position),
                    ),
                ));
                assert(self@.params.intra_weights =~= p.intra_weights.update(
                    l as int,
                    self@.params.intra_weights[l as int],
                ));
            }
        } else if f.component == 4 {
            self.adder.set_params(f.error_type, f.position);
        } else if f.component == 5 {
            self.adder.set_params_input(f.position, f.input_errors.0, f.input_errors.1);
        } else if f.component == 6 {
            self.mult.set_params(f.error_type, f.position);
        } else {
            self.mult.set_params_input(f.position, f.input_errors.0, f.input_errors.1);
        }
    }

    /// Builds the network for inputs of width `input_dim` and outputs of width
    /// `output_dim`. With `components` not empty, a fault of kind `error_type`
    /// (0 stuck-at-0, 1 stuck-at-1, 2 bit flip) is drawn on one of those
    /// components (see [`SnnBuilder::handle_errors`]); a stuck-at fault is
    /// written into the builder before the network is made from it, a flip is
    /// left for each run to arm. Fails, changing nothing, when the layers do
    /// not fit together, when a code is invalid, or when a fault is asked for
    /// and the drawn place holds nothing to fault.
    pub fn build(&mut self, components: &Vec<i32>, error_type: i32, input_dim: usize, output_dim: usize) -> (r:
        Result<SNN, SnnError>)
        requires
            builder_wf(old(self)@),
        ensures
            builder_wf(final(self)@),
            r is Err ==> final(self)@ == old(self)@,
            !shapes_ok(old(self)@.params, input_dim as nat, output_dim as nat) ==> r == Err::<SNN, SnnError>(
                SnnError::LayerMismatch,
            ),
            shapes_ok(old(self)@.params, input_dim as nat, output_dim as nat) ==> {
                &&& components@.len() == 0 ==> r is Ok
                &&& components@.len() > 0 && !valid_fault_config(components@, error_type) ==> r == Err::<
                    SNN,
                    SnnError,
                >(SnnError::InvalidFaultConfig)
                &&& components@.len() > 0 && valid_fault_config(components@, error_type) && has_fault_sites(
                    old(self)@.params,
                ) && input_dim > 0 && total_from(old(self)@.params.neurons, 0) <= usize::MAX ==> r is Ok
                &&& r matches Err(e) ==> components@.len() > 0 && (e == SnnError::InvalidFaultConfig
                    || e == SnnError::NoFaultSite && (!has_fault_sites(old(self)@.params) || input_dim
                    == 0 || total_from(old(self)@.params.neurons, 0) > usize::MAX))
            },
            r matches Ok(snn) ==> {
                &&& snn_wf(snn@)
                &&& snn@ == network_of(final(self)@, snn@.fault, input_dim as nat, output_dim as nat)
                &&& match snn@.fault {
                    None => components@.len() == 0 && final(self)@ == old(self)@,
                    Some(f) => {
                        &&& components@.len() > 0
                        &&& fault_fits(old(self)@.params, f)
                        &&& drawn_from(f, components@, error_type)
                        &&& fault_injected(old(self)@, final(self)@, f)
                    },
                }
            },
    {
        if !self.check_shapes(input_dim, output_dim) {
            return Err(SnnError::LayerMismatch);
        }
        let fault = match self.handle_errors(components, error_type, input_dim, output_dim) {
            Ok(fault) => fault,
            Err(e) => {
                return Err(e);
            },
        };
        let ghost b0 = self@;
        if let Some(f) = fault {
            self.inject(f);
            proof { lemma_injected_shapes(b0, self@, f, input_dim as nat, output_dim as nat); }
        }
        let ghost b1 = self@;
        proof {
            lemma_network_wf(b1, fault, input_dim as nat, output_dim as nat);
        }
        let ghost target = network_of(b1, fault, input_dim as nat, output_dim as nat);
        let n_layers = self.params.neurons.len();
        let mut layers: Vec<Layer> = Vec::new();
        let mut l: usize = 0;
        while l < n_layers
            invariant
                b1 == self@,
                builder_wf(b1),
                shapes_ok(b1.params, input_dim as nat, output_dim as nat),
                target == network_of(b1, fault, input_dim as nat, output_dim as nat),
                n_layers == b1.params.neurons.len(),
                l <= n_layers,
                layers@.len() == l,
                forall|j: int| 0 <= j < l ==> (#[trigger] layers@[j])@ == target.layers[j],
            decreases n_layers - l,
        {
            let neurons = copy_neurons(&self.params.neurons[l]);
            let extra = copy_matrix(&self.params.extra_weights[l]);
            let intra = copy_matrix(&self.params.intra_weights[l]);
            let ghost p = b1.params;
            proof {
                assert(neurons@.map_values(|n: LIFNeuron| n@) =~= p.neurons[l as int]);
                assert(extra@.map_values(|r: Vec<u64>| r@) == p.extra_weights[l as int]);
                assert(intra@.map_values(|r: Vec<u64>| r@) == p.intra_weights[l as int]);
                assert forall|i: int| 0 <= i < neurons@.len() implies (#[trigger] neurons@[i]).wf() by {
                    assert(state_wf(p.neurons[l as int][i]));
                    assert(neurons@[i]@ == p.neurons[l as int][i]);
                }
                assert forall|i: int| 0 <= i < neurons@.len() implies #[trigger] intra@[i]@.len()
                    == neurons@.len() by {
                    assert(p.intra_weights[l as int][i].len() == p.neurons[l as int].len());
                    assert(intra@[i]@ == p.intra_weights[l as int][i]);
                }
            }
            let layer = Layer::new(neurons, extra, intra);
            proof {
                assert(layer@.prev_output =~= Seq::new(p.neurons[l as int].len(), |i: int| 0u8));
                assert(layer@ == target.layers[l as int]);
            }
            layers.push(layer);
            l = l + 1;
        }
        let snn = SNN::new(layers, fault, self.adder, self.mult, input_dim, output_dim);
        proof {
            assert(snn@.layers =~= target.layers);
        }
        Ok(snn)
    }
}

} // verus!
