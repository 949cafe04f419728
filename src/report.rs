use vstd::prelude::*;

verus! {

/// How many positions `k` below the length of `a` hold the same value in `a`
/// and `b`.
pub open spec fn row_matches(a: Seq<u8>, b: Seq<u8>) -> nat
    decreases a.len(),
{
    if a.len() == 0 {
        0
    } else {
        let k = a.len() - 1;
        row_matches(a.drop_last(), b) + if a[k] == b[k] {
            1nat
        } else {
            0nat
        }
    }
}

/// How many cells of `v1` hold the same value in `v2`.
pub open spec fn matching_cells(v1: Seq<Seq<u8>>, v2: Seq<Seq<u8>>) -> nat
    decreases v1.len(),
{
    if v1.len() == 0 {
        0
    } else {
        matching_cells(v1.drop_last(), v2) + row_matches(v1.last(), v2[v1.len() - 1])
    }
}

/// How many cells `v` has.
pub open spec fn total_cells(v: Seq<Seq<u8>>) -> nat
    decreases v.len(),
{
    if v.len() == 0 {
        0
    } else {
        total_cells(v.drop_last()) + v.last().len()
    }
}

/// Whether two matrices have the same number of rows and equal rows lengths.
pub open spec fn same_shape(v1: Seq<Seq<u8>>, v2: Seq<Seq<u8>>) -> bool {
    &&& v1.len() == v2.len()
    &&& forall|t: int| 0 <= t < v1.len() ==> (#[trigger] v1[t]).len() == v2[t].len()
}

/// A row never matches in more positions than it has.
proof fn lemma_row_matches_bound(a: Seq<u8>, b: Seq<u8>)
    ensures
        row_matches(a, b) <= a.len(),
    decreases a.len(),
{
    if a.len() > 0 {
        lemma_row_matches_bound(a.drop_last(), b);
    }
}

/// A matrix never matches in more cells than it has.
proof fn lemma_matching_bound(v1: Seq<Seq<u8>>, v2: Seq<Seq<u8>>)
    ensures
        matching_cells(v1, v2) <= total_cells(v1),
    decreases v1.len(),
{
    if v1.len() > 0 {
        lemma_matching_bound(v1.drop_last(), v2);
        lemma_row_matches_bound(v1.last(), v2[v1.len() - 1]);
    }
}

/// The cells of a prefix are no more than those of the whole.
proof fn lemma_total_prefix(v: Seq<Seq<u8>>, t: int)
    requires
        0 <= t <= v.len(),
    ensures
        total_cells(v.subrange(0, t)) <= total_cells(v),
    decreases v.len() - t,
{
    if t < v.len() {
        lemma_total_prefix(v, t + 1);
        assert(v.subrange(0, t + 1).drop_last() == v.subrange(0, t));
    } else {
        assert(v.subrange(0, t) == v);
    }
}

/// The accuracy of `v2` against `v1`, as the pair (cells of `v1` that hold the
/// same value in `v2`, cells of `v1`): the accuracy is their ratio.
pub fn calculate_accuracy(v1: &Vec<Vec<u8>>, v2: &Vec<Vec<u8>>) -> (r: (usize, usize))
    requires
        same_shape(v1@.map_values(|row: Vec<u8>| row@), v2@.map_values(|row: Vec<u8>| row@)),
        total_cells(v1@.map_values(|row: Vec<u8>| row@)) <= usize::MAX,
    ensures
        r.0 == matching_cells(
            v1@.map_values(|row: Vec<u8>| row@),
            v2@.map_values(|row: Vec<u8>| row@),
        ),
        r.1 == total_cells(v1@.map_values(|row: Vec<u8>| row@)),
{
    let ghost m1 = v1@.map_values(|row: Vec<u8>| row@);
    let ghost m2 = v2@.map_values(|row: Vec<u8>| row@);
    let mut total: usize = 0;
    let mut matching: usize = 0;
    let mut t: usize = 0;
    while t < v1.len()
        invariant
            m1 == v1@.map_values(|row: Vec<u8>| row@),
            m2 == v2@.map_values(|row: Vec<u8>| row@),
            same_shape(m1, m2),
            total_cells(m1) <= usize::MAX,
            t <= m1.len(),
            total == total_cells(m1.subrange(0, t as int)),
            matching == matching_cells(m1.subrange(0, t as int), m2),
        decreases m1.len() - t,
    {
        let row1 = &v1[t];
        let row2 = &v2[t];
        assert(row1@ == m1[t as int] && row2@ == m2[t as int]);
        let mut k: usize = 0;
        let mut row_count: usize = 0;
        while k < row1.len()
            invariant
                row1@.len() == row2@.len(),
                k <= row1@.len(),
                row_count == row_matches(row1@.subrange(0, k as int), row2@),
                row_count <= k,
            decreases row1@.len() - k,
        {
            assert(row1@.subrange(0, k as int + 1).drop_last() == row1@.subrange(0, k as int));
            if row1[k] == row2[k] {
                row_count = row_count + 1;
            }
            k = k + 1;
        }
        assert(row1@.subrange(0, row1@.len() as int) == row1@);
        proof {
            assert(m1.subrange(0, t as int + 1).drop_last() == m1.subrange(0, t as int));
            lemma_total_prefix(m1, t as int + 1);
            lemma_matching_bound(m1.subrange(0, t as int + 1), m2);
        }
        total = total + row1.len();
        matching = matching + row_count;
        t = t + 1;
    }
    assert(m1.subrange(0, m1.len() as int) == m1);
    (matching, total)
}

/// Two equal matrices agree in every cell: accuracy 1, no degradation.
pub proof fn lemma_identical_full_accuracy(v: Seq<Seq<u8>>)
    ensures
        matching_cells(v, v) == total_cells(v),
{
    lemma_agreeing_prefix(v, v);
}

proof fn lemma_agreeing_prefix(v1: Seq<Seq<u8>>, v2: Seq<Seq<u8>>)
    requires
        v1.len() <= v2.len(),
        forall|t: int| 0 <= t < v1.len() ==> #[trigger] v1[t] == v2[t],
    ensures
        matching_cells(v1, v2) == total_cells(v1),
    decreases v1.len(),
{
    if v1.len() > 0 {
        lemma_agreeing_prefix(v1.drop_last(), v2);
        lemma_agreeing_row(v1.last(), v2[v1.len() - 1]);
    }
}

proof fn lemma_agreeing_row(a: Seq<u8>, b: Seq<u8>)
    requires
        a.len() <= b.len(),
        forall|k: int| 0 <= k < a.len() ==> #[trigger] a[k] == b[k],
    ensures
        row_matches(a, b) == a.len(),
    decreases a.len(),
{
    if a.len() > 0 {
        lemma_agreeing_row(a.drop_last(), b);
    }
}

/// The name of a fault kind code.
pub fn from_index_to_str_error(index: usize) -> (r: &'static str)
    ensures
        index == 0 ==> r@ == "Stack-At-0"@,
        index == 1 ==> r@ == "Stack-At-1"@,
        index == 2 ==> r@ == "Flip-Bit"@,
        index > 2 ==> r@ == "None"@,
{
    if index == 0 {
        "Stack-At-0"
    } else if index == 1 {
        "Stack-At-1"
    } else if index == 2 {
        "Flip-Bit"
    } else {
        "None"
    }
}

/// The name of a component code.
pub fn from_index_to_str_component(index: usize) -> (r: &'static str)
    ensures
        index == 0 ==> r@ == "Threshold"@,
        index == 1 ==> r@ == "Membrane"@,
        index == 2 ==> r@ == "Extra Weight"@,
        index == 3 ==> r@ == "Intra Weight"@,
        index == 4 ==> r@ == "Adder Output"@,
        index == 5 ==> r@ == "Adder Input"@,
        index == 6 ==> r@ == "Multiplier Output"@,
        index == 7 ==> r@ == "Multiplier Input"@,
        index > 7 ==> r@ == "None"@,
{
    if index == 0 {
        "Threshold"
    } else if index == 1 {
        "Membrane"
    } else if index == 2 {
        "Extra Weight"
    } else if index == 3 {
        "Intra Weight"
    } else if index == 4 {
        "Adder Output"
    } else if index == 5 {
        "Adder Input"
    } else if index == 6 {
        "Multiplier Output"
    } else if index == 7 {
        "Multiplier Input"
    } else {
        "None"
    }
}

/// Which inputs of a unit carry a fault, from their fault codes (3 marks a
/// clean input): 1 for a faulted input, 0 for a clean one.
pub fn faulted_inputs(input1: i32, input2: i32) -> (r: (u8, u8))
    ensures
        r == ((if input1 != 3 { 1u8 } else { 0u8 }), (if input2 != 3 { 1u8 } else { 0u8 })),
{
    (if input1 != 3 { 1 } else { 0 }, if input2 != 3 { 1 } else { 0 })
}

} // verus!
