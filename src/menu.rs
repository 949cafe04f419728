use vstd::prelude::*;

verus! {

/// The outcome of one answer to the component menu.
#[derive(Clone, Copy, Debug, PartialEq, Eq, Structural)]
pub enum Selection {
    /// The answer -1 ends the selection.
    Done,
    /// The answer is no menu entry.
    Invalid,
    /// The component was selected before.
    AlreadySelected,
    /// The component was added; more may follow.
    Added,
    /// Every component is selected: the selection ends.
    Complete,
}

/// The components `0..8`, in order.
pub open spec fn all_components() -> Seq<i32> {
    seq![0i32, 1, 2, 3, 4, 5, 6, 7]
}

/// Applies one answer `choice` of the component menu to the selection so far:
/// -1 ends it, 8 selects every component, a component in `0..8` not yet
/// selected is added, and the selection ends once it holds all eight.
pub fn select_component(components: &mut Vec<i32>, choice: i32) -> (r: Selection)
    requires
        old(components)@.no_duplicates(),
        forall|k: int| 0 <= k < old(components)@.len() ==> 0 <= #[trigger] old(components)@[k] < 8,
    ensures
        final(components)@.no_duplicates(),
        forall|k: int| 0 <= k < final(components)@.len() ==> 0 <= #[trigger] final(components)@[k] < 8,
        choice == -1 ==> r == Selection::Done && final(components)@ == old(components)@,
        choice != -1 && (choice < 0 || choice > 8) ==> r == Selection::Invalid && final(components)@
            == old(components)@,
        0 <= choice <= 8 && old(components)@.contains(choice) ==> r == Selection::AlreadySelected
            && final(components)@ == old(components)@,
        choice == 8 ==> r == Selection::Complete && final(components)@ == all_components(),
        0 <= choice < 8 && !old(components)@.contains(choice) ==> final(components)@ == old(
            components,
        )@.push(choice) && (r == Selection::Complete <==> final(components)@.len() == 8) && (r
            == Selection::Added <==> final(components)@.len() < 8),
{
    if choice == -1 {
        return Selection::Done;
    }
    if choice < 0 || choice > 8 {
        return Selection::Invalid;
    }
    let mut k: usize = 0;
    while k < components.len()
        invariant
            components@ == old(components)@,
            components@.no_duplicates(),
            forall|j: int| 0 <= j < components@.len() ==> 0 <= #[trigger] components@[j] < 8,
            k <= components@.len(),
            forall|j: int| 0 <= j < k ==> #[trigger] components@[j] != choice,
        decreases components@.len() - k,
    {
        if components[k] == choice {
            return Selection::AlreadySelected;
        }
        k = k + 1;
    }
    if choice == 8 {
        components.clear();
        let mut c: i32 = 0;
        while c < 8
            invariant
                0 <= c <= 8,
                components@ == all_components().subrange(0, c as int),
            decreases 8 - c,
        {
            components.push(c);
            c = c + 1;
        }
        assert(components@ == all_components());
        return Selection::Complete;
    }
    assert(!old(components)@.contains(choice));
    components.push(choice);
    proof {
        assert forall|j: int| 0 <= j < components@.len() implies 0 <= #[trigger] components@[j] < 8 by {
            if j < old(components)@.len() {
                assert(components@[j] == old(components)@[j]);
            }
        }
        lemma_bounded_distinct_len(components@);
    }
    if components.len() == 8 {
        Selection::Complete
    } else {
        Selection::Added
    }
}

/// Distinct values in `0..8` are at most eight.
proof fn lemma_bounded_distinct_len(s: Seq<i32>)
    requires
        s.no_duplicates(),
        forall|k: int| 0 <= k < s.len() ==> 0 <= #[trigger] s[k] < 8,
    ensures
        s.len() <= 8,
{
    let ints = vstd::set_lib::set_int_range(0, 8);
    let range = ints.map(|v: int| v as i32);
    vstd::set_lib::lemma_int_range(0, 8);
    vstd::set_lib::lemma_map_size_bound(ints, range, |v: int| v as i32);
    let values = s.to_set();
    assert forall|v: i32| values.contains(v) implies range.contains(v) by {
        let k = choose|k: int| 0 <= k < s.len() && s[k] == v;
        assert(ints.contains(v as int));
    }
    vstd::set_lib::lemma_len_subset(values, range);
    s.unique_seq_to_set();
}

} // verus!
