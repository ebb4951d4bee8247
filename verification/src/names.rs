//! The mathematical model of a name list, and a lookup over it.

use vstd::prelude::*;

verus! {

/// The sequence of character views of a sequence of strings.
pub open spec fn name_views(names: Seq<String>) -> Seq<Seq<char>> {
    names.map_values(|s: String| s@)
}

/// Whether some string in `names` reads as `target`.
pub fn contains_name(names: &Vec<String>, target: &String) -> (found: bool)
    ensures
        found == name_views(names@).contains(target@),
{
    broadcast use vstd::seq_lib::lemma_seq_contains;

    let mut i: usize = 0;
    while i < names.len()
        invariant
            i <= names@.len(),
            forall|j: int| 0 <= j < i ==> name_views(names@)[j] != target@,
        decreases names@.len() - i,
    {
        if names[i] == *target {
            assert(name_views(names@)[i as int] == target@);
            return true;
        }
        i += 1;
    }
    false
}

} // verus!
