//! Indexed access to a list of five integers.

use vstd::prelude::*;

verus! {

/// Returns the element of `list` at `index`.
///
/// An index of five or more names no element, so it is not accepted here;
/// [`element_at`] answers for every index.
pub fn list_example(index: usize, list: [i32; 5]) -> (element_in_list: i32)
    requires
        index < 5,
    ensures
        element_in_list == list@[index as int],
{
    list[index]
}

/// Returns the element of `list` at `index`, or `None` where `index` is out
/// of bounds.
pub fn element_at(index: usize, list: [i32; 5]) -> (found: Option<i32>)
    ensures
        index < 5 ==> found == Some(list@[index as int]),
        index >= 5 ==> found is None,
{
    if index >= list.len() {
        None
    } else {
        Some(list_example(index, list))
    }
}

} // verus!
