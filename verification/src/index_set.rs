//! The insertion-ordered set of the `indexmap` crate, as far as the
//! same-application switcher uses it: built from a list of window handles,
//! queried, emptied by swap-removal and read back in order.
use vstd::prelude::*;
use indexmap::IndexSet;

verus! {

#[verifier::external_type_specification]
#[verifier::external_body]
#[verifier::reject_recursive_types(T)]
#[verifier::reject_recursive_types(S)]
pub struct ExIndexSet<T, S>(IndexSet<T, S>);

/// The items of an `IndexSet<isize>` in their index order.
pub uninterp spec fn index_set_items(s: IndexSet<isize>) -> Seq<isize>;

/// The sequence left by `IndexSet::swap_remove(x)`: the last item takes the
/// place of `x` and the set shrinks by one; nothing changes when `x` is absent.
pub open spec fn spec_swap_remove(items: Seq<isize>, x: isize) -> Seq<isize> {
    if !items.contains(x) {
        items
    } else {
        let i = items.index_of(x);
        if i == items.len() - 1 {
            items.drop_last()
        } else {
            items.update(i, items.last()).drop_last()
        }
    }
}

/// `IndexSet::from_iter` over the handles of `items`: the set keeps the
/// first occurrence of each value, in the order of the list.
#[verifier::external_body]
pub(crate) fn index_set_from_vec(items: &Vec<isize>) -> (s: IndexSet<isize>)
    ensures
        index_set_items(s) == items@.remove_duplicates(Seq::<isize>::empty()),
{
    items.iter().copied().collect()
}

/// `IndexSet::contains`: whether `x` is one of the items.
#[verifier::external_body]
pub(crate) fn index_set_contains(s: &IndexSet<isize>, x: isize) -> (r: bool)
    ensures
        r == index_set_items(*s).contains(x),
{
    s.contains(&x)
}

/// `IndexSet::swap_remove`: removes `x` by moving the last item into its
/// place, and tells whether `x` was present.
#[verifier::external_body]
pub(crate) fn index_set_swap_remove(s: &mut IndexSet<isize>, x: isize) -> (r: bool)
    ensures
        r == index_set_items(*old(s)).contains(x),
        index_set_items(*final(s)) == spec_swap_remove(index_set_items(*old(s)), x),
{
    s.swap_remove(&x)
}

/// `IndexSet::into_iter` collected into a vector: the items in index order.
#[verifier::external_body]
pub(crate) fn index_set_into_vec(s: IndexSet<isize>) -> (v: Vec<isize>)
    ensures
        v@ == index_set_items(s),
{
    s.into_iter().collect()
}

} // verus!
