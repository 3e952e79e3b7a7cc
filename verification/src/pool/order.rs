use indexmap::IndexSet;
use vstd::prelude::*;

verus! {

#[verifier::external_type_specification]
#[verifier::external_body]
#[verifier::reject_recursive_types(T)]
#[verifier::reject_recursive_types(S)]
pub struct ExIndexSet<T, S>(IndexSet<T, S>);

/// The tokens of an ordered set, in the order in which it hands them out.
pub uninterp spec fn set_order(set: IndexSet<usize>) -> Seq<usize>;

/// `IndexSet::new`: the new set is empty.
#[verifier::external_body]
pub(crate) fn order_new() -> (made: IndexSet<usize>)
    ensures
        set_order(made) == Seq::<usize>::empty(),
{
    IndexSet::new()
}

/// `IndexSet::insert`: a value that is not yet in the set is appended after
/// all others and `true` is returned; one that is already there leaves the
/// set and its order as they were and gives `false`.
#[verifier::external_body]
pub(crate) fn order_insert(set: &mut IndexSet<usize>, token: usize) -> (fresh: bool)
    ensures
        fresh == !set_order(*old(set)).contains(token),
        set_order(*final(set)) == (if fresh {
            set_order(*old(set)).push(token)
        } else {
            set_order(*old(set))
        }),
{
    set.insert(token)
}

/// `IndexSet::shift_remove`: a value that is in the set is taken out, the
/// values behind it keep their relative order, and `true` is returned; for a
/// value that is not there nothing changes and `false` is returned.
#[verifier::external_body]
pub(crate) fn order_shift_remove(set: &mut IndexSet<usize>, token: usize) -> (found: bool)
    ensures
        found == set_order(*old(set)).contains(token),
        set_order(*final(set)) == (if found {
            set_order(*old(set)).remove(set_order(*old(set)).index_of(token))
        } else {
            set_order(*old(set))
        }),
{
    set.shift_remove(&token)
}

/// `IndexSet::get_index`: the value at a position below the length, `None`
/// from the length on.
#[verifier::external_body]
pub(crate) fn order_get_index(set: &IndexSet<usize>, index: usize) -> (found: Option<usize>)
    ensures
        found == (if index < set_order(*set).len() {
            Some(set_order(*set)[index as int])
        } else {
            None
        }),
{
    set.get_index(index).copied()
}

/// `IndexSet::is_empty`: whether the set holds no value.
#[verifier::external_body]
pub(crate) fn order_is_empty(set: &IndexSet<usize>) -> (empty: bool)
    ensures
        empty == (set_order(*set).len() == 0),
{
    set.is_empty()
}

/// `IndexSet::len`: how many values the set holds.
#[verifier::external_body]
pub(crate) fn order_len(set: &IndexSet<usize>) -> (len: usize)
    ensures
        len == set_order(*set).len(),
{
    set.len()
}

/// `IndexSet::shift_remove_index`: the value at a position below the length
/// is taken out and returned, and the values behind it keep their relative
/// order; from the length on nothing changes and `None` is returned.
#[verifier::external_body]
pub(crate) fn order_shift_remove_index(set: &mut IndexSet<usize>, index: usize) -> (removed: Option<
    usize,
>)
    ensures
        removed == (if index < set_order(*old(set)).len() {
            Some(set_order(*old(set))[index as int])
        } else {
            None
        }),
        set_order(*final(set)) == (if index < set_order(*old(set)).len() {
            set_order(*old(set)).remove(index as int)
        } else {
            set_order(*old(set))
        }),
{
    set.shift_remove_index(index)
}

} // verus!
