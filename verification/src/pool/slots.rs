use slab::Slab;
use vstd::prelude::*;

use crate::pool::types::Waiter;

verus! {

#[verifier::external_type_specification]
#[verifier::external_body]
#[verifier::reject_recursive_types(T)]
pub struct ExSlab<T>(Slab<T>);

/// The occupied slots of a slab of waiting callers: slot token to caller.
pub uninterp spec fn slab_entries(slab: Slab<Waiter>) -> Map<usize, Waiter>;

/// `Slab::new`: the new slab has no occupied slot.
#[verifier::external_body]
pub(crate) fn slab_new() -> (made: Slab<Waiter>)
    ensures
        slab_entries(made) =~= Map::empty(),
{
    Slab::new()
}

/// `Slab::insert`: the value goes into a slot that was vacant, whose token is
/// returned; every other slot is untouched.
#[verifier::external_body]
pub(crate) fn slab_insert(slab: &mut Slab<Waiter>, value: Waiter) -> (token: usize)
    ensures
        !slab_entries(*old(slab)).dom().contains(token),
        slab_entries(*final(slab)) == slab_entries(*old(slab)).insert(token, value),
{
    slab.insert(value)
}

/// `Slab::try_remove`: an occupied slot is vacated and its value returned; a
/// vacant or unknown token leaves the slab as it was and gives `None`.
#[verifier::external_body]
pub(crate) fn slab_try_remove(slab: &mut Slab<Waiter>, token: usize) -> (removed: Option<Waiter>)
    ensures
        removed == (if slab_entries(*old(slab)).dom().contains(token) {
            Some(slab_entries(*old(slab))[token])
        } else {
            None
        }),
        slab_entries(*final(slab)) == slab_entries(*old(slab)).remove(token),
{
    slab.try_remove(token)
}

/// `Slab::get`: the value in an occupied slot, `None` for any other token.
#[verifier::external_body]
pub(crate) fn slab_get(slab: &Slab<Waiter>, token: usize) -> (found: Option<&Waiter>)
    ensures
        found == (if slab_entries(*slab).dom().contains(token) {
            Some(&slab_entries(*slab)[token])
        } else {
            None
        }),
{
    slab.get(token)
}

} // verus!
