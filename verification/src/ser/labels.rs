//! The set of the labels of a file in the making, which gives each label a
//! number: the place at which it was put in first.
//!
//! The set is an `indexmap::IndexSet` of the 16 bytes of each label.

use indexmap::IndexSet;
use std::collections::hash_map::RandomState;
use vstd::prelude::*;

verus! {

/// The insertion-ordered hash set of the `indexmap` crate.
#[verifier::external_type_specification]
#[verifier::external_body]
#[verifier::reject_recursive_types(T)]
#[verifier::reject_recursive_types(S)]
pub struct ExIndexSet<T, S>(IndexSet<T, S>);

/// What a set of labels holds, in the order in which it was put in.
pub uninterp spec fn label_set_items(set: IndexSet<[u8; 16], RandomState>) -> Seq<[u8; 16]>;

/// `IndexSet::new`: a set that holds nothing.
#[verifier::external_body]
pub(crate) fn label_set_new() -> (set: IndexSet<[u8; 16], RandomState>)
    ensures
        label_set_items(set) == Seq::<[u8; 16]>::empty(),
{
    IndexSet::new()
}

/// `IndexSet::insert_full`: where the set holds `value`, it stays as it is,
/// and the result is the place of `value` and `false`; where it does not,
/// `value` is put behind all that it holds, and the result is that place
/// and `true`.
#[verifier::external_body]
pub(crate) fn label_set_insert(set: &mut IndexSet<[u8; 16], RandomState>, value: [u8; 16]) -> (r:
    (usize, bool))
    ensures
        label_set_items(*old(set)).contains(value) ==> label_set_items(*final(set))
            == label_set_items(*old(set)) && !r.1 && r.0 < label_set_items(*old(set)).len()
            && label_set_items(*old(set))[r.0 as int] == value,
        !label_set_items(*old(set)).contains(value) ==> label_set_items(*final(set))
            == label_set_items(*old(set)).push(value) && r.1 && r.0 == label_set_items(
            *old(set),
        ).len(),
{
    set.insert_full(value)
}

/// `IndexSet::len`: how many labels the set holds.
#[verifier::external_body]
pub(crate) fn label_set_len(set: &IndexSet<[u8; 16], RandomState>) -> (n: usize)
    ensures
        n == label_set_items(*set).len(),
{
    set.len()
}

/// `IndexSet::get_index`: the label at the place `index`, where the set
/// holds that many.
#[verifier::external_body]
pub(crate) fn label_set_get(set: &IndexSet<[u8; 16], RandomState>, index: usize) -> (r: Option<
    [u8; 16],
>)
    ensures
        r == if index < label_set_items(*set).len() {
            Some(label_set_items(*set)[index as int])
        } else {
            None
        },
{
    set.get_index(index).copied()
}

} // verus!
