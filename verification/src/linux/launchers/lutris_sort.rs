//! The sort of the game paths of Lutris by run id.

use vstd::prelude::*;
use core::cmp::Ordering;
use itertools::Itertools;
use crate::linux::launchers::lutris::{compare_run_ids, is_stable_sort, ParsableGamePathsData};
use crate::text::{text_order, views, TextOrder};

verus! {

/// How the run id of `a` stands to that of `b`, in the terms of the
/// standard library.
pub fn run_id_ordering(a: &ParsableGamePathsData, b: &ParsableGamePathsData) -> (r: Ordering)
    ensures
        r == (match text_order(a@.run_id, b@.run_id) {
            TextOrder::Before => Ordering::Less,
            TextOrder::Same => Ordering::Equal,
            TextOrder::After => Ordering::Greater,
        }),
{
    match compare_run_ids(a, b) {
        TextOrder::Before => Ordering::Less,
        TextOrder::Same => Ordering::Equal,
        TextOrder::After => Ordering::Greater,
    }
}

/// Trusted: calls `Itertools::sorted_by` of itertools, which collects the
/// items and sorts them with the stable `sort_by` of slices. With the order
/// of the run ids as the comparison, the records come out in that order and
/// records with the same run id stay in the order they came in.
#[verifier::external_body]
pub(crate) fn sort_by_run_id(items: Vec<ParsableGamePathsData>) -> (r: Vec<ParsableGamePathsData>)
    ensures
        is_stable_sort(views(r@), views(items@)),
{
    items.into_iter().sorted_by(|a, b| run_id_ordering(a, b)).collect()
}

} // verus!
