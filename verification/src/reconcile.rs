//! The join of the records of two files that describe the same games.
//!
//! Each record of the primary side is joined with the first record of the
//! secondary side that matches it. A primary record without a match is
//! dropped, and so is every secondary record that no primary record asked
//! for: this is an inner join. Where several secondary records match, the
//! first in the order given wins; a caller who wants the last reverses the
//! secondary side before the call.

use vstd::prelude::*;
use crate::text::{lemma_views_push, views};

verus! {

/// How two kinds of record are matched and merged.
pub trait JoinRule {
    /// A record of the side that is walked.
    type Primary: View;

    /// A record of the side that is searched.
    type Secondary: View;

    /// What a matching pair becomes.
    type Joined: View;

    /// Whether the two records describe the same game.
    spec fn matches(
        &self,
        primary: <Self::Primary as View>::V,
        secondary: <Self::Secondary as View>::V,
    ) -> bool;

    /// The record made of a matching pair.
    spec fn merged(
        &self,
        primary: <Self::Primary as View>::V,
        secondary: <Self::Secondary as View>::V,
    ) -> <Self::Joined as View>::V;

    /// Tests whether the two records describe the same game.
    fn is_match(&self, primary: &Self::Primary, secondary: &Self::Secondary) -> (r: bool)
        ensures
            r == self.matches(primary@, secondary@),
    ;

    /// Makes the record of a matching pair.
    fn merge(&self, primary: &Self::Primary, secondary: &Self::Secondary) -> (r: Self::Joined)
        ensures
            r@ == self.merged(primary@, secondary@),
    ;
}

/// `at` is the index of the first record of `secondary` that matches
/// `primary`.
pub open spec fn is_first_match<J: JoinRule>(
    rule: &J,
    primary: <J::Primary as View>::V,
    secondary: Seq<<J::Secondary as View>::V>,
    at: int,
) -> bool {
    &&& 0 <= at < secondary.len()
    &&& rule.matches(primary, secondary[at])
    &&& forall|j: int| 0 <= j < at ==> !rule.matches(primary, #[trigger] secondary[j])
}

/// The index of the first record of `secondary` that matches `primary`.
pub open spec fn first_match<J: JoinRule>(
    rule: &J,
    primary: <J::Primary as View>::V,
    secondary: Seq<<J::Secondary as View>::V>,
) -> Option<int> {
    if exists|at: int| is_first_match(rule, primary, secondary, at) {
        Some(choose|at: int| is_first_match(rule, primary, secondary, at))
    } else {
        None
    }
}

/// What one primary record adds to the output: its merge with its first
/// match, or nothing.
pub open spec fn joined_one<J: JoinRule>(
    rule: &J,
    primary: <J::Primary as View>::V,
    secondary: Seq<<J::Secondary as View>::V>,
) -> Seq<<J::Joined as View>::V> {
    match first_match(rule, primary, secondary) {
        Some(at) => seq![rule.merged(primary, secondary[at])],
        None => Seq::empty(),
    }
}

/// The inner join of `primary` with `secondary`, in the order of `primary`.
pub open spec fn inner_join<J: JoinRule>(
    rule: &J,
    primary: Seq<<J::Primary as View>::V>,
    secondary: Seq<<J::Secondary as View>::V>,
) -> Seq<<J::Joined as View>::V>
    decreases primary.len(),
{
    if primary.len() == 0 {
        Seq::empty()
    } else {
        inner_join(rule, primary.drop_last(), secondary) + joined_one(
            rule,
            primary.last(),
            secondary,
        )
    }
}

/// A first match is the only one: `first_match` returns it.
pub proof fn lemma_first_match_is<J: JoinRule>(
    rule: &J,
    primary: <J::Primary as View>::V,
    secondary: Seq<<J::Secondary as View>::V>,
    at: int,
)
    requires
        is_first_match(rule, primary, secondary, at),
    ensures
        first_match(rule, primary, secondary) == Some(at),
{
    let chosen = choose|k: int| is_first_match(rule, primary, secondary, k);
    assert(is_first_match(rule, primary, secondary, chosen));
    if chosen < at {
        assert(!rule.matches(primary, secondary[chosen]));
    }
    if at < chosen {
        assert(!rule.matches(primary, secondary[at]));
    }
}

/// The index of the first record of `secondary` that matches `primary`.
pub fn find_match<J: JoinRule>(rule: &J, primary: &J::Primary, secondary: &Vec<J::Secondary>) -> (r:
    Option<usize>)
    ensures
        match r {
            Some(at) => first_match(rule, primary@, views(secondary@)) == Some(at as int) && at
                < secondary.len(),
            None => first_match(rule, primary@, views(secondary@)) is None,
        },
{
    let mut at: usize = 0;
    while at < secondary.len()
        invariant
            at <= secondary.len(),
            forall|j: int| 0 <= j < at ==> !rule.matches(primary@, #[trigger] views(secondary@)[j]),
        decreases secondary.len() - at,
    {
        if rule.is_match(primary, &secondary[at]) {
            proof {
                assert(views(secondary@)[at as int] == secondary[at as int]@);
                lemma_first_match_is(rule, primary@, views(secondary@), at as int);
            }
            return Some(at);
        }
        at += 1;
    }
    proof {
        assert forall|k: int| !is_first_match(rule, primary@, views(secondary@), k) by {
            if 0 <= k < secondary.len() {
                assert(!rule.matches(primary@, views(secondary@)[k]));
            }
        }
    }
    None
}

/// Joins each record of `primary` with the first record of `secondary` that
/// matches it, and drops the records without a match.
pub fn reconcile<J: JoinRule>(rule: &J, primary: &Vec<J::Primary>, secondary: &Vec<J::Secondary>) -> (r:
    Vec<J::Joined>)
    ensures
        views(r@) == inner_join(rule, views(primary@), views(secondary@)),
{
    let mut joined: Vec<J::Joined> = Vec::new();
    let mut i: usize = 0;
    proof {
        assert(views(primary@).take(0) =~= Seq::empty());
        assert(views(joined@) =~= Seq::empty());
    }
    while i < primary.len()
        invariant
            i <= primary.len(),
            views(joined@) == inner_join(rule, views(primary@).take(i as int), views(secondary@)),
        decreases primary.len() - i,
    {
        proof {
            let upto = views(primary@).take(i + 1);
            assert(upto.drop_last() =~= views(primary@).take(i as int));
            assert(upto.last() == primary[i as int]@);
        }
        match find_match(rule, &primary[i], secondary) {
            Some(at) => {
                let record = rule.merge(&primary[i], &secondary[at]);
                proof {
                    lemma_views_push(joined@, record);
                    assert(views(secondary@)[at as int] == secondary[at as int]@);
                    assert(views(joined@).push(record@) =~= views(joined@) + seq![record@]);
                }
                joined.push(record);
            },
            None => {
                proof {
                    assert(views(joined@) + Seq::<<J::Joined as View>::V>::empty() =~= views(
                        joined@,
                    ));
                }
            },
        }
        i += 1;
    }
    proof {
        assert(views(primary@).take(primary@.len() as int) =~= views(primary@));
    }
    joined
}

/// `joined` is the merge of `primary` with its first match in `secondary`.
pub open spec fn is_joined_from<J: JoinRule>(
    rule: &J,
    primary: <J::Primary as View>::V,
    secondary: Seq<<J::Secondary as View>::V>,
    joined: <J::Joined as View>::V,
) -> bool {
    first_match(rule, primary, secondary) matches Some(at) && joined == rule.merged(
        primary,
        secondary[at],
    )
}

/// What a first match is: `first_match` returns an index only where the
/// record there matches and none before it does.
pub proof fn lemma_first_match_found<J: JoinRule>(
    rule: &J,
    primary: <J::Primary as View>::V,
    secondary: Seq<<J::Secondary as View>::V>,
)
    ensures
        first_match(rule, primary, secondary) matches Some(at) ==> is_first_match(
            rule,
            primary,
            secondary,
            at,
        ),
        first_match(rule, primary, secondary) is None ==> forall|j: int|
            0 <= j < secondary.len() ==> !rule.matches(primary, #[trigger] secondary[j]),
{
    if first_match(rule, primary, secondary) is None {
        assert forall|j: int| 0 <= j < secondary.len() implies !rule.matches(
            primary,
            #[trigger] secondary[j],
        ) by {
            if rule.matches(primary, secondary[j]) {
                lemma_some_match_has_first(rule, primary, secondary, j);
            }
        }
    }
}

/// Where some record matches, one of them is the first.
pub proof fn lemma_some_match_has_first<J: JoinRule>(
    rule: &J,
    primary: <J::Primary as View>::V,
    secondary: Seq<<J::Secondary as View>::V>,
    at: int,
)
    requires
        0 <= at < secondary.len(),
        rule.matches(primary, secondary[at]),
    ensures
        exists|first: int| is_first_match(rule, primary, secondary, first) && first <= at,
    decreases at,
{
    if exists|j: int| 0 <= j < at && rule.matches(primary, #[trigger] secondary[j]) {
        let j = choose|j: int| 0 <= j < at && rule.matches(primary, #[trigger] secondary[j]);
        lemma_some_match_has_first(rule, primary, secondary, j);
    } else {
        assert(is_first_match(rule, primary, secondary, at));
    }
}

/// The output of the join holds exactly the merges of the primary records
/// with their first matches: nothing else comes out, and no primary record
/// that has a match is left out.
pub proof fn lemma_inner_join_contains<J: JoinRule>(
    rule: &J,
    primary: Seq<<J::Primary as View>::V>,
    secondary: Seq<<J::Secondary as View>::V>,
    joined: <J::Joined as View>::V,
)
    ensures
        inner_join(rule, primary, secondary).contains(joined) <==> exists|i: int|
            0 <= i < primary.len() && is_joined_from(rule, #[trigger] primary[i], secondary, joined),
    decreases primary.len(),
{
    let all = inner_join(rule, primary, secondary);
    if primary.len() > 0 {
        let before = inner_join(rule, primary.drop_last(), secondary);
        let last = joined_one(rule, primary.last(), secondary);
        lemma_inner_join_contains(rule, primary.drop_last(), secondary, joined);
        if all.contains(joined) {
            let at = choose|at: int| 0 <= at < all.len() && all[at] == joined;
            if at < before.len() {
                assert(before[at] == joined);
                assert(before.contains(joined));
                let i = choose|i: int|
                    0 <= i < primary.drop_last().len() && is_joined_from(
                        rule,
                        #[trigger] primary.drop_last()[i],
                        secondary,
                        joined,
                    );
                assert(primary[i] == primary.drop_last()[i]);
            } else {
                assert(last[at - before.len()] == joined);
                assert(is_joined_from(rule, primary[primary.len() - 1], secondary, joined));
            }
        }
        if exists|i: int|
            0 <= i < primary.len() && is_joined_from(rule, #[trigger] primary[i], secondary, joined) {
            let i = choose|i: int|
                0 <= i < primary.len() && is_joined_from(
                    rule,
                    #[trigger] primary[i],
                    secondary,
                    joined,
                );
            if i < primary.len() - 1 {
                assert(primary.drop_last()[i] == primary[i]);
                assert(before.contains(joined));
                let at = choose|at: int| 0 <= at < before.len() && before[at] == joined;
                assert(all[at] == joined);
            } else {
                assert(last.len() == 1 && last[0] == joined);
                assert(all[before.len() as int] == joined);
            }
        }
    }
}

/// The join is as long as the number of primary records that have a match,
/// and never longer than the primary side.
pub proof fn lemma_inner_join_len<J: JoinRule>(
    rule: &J,
    primary: Seq<<J::Primary as View>::V>,
    secondary: Seq<<J::Secondary as View>::V>,
)
    ensures
        inner_join(rule, primary, secondary).len() <= primary.len(),
        secondary.len() == 0 ==> inner_join(rule, primary, secondary).len() == 0,
    decreases primary.len(),
{
    if primary.len() > 0 {
        lemma_inner_join_len(rule, primary.drop_last(), secondary);
        lemma_first_match_found(rule, primary.last(), secondary);
    }
}

/// The pairs of the join, by index: for each primary record that has a
/// match, its index and the index of its first match, in the order of the
/// primary side.
pub open spec fn matched_pairs<J: JoinRule>(
    rule: &J,
    primary: Seq<<J::Primary as View>::V>,
    secondary: Seq<<J::Secondary as View>::V>,
) -> Seq<(int, int)>
    decreases primary.len(),
{
    if primary.len() == 0 {
        Seq::empty()
    } else {
        let before = matched_pairs(rule, primary.drop_last(), secondary);
        match first_match(rule, primary.last(), secondary) {
            Some(at) => before.push((primary.len() - 1, at)),
            None => before,
        }
    }
}

/// `joined` is the merge of the records at the indices of `pair`, the
/// second being the first match of the first.
pub open spec fn is_pair_of<J: JoinRule>(
    rule: &J,
    primary: Seq<<J::Primary as View>::V>,
    secondary: Seq<<J::Secondary as View>::V>,
    pair: (int, int),
    joined: <J::Joined as View>::V,
) -> bool {
    &&& 0 <= pair.0 < primary.len()
    &&& 0 <= pair.1 < secondary.len()
    &&& first_match(rule, primary[pair.0], secondary) == Some(pair.1)
    &&& joined == rule.merged(primary[pair.0], secondary[pair.1])
}

/// The output of the join is made of its pairs, one record for each pair and
/// in their order, and no primary record stands in two pairs.
pub proof fn lemma_inner_join_by_pairs<J: JoinRule>(
    rule: &J,
    primary: Seq<<J::Primary as View>::V>,
    secondary: Seq<<J::Secondary as View>::V>,
)
    ensures
        inner_join(rule, primary, secondary).len() == matched_pairs(
            rule,
            primary,
            secondary,
        ).len(),
        forall|k: int|
            0 <= k < matched_pairs(rule, primary, secondary).len() ==> is_pair_of(
                rule,
                primary,
                secondary,
                #[trigger] matched_pairs(rule, primary, secondary)[k],
                inner_join(rule, primary, secondary)[k],
            ),
        forall|a: int, b: int|
            0 <= a < b < matched_pairs(rule, primary, secondary).len() ==> (#[trigger] matched_pairs(
                rule,
                primary,
                secondary,
            )[a]).0 < (#[trigger] matched_pairs(rule, primary, secondary)[b]).0,
    decreases primary.len(),
{
    if primary.len() > 0 {
        let init = primary.drop_last();
        lemma_inner_join_by_pairs(rule, init, secondary);
        lemma_first_match_found(rule, primary.last(), secondary);
        let before = matched_pairs(rule, init, secondary);
        let pairs = matched_pairs(rule, primary, secondary);
        let joined = inner_join(rule, primary, secondary);
        assert forall|k: int| 0 <= k < pairs.len() implies is_pair_of(
            rule,
            primary,
            secondary,
            #[trigger] pairs[k],
            joined[k],
        ) by {
            if k < before.len() {
                assert(pairs[k] == before[k]);
                assert(is_pair_of(
                    rule,
                    init,
                    secondary,
                    before[k],
                    inner_join(rule, init, secondary)[k],
                ));
                assert(init[before[k].0] == primary[before[k].0]);
                assert(joined[k] == inner_join(rule, init, secondary)[k]);
            } else {
                assert(pairs[k].0 == primary.len() - 1);
            }
        }
        assert forall|a: int, b: int| 0 <= a < b < pairs.len() implies (#[trigger] pairs[a]).0 < (
        #[trigger] pairs[b]).0 by {
            assert(pairs[a] == before[a]);
            assert(is_pair_of(
                rule,
                init,
                secondary,
                before[a],
                inner_join(rule, init, secondary)[a],
            ));
            if b < before.len() {
                assert(pairs[b] == before[b]);
            }
        }
    }
}

/// Every primary record that has a match stands in a pair, with its first
/// match.
pub proof fn lemma_matched_pairs_cover<J: JoinRule>(
    rule: &J,
    primary: Seq<<J::Primary as View>::V>,
    secondary: Seq<<J::Secondary as View>::V>,
    i: int,
    j: int,
)
    requires
        0 <= i < primary.len(),
        first_match(rule, primary[i], secondary) == Some(j),
    ensures
        matched_pairs(rule, primary, secondary).contains((i, j)),
    decreases primary.len(),
{
    let init = primary.drop_last();
    let before = matched_pairs(rule, init, secondary);
    let pairs = matched_pairs(rule, primary, secondary);
    if i < primary.len() - 1 {
        assert(init[i] == primary[i]);
        lemma_matched_pairs_cover(rule, init, secondary, i, j);
        let k = choose|k: int| 0 <= k < before.len() && before[k] == (i, j);
        assert(pairs[k] == (i, j));
    } else {
        assert(pairs[pairs.len() - 1] == (i, j));
    }
}

/// No primary record matches two secondary records, and no secondary
/// record is matched by two primary records.
pub open spec fn is_one_to_one<J: JoinRule>(
    rule: &J,
    primary: Seq<<J::Primary as View>::V>,
    secondary: Seq<<J::Secondary as View>::V>,
) -> bool {
    &&& forall|i: int, j: int, k: int|
        0 <= i < primary.len() && 0 <= j < secondary.len() && 0 <= k < secondary.len()
            && #[trigger] rule.matches(primary[i], secondary[j]) && #[trigger] rule.matches(
            primary[i],
            secondary[k],
        ) ==> j == k
    &&& forall|i: int, h: int, j: int|
        0 <= i < primary.len() && 0 <= h < primary.len() && 0 <= j < secondary.len()
            && #[trigger] rule.matches(primary[i], secondary[j]) && #[trigger] rule.matches(
            primary[h],
            secondary[j],
        ) ==> i == h
}

/// Where the records match one to one, the pairs of the join are exactly
/// the pairs of records that match: which side is walked and which is
/// searched decides the order of the pairs and nothing else.
pub proof fn lemma_pairs_are_the_matches<J: JoinRule>(
    rule: &J,
    primary: Seq<<J::Primary as View>::V>,
    secondary: Seq<<J::Secondary as View>::V>,
    i: int,
    j: int,
)
    requires
        is_one_to_one(rule, primary, secondary),
    ensures
        matched_pairs(rule, primary, secondary).contains((i, j)) <==> (0 <= i < primary.len() && 0
            <= j < secondary.len() && rule.matches(primary[i], secondary[j])),
{
    let pairs = matched_pairs(rule, primary, secondary);
    lemma_inner_join_by_pairs(rule, primary, secondary);
    if pairs.contains((i, j)) {
        let k = choose|k: int| 0 <= k < pairs.len() && pairs[k] == (i, j);
        assert(is_pair_of(
            rule,
            primary,
            secondary,
            pairs[k],
            inner_join(rule, primary, secondary)[k],
        ));
        lemma_first_match_found(rule, primary[i], secondary);
    }
    if 0 <= i < primary.len() && 0 <= j < secondary.len() && rule.matches(
        primary[i],
        secondary[j],
    ) {
        lemma_some_match_has_first(rule, primary[i], secondary, j);
        let first = choose|first: int|
            is_first_match(rule, primary[i], secondary, first) && first <= j;
        assert(rule.matches(primary[i], secondary[first]));
        assert(first == j);
        lemma_first_match_is(rule, primary[i], secondary, j);
        lemma_matched_pairs_cover(rule, primary, secondary, i, j);
    }
}

/// Where the records match one to one, no secondary record stands in two
/// pairs of the join.
pub proof fn lemma_pairs_use_each_once<J: JoinRule>(
    rule: &J,
    primary: Seq<<J::Primary as View>::V>,
    secondary: Seq<<J::Secondary as View>::V>,
    a: int,
    b: int,
)
    requires
        is_one_to_one(rule, primary, secondary),
        0 <= a < b < matched_pairs(rule, primary, secondary).len(),
    ensures
        matched_pairs(rule, primary, secondary)[a].0 < matched_pairs(rule, primary, secondary)[b].0,
        matched_pairs(rule, primary, secondary)[a].1 != matched_pairs(rule, primary, secondary)[b].1,
{
    let pairs = matched_pairs(rule, primary, secondary);
    let joined = inner_join(rule, primary, secondary);
    lemma_inner_join_by_pairs(rule, primary, secondary);
    assert(is_pair_of(rule, primary, secondary, pairs[a], joined[a]));
    assert(is_pair_of(rule, primary, secondary, pairs[b], joined[b]));
    lemma_first_match_found(rule, primary[pairs[a].0], secondary);
    lemma_first_match_found(rule, primary[pairs[b].0], secondary);
    assert(pairs[a].0 < pairs[b].0);
    if pairs[a].1 == pairs[b].1 {
        assert(rule.matches(primary[pairs[a].0], secondary[pairs[a].1]));
        assert(rule.matches(primary[pairs[b].0], secondary[pairs[a].1]));
    }
}

} // verus!
