//! The join of partial records by the value of a key, with a side that is
//! declared authoritative for the fields that both sides have.

use vstd::prelude::*;
use crate::reconcile::{
    first_match, inner_join, is_first_match, is_joined_from, lemma_first_match_found,
    lemma_first_match_is, lemma_inner_join_contains, JoinRule,
};
use crate::records::{lemma_value_of_add, value_of, Field, PartialRecord, RawField};
use crate::text::lemma_views_push;

verus! {

/// The side whose value is taken for a field that both sides have.
#[derive(Clone, Copy, PartialEq, Eq, Structural, Debug)]
pub enum Authority {
    Primary,
    Secondary,
}

/// Joins the records that give the same value for `key`, and merges each
/// pair with `authority` as the side that wins.
#[derive(Debug)]
pub struct FieldJoin {
    pub key: String,
    pub authority: Authority,
}

/// Both records give a value for `key`, and it is the same.
pub open spec fn same_key(key: Seq<char>, primary: Seq<Field>, secondary: Seq<Field>) -> bool {
    value_of(primary, key) is Some && value_of(primary, key) == value_of(secondary, key)
}

/// The fields of `other` whose keys `authoritative` does not have, in their
/// order.
pub open spec fn fields_lacking(other: Seq<Field>, authoritative: Seq<Field>) -> Seq<Field>
    decreases other.len(),
{
    if other.len() == 0 {
        Seq::empty()
    } else {
        let before = fields_lacking(other.drop_last(), authoritative);
        if value_of(authoritative, other.last().0) is None {
            before.push(other.last())
        } else {
            before
        }
    }
}

/// The merge of two records: the fields of the authoritative one, and then
/// the fields that only the other one has.
pub open spec fn merged_fields(authoritative: Seq<Field>, other: Seq<Field>) -> Seq<Field> {
    authoritative + fields_lacking(other, authoritative)
}

/// A record as the mapping from its keys to their values.
pub open spec fn as_map(fields: Seq<Field>) -> Map<Seq<char>, Seq<char>> {
    Map::new(
        |key: Seq<char>| value_of(fields, key) is Some,
        |key: Seq<char>| value_of(fields, key)->0,
    )
}

/// The two records give the same value for every key that both have: there
/// is no conflict for an authority to settle.
pub open spec fn agree(first: Seq<Field>, second: Seq<Field>) -> bool {
    forall|key: Seq<char>|
        value_of(first, key) is Some && value_of(second, key) is Some ==> #[trigger] value_of(
            first,
            key,
        ) == value_of(second, key)
}

/// What the fields that only the other record has give for a key: what the
/// other record gives, where the authoritative one gives nothing.
pub proof fn lemma_fields_lacking_value(other: Seq<Field>, authoritative: Seq<Field>, key: Seq<char>)
    ensures
        value_of(fields_lacking(other, authoritative), key) == if value_of(authoritative, key)
            is None {
            value_of(other, key)
        } else {
            None
        },
    decreases other.len(),
{
    if other.len() > 0 {
        lemma_fields_lacking_value(other.drop_last(), authoritative, key);
        let before = fields_lacking(other.drop_last(), authoritative);
        if value_of(authoritative, other.last().0) is None {
            assert(before.push(other.last()).drop_last() =~= before);
        }
    }
}

/// The merged record prefers the authoritative side: for every key it gives
/// the value of the authoritative record, and the value of the other record
/// only where the authoritative one has none.
pub proof fn lemma_merged_prefers_authority(authoritative: Seq<Field>, other: Seq<Field>, key: Seq<char>)
    ensures
        value_of(merged_fields(authoritative, other), key) == match value_of(authoritative, key) {
            Some(value) => Some(value),
            None => value_of(other, key),
        },
{
    lemma_value_of_add(authoritative, fields_lacking(other, authoritative), key);
    lemma_fields_lacking_value(other, authoritative, key);
}

/// Without a conflict it does not matter which side is authoritative: both
/// merges are the same mapping.
pub proof fn lemma_merge_commutes(first: Seq<Field>, second: Seq<Field>)
    requires
        agree(first, second),
    ensures
        as_map(merged_fields(first, second)) == as_map(merged_fields(second, first)),
{
    assert forall|key: Seq<char>|
        value_of(merged_fields(first, second), key) == value_of(
            merged_fields(second, first),
            key,
        ) by {
        lemma_merged_prefers_authority(first, second, key);
        lemma_merged_prefers_authority(second, first, key);
        if value_of(first, key) is Some && value_of(second, key) is Some {
            assert(value_of(first, key) == value_of(second, key));
        }
    }
    assert(as_map(merged_fields(first, second)) =~= as_map(merged_fields(second, first)));
}

impl FieldJoin {
    /// A copy of the fields of `authoritative`, and then of the fields that
    /// only `other` has.
    fn merge_fields(authoritative: &PartialRecord, other: &PartialRecord) -> (r: PartialRecord)
        ensures
            r@ == merged_fields(authoritative@, other@),
    {
        let mut merged = authoritative.duplicate();
        let mut i: usize = 0;
        proof {
            assert(other@.take(0) =~= Seq::empty());
            assert(merged@ =~= authoritative@ + fields_lacking(other@.take(0), authoritative@));
        }
        while i < other.fields.len()
            invariant
                i <= other.fields.len(),
                merged@ == authoritative@ + fields_lacking(other@.take(i as int), authoritative@),
            decreases other.fields.len() - i,
        {
            proof {
                assert(other@.take(i + 1).drop_last() =~= other@.take(i as int));
                assert(other@.take(i + 1).last() == other.fields[i as int]@);
            }
            if authoritative.get(other.fields[i].key.as_str()).is_none() {
                let field = RawField {
                    key: other.fields[i].key.clone(),
                    raw_value: other.fields[i].raw_value.clone(),
                };
                proof {
                    lemma_views_push(merged.fields@, field);
                    assert((authoritative@ + fields_lacking(
                        other@.take(i as int),
                        authoritative@,
                    )).push(field@) =~= authoritative@ + fields_lacking(
                        other@.take(i as int),
                        authoritative@,
                    ).push(field@));
                }
                merged.fields.push(field);
            }
            i += 1;
        }
        proof {
            assert(other@.take(other.fields@.len() as int) =~= other@);
        }
        merged
    }
}

impl JoinRule for FieldJoin {
    type Primary = PartialRecord;

    type Secondary = PartialRecord;

    type Joined = PartialRecord;

    open spec fn matches(&self, primary: Seq<Field>, secondary: Seq<Field>) -> bool {
        same_key(self.key@, primary, secondary)
    }

    open spec fn merged(&self, primary: Seq<Field>, secondary: Seq<Field>) -> Seq<Field> {
        match self.authority {
            Authority::Primary => merged_fields(primary, secondary),
            Authority::Secondary => merged_fields(secondary, primary),
        }
    }

    fn is_match(&self, primary: &PartialRecord, secondary: &PartialRecord) -> (r: bool) {
        match primary.get(self.key.as_str()) {
            Some(wanted) => match secondary.get(self.key.as_str()) {
                Some(found) => *found == *wanted,
                None => false,
            },
            None => false,
        }
    }

    fn merge(&self, primary: &PartialRecord, secondary: &PartialRecord) -> (r: PartialRecord) {
        match self.authority {
            Authority::Primary => Self::merge_fields(primary, secondary),
            Authority::Secondary => Self::merge_fields(secondary, primary),
        }
    }
}

/// No two records of `records` give the same value for `key`.
pub open spec fn keyed_once(records: Seq<Seq<Field>>, key: Seq<char>) -> bool {
    forall|i: int, j: int|
        0 <= i < j < records.len() && value_of(#[trigger] records[i], key) is Some ==> value_of(
            records[i],
            key,
        ) != value_of(#[trigger] records[j], key)
}

/// No record of `primary` and record of `secondary` that belong together
/// give different values for a key that both have.
pub open spec fn no_conflicts(primary: Seq<Seq<Field>>, secondary: Seq<Seq<Field>>, key: Seq<char>) -> bool {
    forall|i: int, j: int|
        0 <= i < primary.len() && 0 <= j < secondary.len() && same_key(
            key,
            #[trigger] primary[i],
            #[trigger] secondary[j],
        ) ==> agree(primary[i], secondary[j])
}

/// The records of `records` as a set of mappings: their order, and the
/// order of the fields in each, is left out.
pub open spec fn maps_of(records: Seq<Seq<Field>>) -> Set<Map<Seq<char>, Seq<char>>> {
    Set::new(
        |map: Map<Seq<char>, Seq<char>>|
            exists|i: int| 0 <= i < records.len() && as_map(#[trigger] records[i]) == map,
    )
}

proof fn lemma_join_within_swapped(
    rule: &FieldJoin,
    swapped: &FieldJoin,
    primary: Seq<Seq<Field>>,
    secondary: Seq<Seq<Field>>,
    map: Map<Seq<char>, Seq<char>>,
)
    requires
        rule.key@ == swapped.key@,
        keyed_once(primary, rule.key@),
        no_conflicts(primary, secondary, rule.key@),
        maps_of(inner_join(rule, primary, secondary)).contains(map),
    ensures
        maps_of(inner_join(swapped, secondary, primary)).contains(map),
{
    let key = rule.key@;
    let joined = inner_join(rule, primary, secondary);
    let at = choose|at: int| 0 <= at < joined.len() && as_map(#[trigger] joined[at]) == map;
    let record = joined[at];
    assert(joined.contains(record));
    lemma_inner_join_contains(rule, primary, secondary, record);
    let i = choose|i: int|
        0 <= i < primary.len() && is_joined_from(rule, #[trigger] primary[i], secondary, record);
    lemma_first_match_found(rule, primary[i], secondary);
    let j = first_match(rule, primary[i], secondary)->0;
    assert(same_key(key, primary[i], secondary[j]));
    assert(agree(primary[i], secondary[j]));
    assert(is_first_match(swapped, secondary[j], primary, i)) by {
        assert forall|k: int| 0 <= k < i implies !swapped.matches(
            secondary[j],
            #[trigger] primary[k],
        ) by {
            if swapped.matches(secondary[j], primary[k]) {
                assert(value_of(primary[k], key) == value_of(primary[i], key));
            }
        }
    }
    lemma_first_match_is(swapped, secondary[j], primary, i);
    let mirrored = swapped.merged(secondary[j], primary[i]);
    assert(is_joined_from(swapped, secondary[j], primary, mirrored));
    lemma_inner_join_contains(swapped, secondary, primary, mirrored);
    lemma_merge_commutes(primary[i], secondary[j]);
    let other = inner_join(swapped, secondary, primary);
    let there = choose|there: int| 0 <= there < other.len() && other[there] == mirrored;
    assert(as_map(other[there]) == map);
}

/// Which side is called primary does not change what comes out of the join,
/// as a set of mappings, where no matching pair has a conflict and each side
/// gives every value of the join key once at most. The sides may even
/// disagree on the authority: without a conflict it settles nothing.
pub proof fn lemma_reconcile_commutes(
    rule: &FieldJoin,
    swapped: &FieldJoin,
    primary: Seq<Seq<Field>>,
    secondary: Seq<Seq<Field>>,
)
    requires
        rule.key@ == swapped.key@,
        keyed_once(primary, rule.key@),
        keyed_once(secondary, rule.key@),
        no_conflicts(primary, secondary, rule.key@),
    ensures
        maps_of(inner_join(rule, primary, secondary)) == maps_of(
            inner_join(swapped, secondary, primary),
        ),
{
    let key = rule.key@;
    assert(no_conflicts(secondary, primary, key)) by {
        assert forall|j: int, i: int|
            0 <= j < secondary.len() && 0 <= i < primary.len() && same_key(
                key,
                #[trigger] secondary[j],
                #[trigger] primary[i],
            ) implies agree(secondary[j], primary[i]) by {
            assert(same_key(key, primary[i], secondary[j]));
            assert(agree(primary[i], secondary[j]));
        }
    }
    let left = maps_of(inner_join(rule, primary, secondary));
    let right = maps_of(inner_join(swapped, secondary, primary));
    assert forall|map: Map<Seq<char>, Seq<char>>| left.contains(map) <==> right.contains(map) by {
        if left.contains(map) {
            lemma_join_within_swapped(rule, swapped, primary, secondary, map);
        }
        if right.contains(map) {
            lemma_join_within_swapped(swapped, rule, secondary, primary, map);
        }
    }
    assert(left =~= right);
}

/// Where a matching pair has a conflict, the declared authority decides:
/// every record of the output gives, for every key, the value of the
/// authoritative record of its pair, and the value of the other record only
/// where the authoritative one has none.
pub proof fn lemma_reconcile_prefers_authority(
    rule: &FieldJoin,
    primary: Seq<Seq<Field>>,
    secondary: Seq<Seq<Field>>,
    at: int,
    key: Seq<char>,
)
    requires
        0 <= at < inner_join(rule, primary, secondary).len(),
    ensures
        exists|i: int, j: int|
            0 <= i < primary.len() && 0 <= j < secondary.len() && first_match(
                rule,
                #[trigger] primary[i],
                secondary,
            ) == Some(j) && value_of(inner_join(rule, primary, secondary)[at], key) == (
            match rule.authority {
                Authority::Primary => match value_of(primary[i], key) {
                    Some(value) => Some(value),
                    None => value_of(#[trigger] secondary[j], key),
                },
                Authority::Secondary => match value_of(secondary[j], key) {
                    Some(value) => Some(value),
                    None => value_of(primary[i], key),
                },
            }),
{
    let joined = inner_join(rule, primary, secondary);
    let record = joined[at];
    assert(joined.contains(record));
    lemma_inner_join_contains(rule, primary, secondary, record);
    let i = choose|i: int|
        0 <= i < primary.len() && is_joined_from(rule, #[trigger] primary[i], secondary, record);
    lemma_first_match_found(rule, primary[i], secondary);
    let j = first_match(rule, primary[i], secondary)->0;
    lemma_merged_prefers_authority(primary[i], secondary[j], key);
    lemma_merged_prefers_authority(secondary[j], primary[i], key);
}

} // verus!
