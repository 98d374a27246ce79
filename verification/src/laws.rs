//! What holds of the store's operations taken together.
//!
//! The laws speak of a document and of the keys of its records. Where a law
//! follows the document through an operation, it takes `key_of`, the way a
//! record's key derives from the record, and works with the keys that
//! `key_of` gives.

use vstd::prelude::*;
use vstd::multiset::Multiset;
use crate::database::{gives_key, keys_given, GetKeyAttributesValue};
use crate::document::{deleted, first_match, lemma_first_match, matching, queried, updated};
use crate::error::StoreError;

verus! {

/// The keys of `records`, position by position, where `key_of` derives each
/// record's key.
pub open spec fn keys_by<T>(records: Seq<T>, key_of: spec_fn(T) -> Seq<char>) -> Seq<Seq<char>> {
    records.map_values(key_of)
}

/// The document after each of `values` was inserted in turn.
pub open spec fn inserted_all<T>(records: Seq<T>, values: Seq<T>) -> Seq<T>
    decreases values.len(),
{
    if values.len() == 0 {
        records
    } else {
        inserted_all(records, values.drop_last()).push(values.last())
    }
}

/// The outcome of a query that finds no record.
pub open spec fn not_found<T>() -> Result<T, StoreError> {
    Err(StoreError::NotFound)
}

/// No position but `i` holds `key`.
pub open spec fn no_other_match(keys: Seq<Seq<char>>, key: Seq<char>, i: int) -> bool {
    forall|j: int| 0 <= j < keys.len() && j != i ==> keys[j] != key
}

/// Every record of the type gives one key only, the one that `key_of` names.
pub open spec fn keyed_by<T: GetKeyAttributesValue>(key_of: spec_fn(T) -> Seq<char>) -> bool {
    forall|record: T, key: Seq<char>| #[trigger] gives_key(record, key) ==> key == key_of(record)
}

/// Where every record gives one key only, the keys that the records of a
/// document give are the keys that `key_of` names.
pub proof fn law_given_keys_are_derived<T: GetKeyAttributesValue>(
    records: Seq<T>,
    keys: Seq<Seq<char>>,
    key_of: spec_fn(T) -> Seq<char>,
)
    requires
        keyed_by::<T>(key_of),
        keys_given(records, keys),
    ensures
        keys == keys_by(records, key_of),
{
    assert forall|i: int| 0 <= i < records.len() implies keys[i] == key_of(records[i]) by {
        assert(gives_key(records[i], keys[i]));
    }
}

/// A record that was inserted is found under its key: a query for the key
/// yields a record with that key. It yields the inserted record itself
/// where no earlier record has the key, as in a document that was empty.
pub proof fn law_insert_then_query<T>(records: Seq<T>, value: T, key_of: spec_fn(T) -> Seq<char>)
    ensures
        ({
            let grown = records.push(value);
            let found = queried(grown, keys_by(grown, key_of), key_of(value));
            &&& found is Ok
            &&& key_of(found.unwrap()) == key_of(value)
            &&& first_match(keys_by(records, key_of), key_of(value)) is None ==> found.unwrap()
                == value
            &&& records.len() == 0 ==> found.unwrap() == value
        }),
{
    let grown = records.push(value);
    let keys = keys_by(grown, key_of);
    let key = key_of(value);
    lemma_first_match(keys, key);
    lemma_first_match(keys_by(records, key_of), key);
    assert(keys[records.len() as int] == key);
    assert forall|j: int| 0 <= j < records.len() implies keys[j] == keys_by(records, key_of)[j] by {}
}

/// Inserting appends: the document then holds what it held, followed by
/// the inserted records in the order of insertion.
pub proof fn law_insert_all<T>(records: Seq<T>, values: Seq<T>)
    ensures
        inserted_all(records, values) == records + values,
        inserted_all(records, values).len() == records.len() + values.len(),
    decreases values.len(),
{
    if values.len() > 0 {
        law_insert_all(records, values.drop_last());
    }
}

/// A query for all matches yields as many records as there are keys equal
/// to the requested key.
pub proof fn law_query_vec_counts<T>(records: Seq<T>, keys: Seq<Seq<char>>, key: Seq<char>)
    requires
        keys.len() == records.len(),
    ensures
        matching(records, keys, key).len() == keys.to_multiset().count(key),
    decreases records.len(),
{
    broadcast use vstd::multiset::group_multiset_axioms;

    if records.len() == 0 {
        assert(keys.to_multiset() =~= Multiset::empty()) by {
            vstd::seq_lib::to_multiset_len(keys);
        }
    } else {
        law_query_vec_counts(records.drop_last(), keys.drop_last(), key);
        assert(keys == keys.drop_last().push(keys.last()));
        vstd::seq_lib::to_multiset_build(keys.drop_last(), keys.last());
    }
}

/// A query for all matches yields the records that have the requested key,
/// and those only, in the order in which the document holds them.
pub proof fn law_query_vec_filters<T>(
    records: Seq<T>,
    key_of: spec_fn(T) -> Seq<char>,
    key: Seq<char>,
)
    ensures
        matching(records, keys_by(records, key_of), key) == records.filter(
            |record: T| key_of(record) == key,
        ),
    decreases records.len(),
{
    reveal(Seq::filter);
    if records.len() > 0 {
        law_query_vec_filters(records.drop_last(), key_of, key);
        assert(keys_by(records, key_of).drop_last() == keys_by(records.drop_last(), key_of));
    }
}

/// After `n` records were inserted into an empty document it holds `n`
/// records, whatever their keys, and a query for all matches of a key that
/// `k` of them have yields `k` records.
pub proof fn law_insert_then_query_vec<T>(
    values: Seq<T>,
    key_of: spec_fn(T) -> Seq<char>,
    key: Seq<char>,
)
    ensures
        ({
            let document = inserted_all(Seq::empty(), values);
            &&& document.len() == values.len()
            &&& matching(document, keys_by(document, key_of), key).len() == keys_by(
                values,
                key_of,
            ).to_multiset().count(key)
        }),
{
    law_insert_all(Seq::empty(), values);
    law_query_vec_counts(values, keys_by(values, key_of), key);
}

/// An update keeps the length and puts the new record at the position of
/// the first match, whatever the new record's key; the other records stay.
/// A query for the new record's key then succeeds. A query for the old key
/// then fails exactly when the new record has another key and no other
/// record has the old one.
pub proof fn law_update<T>(
    records: Seq<T>,
    key_of: spec_fn(T) -> Seq<char>,
    key: Seq<char>,
    value: T,
)
    requires
        first_match(keys_by(records, key_of), key) is Some,
    ensures
        ({
            let keys = keys_by(records, key_of);
            let i = first_match(keys, key).unwrap();
            let after = updated(records, keys, key, value);
            let keys_after = keys_by(after, key_of);
            let found = queried(after, keys_after, key_of(value));
            &&& 0 <= i < records.len()
            &&& after.len() == records.len()
            &&& after[i] == value
            &&& forall|j: int| 0 <= j < records.len() && j != i ==> after[j] == records[j]
            &&& found is Ok
            &&& key_of(found.unwrap()) == key_of(value)
            &&& queried(after, keys_after, key) == not_found::<T>() <==> key_of(value) != key
                && no_other_match(keys, key, i)
        }),
{
    let keys = keys_by(records, key_of);
    let i = first_match(keys, key).unwrap();
    let after = updated(records, keys, key, value);
    let keys_after = keys_by(after, key_of);
    lemma_first_match(keys, key);
    lemma_first_match(keys_after, key_of(value));
    lemma_first_match(keys_after, key);
    assert(keys_after[i] == key_of(value));
    assert forall|j: int| 0 <= j < records.len() && j != i implies keys_after[j] == keys[j] by {}
}

/// An update for a key that no record has leaves the document as it was.
pub proof fn law_update_missing<T>(
    records: Seq<T>,
    keys: Seq<Seq<char>>,
    key: Seq<char>,
    value: T,
)
    requires
        first_match(keys, key) is None,
    ensures
        updated(records, keys, key, value) == records,
{
}

/// Moving the last record to position `i` and dropping the last position
/// takes one occurrence of the record at `i` away and nothing else.
proof fn lemma_swap_remove_keeps_others<T>(records: Seq<T>, i: int)
    requires
        0 <= i < records.len(),
    ensures
        records.update(i, records.last()).drop_last().to_multiset() == records.to_multiset().remove(
            records[i],
        ),
{
    broadcast use vstd::multiset::group_multiset_axioms;

    let last = records.last();
    let removed = records[i];
    let swapped = records.update(i, last);
    let after = swapped.drop_last();
    let all = records.to_multiset();
    let left = after.to_multiset();
    vstd::seq_lib::to_multiset_update(records, i, last);
    assert(swapped =~= after.push(last));
    vstd::seq_lib::to_multiset_build(after, last);
    assert forall|r: T| left.count(r) == all.remove(removed).count(r) by {
        assert(left.insert(last).count(r) == all.insert(last).remove(removed).count(r));
    }
}

/// A delete removes exactly one record, the first match, and yields it: the
/// record has the requested key, the document is one record shorter, and
/// what is left are the other records. Where the key was present once only,
/// a query for it then fails.
pub proof fn law_delete<T>(records: Seq<T>, key_of: spec_fn(T) -> Seq<char>, key: Seq<char>)
    requires
        first_match(keys_by(records, key_of), key) is Some,
    ensures
        ({
            let keys = keys_by(records, key_of);
            let i = first_match(keys, key).unwrap();
            let after = deleted(records, keys, key);
            &&& 0 <= i < records.len()
            &&& queried(records, keys, key) == Ok::<T, StoreError>(records[i])
            &&& key_of(records[i]) == key
            &&& after.len() == records.len() - 1
            &&& after.to_multiset() == records.to_multiset().remove(records[i])
            &&& no_other_match(keys, key, i) ==> queried(after, keys_by(after, key_of), key)
                == not_found::<T>()
        }),
{
    let keys = keys_by(records, key_of);
    let i = first_match(keys, key).unwrap();
    let after = deleted(records, keys, key);
    let keys_after = keys_by(after, key_of);
    lemma_first_match(keys, key);
    lemma_first_match(keys_after, key);
    lemma_swap_remove_keeps_others(records, i);
    if no_other_match(keys, key, i) {
        assert forall|j: int| 0 <= j < keys_after.len() implies keys_after[j] != key by {
            if j == i {
                assert(keys_after[j] == keys[records.len() - 1]);
            } else {
                assert(keys_after[j] == keys[j]);
            }
        }
    }
}

/// A delete for a key that no record has fails and leaves the document as
/// it was.
pub proof fn law_delete_missing<T>(records: Seq<T>, keys: Seq<Seq<char>>, key: Seq<char>)
    requires
        first_match(keys, key) is None,
    ensures
        deleted(records, keys, key) == records,
        queried(records, keys, key) == not_found::<T>(),
{
}

/// A delete does not keep the order: where the removed record was not the
/// last, the last record stands in its place afterwards. The records at the
/// other positions stay where they were.
pub proof fn law_delete_moves_last<T>(records: Seq<T>, keys: Seq<Seq<char>>, key: Seq<char>)
    requires
        keys.len() == records.len(),
        first_match(keys, key) is Some,
    ensures
        ({
            let i = first_match(keys, key).unwrap();
            let after = deleted(records, keys, key);
            &&& i < records.len() - 1 ==> after[i] == records.last()
            &&& forall|j: int| 0 <= j < records.len() - 1 && j != i ==> after[j] == records[j]
        }),
{
    lemma_first_match(keys, key);
}

} // verus!
