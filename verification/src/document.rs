//! Operations on a document held in memory.
//!
//! A document is a sequence of records. Beside it stands the sequence of the
//! records' keys, position by position: the operations decide by the keys and
//! act on the records. Several records may have the same key.

use vstd::prelude::*;
use crate::error::StoreError;

verus! {

/// The position of the first key equal to `key`, if there is one.
pub open spec fn first_match(keys: Seq<Seq<char>>, key: Seq<char>) -> Option<int> {
    keys.index_of_first(key)
}

/// What `first_match` yields: the least position that holds `key`, and
/// nothing exactly when no position holds it.
pub proof fn lemma_first_match(keys: Seq<Seq<char>>, key: Seq<char>)
    ensures
        match first_match(keys, key) {
            Some(i) => {
                &&& 0 <= i < keys.len()
                &&& keys[i] == key
                &&& forall|j: int| 0 <= j < i ==> keys[j] != key
            },
            None => forall|j: int| 0 <= j < keys.len() ==> keys[j] != key,
        },
{
    keys.index_of_first_ensures(key);
}

/// A position that holds `key` with none before it is the first match.
pub proof fn lemma_first_match_is(keys: Seq<Seq<char>>, key: Seq<char>, i: int)
    requires
        0 <= i < keys.len(),
        keys[i] == key,
        forall|j: int| 0 <= j < i ==> keys[j] != key,
    ensures
        first_match(keys, key) == Some(i),
{
    lemma_first_match(keys, key);
}

/// The outcome of a query: the record at the first match.
pub open spec fn queried<T>(records: Seq<T>, keys: Seq<Seq<char>>, key: Seq<char>) -> Result<
    T,
    StoreError,
> {
    match first_match(keys, key) {
        Some(i) => Ok(records[i]),
        None => Err(StoreError::NotFound),
    }
}

/// The records whose key equals `key`, in document order.
pub open spec fn matching<T>(records: Seq<T>, keys: Seq<Seq<char>>, key: Seq<char>) -> Seq<T>
    recommends
        keys.len() == records.len(),
    decreases records.len(),
{
    if records.len() == 0 {
        Seq::empty()
    } else {
        let earlier = matching(records.drop_last(), keys.drop_last(), key);
        if keys.last() == key {
            earlier.push(records.last())
        } else {
            earlier
        }
    }
}

/// The document after an update: `value` stands where the first match
/// stood; without a match the document is as it was.
pub open spec fn updated<T>(
    records: Seq<T>,
    keys: Seq<Seq<char>>,
    key: Seq<char>,
    value: T,
) -> Seq<T> {
    match first_match(keys, key) {
        Some(i) => records.update(i, value),
        None => records,
    }
}

/// The document after a delete: the last record stands where the first
/// match stood and the document is one record shorter; without a match the
/// document is as it was.
pub open spec fn deleted<T>(records: Seq<T>, keys: Seq<Seq<char>>, key: Seq<char>) -> Seq<T> {
    match first_match(keys, key) {
        Some(i) => records.update(i, records.last()).drop_last(),
        None => records,
    }
}

/// `found` is what a query for all matches yields: the matching records
/// where there is one, else the failure.
pub open spec fn query_vec_yields<T>(
    records: Seq<T>,
    keys: Seq<Seq<char>>,
    key: Seq<char>,
    found: Result<Vec<T>, StoreError>,
) -> bool {
    match found {
        Ok(matches) => matches@.len() > 0 && matches@ == matching(records, keys, key),
        Err(e) => e == StoreError::NotFound && matching(records, keys, key).len() == 0,
    }
}

/// `changed` is what an update yields: the updated document where a record
/// has the key, else nothing.
pub open spec fn update_yields<T>(
    records: Seq<T>,
    keys: Seq<Seq<char>>,
    key: Seq<char>,
    value: T,
    changed: Option<Vec<T>>,
) -> bool {
    match changed {
        Some(document) => first_match(keys, key) is Some && document@ == updated(
            records,
            keys,
            key,
            value,
        ),
        None => first_match(keys, key) is None,
    }
}

/// `outcome` is what a delete yields: the record at the first match with
/// the document that is left, else the failure.
pub open spec fn delete_yields<T>(
    records: Seq<T>,
    keys: Seq<Seq<char>>,
    key: Seq<char>,
    outcome: Result<(T, Vec<T>), StoreError>,
) -> bool {
    match outcome {
        Ok((removed, remaining)) => {
            &&& first_match(keys, key) is Some
            &&& removed == records[first_match(keys, key).unwrap()]
            &&& remaining@ == deleted(records, keys, key)
        },
        Err(e) => e == StoreError::NotFound && first_match(keys, key) is None,
    }
}

/// Finds the first of `keys` that equals `key`.
pub fn find(keys: &Vec<String>, key: &str) -> (found: Option<usize>)
    ensures
        match found {
            Some(i) => i < keys.len() && first_match(keys.deep_view(), key@) == Some(i as int),
            None => first_match(keys.deep_view(), key@) is None,
        },
{
    let wanted: String = key.to_owned();
    let mut i: usize = 0;
    while i < keys.len()
        invariant
            i <= keys.len(),
            wanted@ == key@,
            forall|j: int| 0 <= j < i ==> keys.deep_view()[j] != key@,
        decreases keys.len() - i,
    {
        if keys[i] == wanted {
            proof {
                lemma_first_match_is(keys.deep_view(), key@, i as int);
            }
            return Some(i);
        }
        i += 1;
    }
    proof {
        lemma_first_match(keys.deep_view(), key@);
    }
    None
}

/// Appends `value` to the document.
pub fn insert<T>(records: Vec<T>, value: T) -> (grown: Vec<T>)
    ensures
        grown@ == records@.push(value),
{
    let mut records = records;
    records.push(value);
    records
}

/// Takes the first record filed under `key` out of the document, where
/// `keys` holds the key of each record.
pub fn query<T>(records: Vec<T>, keys: &Vec<String>, key: &str) -> (found: Result<T, StoreError>)
    requires
        keys.len() == records.len(),
    ensures
        found == queried(records@, keys.deep_view(), key@),
{
    let mut records = records;
    match find(keys, key) {
        Some(i) => Ok(records.swap_remove(i)),
        None => Err(StoreError::NotFound),
    }
}

/// Takes all records filed under `key` out of the document, in document
/// order, where `keys` holds the key of each record.
pub fn query_vec<T>(records: Vec<T>, keys: &Vec<String>, key: &str) -> (found: Result<
    Vec<T>,
    StoreError,
>)
    requires
        keys.len() == records.len(),
    ensures
        query_vec_yields(records@, keys.deep_view(), key@, found),
{
    let wanted: String = key.to_owned();
    let ghost all = records@;
    let ghost all_keys = keys.deep_view();
    let mut matches: Vec<T> = Vec::new();
    let mut i: usize = 0;
    for record in it: records.into_iter()
        invariant
            i == it.index(),
            it.seq() == all,
            keys.len() == all.len(),
            keys.deep_view() == all_keys,
            wanted@ == key@,
            matches@ == matching(all.take(i as int), all_keys.take(i as int), key@),
    {
        proof {
            assert(all.take(i + 1).drop_last() == all.take(i as int));
            assert(all_keys.take(i + 1).drop_last() == all_keys.take(i as int));
        }
        if keys[i] == wanted {
            matches.push(record);
        }
        i += 1;
    }
    proof {
        assert(all.take(i as int) == all);
        assert(all_keys.take(i as int) == all_keys);
    }
    if matches.is_empty() {
        Err(StoreError::NotFound)
    } else {
        Ok(matches)
    }
}

/// Puts `value` where the first record filed under `key` stands, where
/// `keys` holds the key of each record. Yields the changed document, or
/// nothing where no record is filed under `key`.
pub fn update<T>(records: Vec<T>, keys: &Vec<String>, key: &str, value: T) -> (changed: Option<
    Vec<T>,
>)
    requires
        keys.len() == records.len(),
    ensures
        update_yields(records@, keys.deep_view(), key@, value, changed),
{
    let mut records = records;
    match find(keys, key) {
        Some(i) => {
            records[i] = value;
            Some(records)
        },
        None => None,
    }
}

/// Removes the first record filed under `key`, where `keys` holds the key
/// of each record: the last record moves into its place. Yields the removed
/// record and the document that is left.
pub fn delete<T>(records: Vec<T>, keys: &Vec<String>, key: &str) -> (outcome: Result<
    (T, Vec<T>),
    StoreError,
>)
    requires
        keys.len() == records.len(),
    ensures
        delete_yields(records@, keys.deep_view(), key@, outcome),
{
    let mut records = records;
    match find(keys, key) {
        Some(i) => {
            let removed = records.swap_remove(i);
            Ok((removed, records))
        },
        None => Err(StoreError::NotFound),
    }
}

} // verus!
