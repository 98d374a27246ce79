//! The store: a handle on the path of a document, and the keyed operations
//! on the document's records.
//!
//! The store keeps no records between calls. Each operation is handed the
//! whole document as it was read and hands back what is to be written. It
//! asks every record for its key once, in document order, and decides by
//! the keys it was given.

use vstd::prelude::*;
use crate::document;
use crate::document::{delete_yields, queried, query_vec_yields, update_yields};
use crate::error::StoreError;

verus! {

/// A record that can be filed: it gives the key under which it is found.
///
/// The key is expected to depend on the record alone. Keys need not differ
/// from record to record.
pub trait GetKeyAttributesValue {
    /// The key of this record.
    fn get_key_attributes_value(&self) -> String;
}

/// `key` is a key that `record` may give for itself.
pub open spec fn gives_key<T: GetKeyAttributesValue>(record: T, key: Seq<char>) -> bool {
    exists|k: String| call_ensures(T::get_key_attributes_value, (&record,), k) && k@ == key
}

/// `keys` holds, position by position, a key that the record there gives.
pub open spec fn keys_given<T: GetKeyAttributesValue>(
    records: Seq<T>,
    keys: Seq<Seq<char>>,
) -> bool {
    &&& keys.len() == records.len()
    &&& forall|i: int| 0 <= i < records.len() ==> #[trigger] gives_key(records[i], keys[i])
}

/// Asks each record for its key, in document order.
pub fn keys_of<T: GetKeyAttributesValue>(records: &Vec<T>) -> (keys: Vec<String>)
    ensures
        keys_given(records@, keys.deep_view()),
{
    let mut keys: Vec<String> = Vec::new();
    let mut i: usize = 0;
    while i < records.len()
        invariant
            i <= records.len(),
            keys.len() == i,
            forall|j: int| 0 <= j < i ==> #[trigger] gives_key(records@[j], keys.deep_view()[j]),
        decreases records.len() - i,
    {
        let ghost earlier = keys.deep_view();
        let key = records[i].get_key_attributes_value();
        keys.push(key);
        assert forall|j: int| 0 <= j <= i implies #[trigger] gives_key(
            records@[j],
            keys.deep_view()[j],
        ) by {
            if j < i {
                assert(keys.deep_view()[j] == earlier[j]);
            }
        }
        i += 1;
    }
    keys
}

/// The text of a document without records.
pub open spec fn empty_document() -> Seq<char> {
    seq!['[', ']']
}

/// A store of records in the document at one path.
pub struct Database<'db> {
    path: &'db str,
}

impl<'db> View for Database<'db> {
    type V = Seq<char>;

    /// The path of the store's document.
    closed spec fn view(&self) -> Seq<char> {
        self.path@
    }
}

impl<'db> Database<'db> {
    /// A store on the document at `path`.
    pub fn new(path: &'db str) -> (database: Self)
        ensures
            database@ == path@,
    {
        Database { path }
    }

    /// The path of the store's document.
    pub fn path(&self) -> (path: &'db str)
        ensures
            path@ == self@,
    {
        self.path
    }

    /// What a store writes to its path when it is set up: the empty document
    /// where no document exists yet, and nothing where one does.
    pub fn initial_document(&self, exists: bool) -> (text: Option<&'static str>)
        ensures
            exists ==> text is None,
            !exists ==> text is Some && text.unwrap()@ == empty_document(),
    {
        if exists {
            None
        } else {
            proof {
                reveal_strlit("[]");
            }
            Some("[]")
        }
    }

    /// Appends `value` to the document. The result is to be written back.
    pub fn insert<T>(&self, db_content: Vec<T>, value: T) -> (grown: Vec<T>)
        ensures
            grown@ == db_content@.push(value),
    {
        document::insert(db_content, value)
    }

    /// The first record, in document order, whose key equals `key`, or
    /// `NotFound` where no record has the key.
    pub fn query<T: GetKeyAttributesValue>(&self, db_content: Vec<T>, key: &str) -> (found: Result<
        T,
        StoreError,
    >)
        ensures
            exists|keys: Seq<Seq<char>>| #[trigger]
                keys_given(db_content@, keys) && found == queried(db_content@, keys, key@),
    {
        let keys = keys_of(&db_content);
        document::query(db_content, &keys, key)
    }

    /// All records whose key equals `key`, in document order, or `NotFound`
    /// where no record has the key.
    pub fn query_vec<T: GetKeyAttributesValue>(&self, db_content: Vec<T>, key: &str) -> (found:
        Result<Vec<T>, StoreError>)
        ensures
            exists|keys: Seq<Seq<char>>| #[trigger]
                keys_given(db_content@, keys) && query_vec_yields(db_content@, keys, key@, found),
    {
        let keys = keys_of(&db_content);
        document::query_vec(db_content, &keys, key)
    }

    /// Replaces the first record whose key equals `key` by `new_element`,
    /// whatever key `new_element` has. Yields the document to be written
    /// back, or nothing where no record has the key: the document then
    /// stays as it is, and that is no failure.
    pub fn update<T: GetKeyAttributesValue>(
        &self,
        db_content: Vec<T>,
        key: &str,
        new_element: T,
    ) -> (changed: Option<Vec<T>>)
        ensures
            exists|keys: Seq<Seq<char>>| #[trigger]
                keys_given(db_content@, keys) && update_yields(
                    db_content@,
                    keys,
                    key@,
                    new_element,
                    changed,
                ),
    {
        let keys = keys_of(&db_content);
        document::update(db_content, &keys, key, new_element)
    }

    /// Removes the first record whose key equals `key`: the last record
    /// moves into its place. Yields the removed record and the document to
    /// be written back, or `NotFound` where no record has the key.
    pub fn delete<T: GetKeyAttributesValue>(&self, db_content: Vec<T>, key: &str) -> (outcome:
        Result<(T, Vec<T>), StoreError>)
        ensures
            exists|keys: Seq<Seq<char>>| #[trigger]
                keys_given(db_content@, keys) && delete_yields(db_content@, keys, key@, outcome),
    {
        let keys = keys_of(&db_content);
        document::delete(db_content, &keys, key)
    }
}

} // verus!
