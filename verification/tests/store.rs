use record_store::database::{keys_of, Database, GetKeyAttributesValue};
use record_store::error::StoreError;

#[derive(Debug, Clone, PartialEq)]
struct Patient {
    id: String,
    name: String,
}

impl GetKeyAttributesValue for Patient {
    fn get_key_attributes_value(&self) -> String {
        self.id.clone()
    }
}

fn patient(id: &str, name: &str) -> Patient {
    Patient { id: id.to_string(), name: name.to_string() }
}

#[test]
fn insert_query_and_delete_in_turn() {
    let db = Database::new("patients.json");
    let document: Vec<Patient> = Vec::new();

    let document = db.insert(document, patient("p1", "Ana"));
    assert_eq!(db.query(document.clone(), "p1"), Ok(patient("p1", "Ana")));

    let document = db.insert(document, patient("p2", "Bruno"));
    let many = db.query_vec(document.clone(), "p1");
    assert_eq!(many, Ok(vec![patient("p1", "Ana")]));
    assert_eq!(many.unwrap().len(), 1);

    let (removed, document) = db.delete(document, "p1").unwrap();
    assert_eq!(removed, patient("p1", "Ana"));
    assert_eq!(db.query(document.clone(), "p1"), Err(StoreError::NotFound));
    assert_eq!(db.query(document.clone(), "p2"), Ok(patient("p2", "Bruno")));
    assert_eq!(document, vec![patient("p2", "Bruno")]);
}

#[test]
fn update_of_missing_key_changes_nothing() {
    let db = Database::new("patients.json");
    let document = vec![patient("p1", "Ana"), patient("p2", "Bruno")];
    let changed = db.update(document.clone(), "missing-key", patient("p9", "Zoe"));
    assert_eq!(changed, None);
    assert_eq!(document, vec![patient("p1", "Ana"), patient("p2", "Bruno")]);
}

#[test]
fn round_trip_from_empty_document() {
    let db = Database::new("patients.json");
    let value = patient("k", "Carla");
    let document = db.insert(Vec::new(), value.clone());
    let found = db.query(document, &value.get_key_attributes_value()).unwrap();
    assert_eq!(found.get_key_attributes_value(), value.get_key_attributes_value());
    assert_eq!(found, value);
}

#[test]
fn round_trip_finds_earlier_record_with_same_key() {
    let db = Database::new("patients.json");
    let document = vec![patient("k", "first"), patient("x", "other")];
    let document = db.insert(document, patient("k", "second"));
    let found = db.query(document, "k").unwrap();
    assert_eq!(found.get_key_attributes_value(), "k");
    assert_eq!(found, patient("k", "first"));
}

#[test]
fn insert_appends_at_the_end() {
    let db = Database::new("patients.json");
    let document = vec![patient("a", "1"), patient("b", "2")];
    let document = db.insert(document, patient("a", "3"));
    assert_eq!(document, vec![patient("a", "1"), patient("b", "2"), patient("a", "3")]);
}

#[test]
fn cardinality_after_inserts() {
    let db = Database::new("patients.json");
    let ids = ["a", "b", "a", "c", "a", "b"];
    let mut document: Vec<Patient> = Vec::new();
    for (n, id) in ids.iter().enumerate() {
        document = db.insert(document, patient(id, &n.to_string()));
        assert_eq!(document.len(), n + 1);
    }
    assert_eq!(document.len(), 6);
    let found = db.query_vec(document.clone(), "a").unwrap();
    assert_eq!(found, vec![patient("a", "0"), patient("a", "2"), patient("a", "4")]);
    assert_eq!(db.query_vec(document.clone(), "b").unwrap().len(), 2);
    assert_eq!(db.query_vec(document.clone(), "c").unwrap().len(), 1);
    assert_eq!(db.query_vec(document, "d"), Err(StoreError::NotFound));
}

#[test]
fn query_yields_first_match_in_document_order() {
    let db = Database::new("patients.json");
    let document = vec![patient("a", "1"), patient("b", "2"), patient("b", "3")];
    assert_eq!(db.query(document, "b"), Ok(patient("b", "2")));
}

#[test]
fn query_on_empty_document_is_not_found() {
    let db = Database::new("patients.json");
    let document: Vec<Patient> = Vec::new();
    assert_eq!(db.query(document.clone(), "a"), Err(StoreError::NotFound));
    assert_eq!(db.query_vec(document.clone(), "a"), Err(StoreError::NotFound));
    assert_eq!(db.delete(document.clone(), "a"), Err(StoreError::NotFound));
    assert_eq!(db.update(document, "a", patient("a", "1")), None);
}

#[test]
fn keys_are_compared_whole() {
    let db = Database::new("patients.json");
    let document = vec![patient("ab", "1"), patient("a", "2"), patient("", "3")];
    assert_eq!(db.query(document.clone(), "a"), Ok(patient("a", "2")));
    assert_eq!(db.query(document.clone(), ""), Ok(patient("", "3")));
    assert_eq!(db.query(document.clone(), "abc"), Err(StoreError::NotFound));
    assert_eq!(db.query(document, "A"), Err(StoreError::NotFound));
}

#[test]
fn update_keeps_position_not_key() {
    let db = Database::new("patients.json");
    let document = vec![patient("x", "0"), patient("A", "1"), patient("y", "2")];
    let document = db.update(document, "A", patient("B", "new")).unwrap();
    assert_eq!(document.len(), 3);
    assert_eq!(document, vec![patient("x", "0"), patient("B", "new"), patient("y", "2")]);
    assert_eq!(db.query(document.clone(), "B"), Ok(patient("B", "new")));
    assert_eq!(db.query(document, "A"), Err(StoreError::NotFound));
}

#[test]
fn update_replaces_first_match_only() {
    let db = Database::new("patients.json");
    let document = vec![patient("A", "1"), patient("A", "2")];
    let document = db.update(document, "A", patient("B", "new")).unwrap();
    assert_eq!(document, vec![patient("B", "new"), patient("A", "2")]);
    assert_eq!(db.query(document, "A"), Ok(patient("A", "2")));
}

#[test]
fn delete_removes_exactly_one_and_returns_it() {
    let db = Database::new("patients.json");
    let document = vec![patient("a", "1"), patient("b", "2"), patient("c", "3")];
    let (removed, left) = db.delete(document, "b").unwrap();
    assert_eq!(removed.get_key_attributes_value(), "b");
    assert_eq!(removed, patient("b", "2"));
    assert_eq!(left.len(), 2);
    assert_eq!(db.query(left, "b"), Err(StoreError::NotFound));
}

#[test]
fn delete_of_missing_key_is_not_found() {
    let db = Database::new("patients.json");
    let document = vec![patient("a", "1"), patient("b", "2")];
    assert_eq!(db.delete(document, "z"), Err(StoreError::NotFound));
}

#[test]
fn delete_moves_last_record_into_the_gap() {
    let db = Database::new("patients.json");
    let document =
        vec![patient("a", "1"), patient("b", "2"), patient("c", "3"), patient("d", "4")];
    let (removed, left) = db.delete(document, "b").unwrap();
    assert_eq!(removed, patient("b", "2"));
    assert_eq!(left, vec![patient("a", "1"), patient("d", "4"), patient("c", "3")]);
}

#[test]
fn delete_of_last_record_keeps_the_rest_in_order() {
    let db = Database::new("patients.json");
    let document = vec![patient("a", "1"), patient("b", "2"), patient("c", "3")];
    let (removed, left) = db.delete(document, "c").unwrap();
    assert_eq!(removed, patient("c", "3"));
    assert_eq!(left, vec![patient("a", "1"), patient("b", "2")]);
}

#[test]
fn delete_of_only_record_leaves_empty_document() {
    let db = Database::new("patients.json");
    let (removed, left) = db.delete(vec![patient("a", "1")], "a").unwrap();
    assert_eq!(removed, patient("a", "1"));
    assert!(left.is_empty());
}

#[test]
fn delete_removes_first_of_equal_keys() {
    let db = Database::new("patients.json");
    let document = vec![patient("a", "1"), patient("b", "2"), patient("a", "3")];
    let (removed, left) = db.delete(document, "a").unwrap();
    assert_eq!(removed, patient("a", "1"));
    assert_eq!(left, vec![patient("a", "3"), patient("b", "2")]);
    assert_eq!(db.query(left, "a"), Ok(patient("a", "3")));
}

#[test]
fn keys_of_asks_each_record_in_order() {
    let document = vec![patient("b", "1"), patient("a", "2"), patient("b", "3")];
    assert_eq!(keys_of(&document), vec!["b".to_string(), "a".to_string(), "b".to_string()]);
    let empty: Vec<Patient> = Vec::new();
    assert!(keys_of(&empty).is_empty());
}

#[test]
fn store_keeps_its_path() {
    let db = Database::new("data/patients.json");
    assert_eq!(db.path(), "data/patients.json");
}

#[test]
fn store_sets_up_an_empty_document_where_none_exists() {
    let db = Database::new("patients.json");
    assert_eq!(db.initial_document(false), Some("[]"));
    assert_eq!(db.initial_document(true), None);
}
