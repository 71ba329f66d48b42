use indexer_cache::base_types::{Object, ObjectID, SequenceNumber};
use indexer_cache::tx_processor::{InvariantViolation, TxChangesProcessor};

fn id(n: u8) -> ObjectID {
    ObjectID::new([n; 32])
}

fn version(n: u64) -> SequenceNumber {
    SequenceNumber::from_u64(n)
}

fn object(i: u8, v: u64, contents: &[u8]) -> Object {
    Object::new(id(i), version(v), contents.to_vec())
}

#[test]
fn get_object_returns_the_exact_version() {
    let a = object(1, 2, b"two");
    let b = object(1, 5, b"five");
    let processor = TxChangesProcessor::new(&[&a, &b]);
    assert_eq!(processor.get_object(&id(1), &version(2)), Ok(object(1, 2, b"two")));
    assert_eq!(processor.get_object(&id(1), &version(5)), Ok(object(1, 5, b"five")));
}

#[test]
fn get_object_of_a_missing_version_is_a_violation() {
    let a = object(1, 2, b"two");
    let processor = TxChangesProcessor::new(&[&a]);
    assert_eq!(
        processor.get_object(&id(1), &version(3)),
        Err(InvariantViolation::ExactVersionNotFound { id: id(1), version: version(3) })
    );
    assert_eq!(
        processor.get_object(&id(9), &version(2)),
        Err(InvariantViolation::ExactVersionNotFound { id: id(9), version: version(2) })
    );
}

#[test]
fn get_object_on_an_empty_provider_is_a_violation() {
    let processor = TxChangesProcessor::new(&[]);
    assert_eq!(
        processor.get_object(&id(1), &version(1)),
        Err(InvariantViolation::ExactVersionNotFound { id: id(1), version: version(1) })
    );
}

#[test]
fn nearest_lookup_prefers_the_exact_version() {
    let a = object(1, 2, b"two");
    let b = object(1, 5, b"five");
    let processor = TxChangesProcessor::new(&[&a, &b]);
    assert_eq!(
        processor.find_object_lt_or_eq_version(&id(1), &version(5)),
        Ok(Some(object(1, 5, b"five")))
    );
    assert_eq!(
        processor.find_object_lt_or_eq_version(&id(1), &version(2)),
        Ok(Some(object(1, 2, b"two")))
    );
}

#[test]
fn nearest_lookup_below_every_version_is_a_violation() {
    let a = object(1, 2, b"two");
    let b = object(1, 5, b"five");
    let processor = TxChangesProcessor::new(&[&a, &b]);
    assert_eq!(
        processor.find_object_lt_or_eq_version(&id(1), &version(1)),
        Err(InvariantViolation::HigherVersionFound {
            id: id(1),
            found: version(5),
            bound: version(1),
        })
    );
}

#[test]
fn nearest_lookup_between_versions_looks_at_the_last_inserted_only() {
    let a = object(1, 2, b"two");
    let b = object(1, 5, b"five");
    let processor = TxChangesProcessor::new(&[&a, &b]);
    // Version 2 is below the bound, but the object seen last is version 5.
    assert_eq!(
        processor.find_object_lt_or_eq_version(&id(1), &version(3)),
        Err(InvariantViolation::HigherVersionFound {
            id: id(1),
            found: version(5),
            bound: version(3),
        })
    );
    assert_eq!(
        processor.find_object_lt_or_eq_version(&id(1), &version(7)),
        Ok(Some(object(1, 5, b"five")))
    );
}

#[test]
fn nearest_lookup_falls_back_to_a_lower_version() {
    let o = object(1, 3, b"three");
    let processor = TxChangesProcessor::new(&[&o]);
    assert_eq!(
        processor.find_object_lt_or_eq_version(&id(1), &version(5)),
        Ok(Some(object(1, 3, b"three")))
    );
}

#[test]
fn nearest_lookup_rejects_a_higher_version() {
    let o = object(1, 3, b"three");
    let processor = TxChangesProcessor::new(&[&o]);
    assert_eq!(
        processor.find_object_lt_or_eq_version(&id(1), &version(2)),
        Err(InvariantViolation::HigherVersionFound {
            id: id(1),
            found: version(3),
            bound: version(2),
        })
    );
}

#[test]
fn nearest_lookup_of_an_unknown_identifier_is_a_violation() {
    let o = object(1, 3, b"three");
    let processor = TxChangesProcessor::new(&[&o]);
    assert_eq!(
        processor.find_object_lt_or_eq_version(&id(2), &version(3)),
        Err(InvariantViolation::NoVersionFound { id: id(2), bound: version(3) })
    );
    let empty = TxChangesProcessor::new(&[]);
    assert_eq!(
        empty.find_object_lt_or_eq_version(&id(1), &version(u64::MAX)),
        Err(InvariantViolation::NoVersionFound { id: id(1), bound: version(u64::MAX) })
    );
}

#[test]
fn nearest_lookup_at_the_extremes() {
    let low = object(1, 0, b"zero");
    let high = object(2, u64::MAX, b"max");
    let processor = TxChangesProcessor::new(&[&low, &high]);
    assert_eq!(
        processor.find_object_lt_or_eq_version(&id(1), &version(u64::MAX)),
        Ok(Some(object(1, 0, b"zero")))
    );
    assert_eq!(
        processor.find_object_lt_or_eq_version(&id(1), &version(0)),
        Ok(Some(object(1, 0, b"zero")))
    );
    assert_eq!(
        processor.find_object_lt_or_eq_version(&id(2), &version(u64::MAX)),
        Ok(Some(object(2, u64::MAX, b"max")))
    );
    assert_eq!(
        processor.find_object_lt_or_eq_version(&id(2), &version(u64::MAX - 1)),
        Err(InvariantViolation::HigherVersionFound {
            id: id(2),
            found: version(u64::MAX),
            bound: version(u64::MAX - 1),
        })
    );
}

#[test]
fn provider_leaves_the_given_objects_alone() {
    let a = object(1, 2, b"two");
    let processor = TxChangesProcessor::new(&[&a]);
    let found = processor.get_object(&id(1), &version(2)).unwrap();
    assert_eq!(found, a);
    assert_eq!(a.contents(), &b"two".to_vec());
}

#[test]
fn providers_do_not_see_each_other() {
    let a = object(1, 2, b"a");
    let b = object(2, 2, b"b");
    let first = TxChangesProcessor::new(&[&a]);
    let second = TxChangesProcessor::new(&[&b]);
    assert!(first.get_object(&id(2), &version(2)).is_err());
    assert!(second.get_object(&id(1), &version(2)).is_err());
    assert!(first.find_object_lt_or_eq_version(&id(2), &version(9)).is_err());
    assert!(second.find_object_lt_or_eq_version(&id(1), &version(9)).is_err());
}
