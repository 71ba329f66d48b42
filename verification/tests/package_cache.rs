use indexer_cache::base_types::{AccountAddress, ObjectID};
use indexer_cache::package_cache::{
    DecodeFailure, DecodedPackage, IndexedPackage, IndexingPackageCache, ModuleId,
    PACKAGE_CACHE_GC_INTERVAL_SECS,
};
use std::sync::Arc;

/// A module is serialized as the bytes of its text.
fn decode(bytes: &Vec<u8>) -> Option<String> {
    String::from_utf8(bytes.clone()).ok()
}

fn package(n: u8, modules: &[(&str, &str)], checkpoint: u64) -> IndexedPackage {
    IndexedPackage {
        package_id: ObjectID::new([n; 32]),
        modules: modules
            .iter()
            .map(|(name, body)| (name.to_string(), body.as_bytes().to_vec()))
            .collect(),
        checkpoint_sequence_number: checkpoint,
    }
}

fn broken_package(n: u8, names: &[&str], checkpoint: u64) -> IndexedPackage {
    IndexedPackage {
        package_id: ObjectID::new([n; 32]),
        modules: names.iter().map(|name| (name.to_string(), vec![0xff, 0xfe])).collect(),
        checkpoint_sequence_number: checkpoint,
    }
}

fn module_id(n: u8, name: &str) -> ModuleId {
    ModuleId { address: AccountAddress::new([n; 32]), name: name.to_string() }
}

fn lookup(cache: &IndexingPackageCache<String>, n: u8, name: &str) -> Option<String> {
    cache.get_module_by_id(&module_id(n, name)).map(|m| (*m).clone())
}

#[test]
fn sweep_interval_is_ten_minutes() {
    assert_eq!(PACKAGE_CACHE_GC_INTERVAL_SECS, 600);
}

#[test]
fn empty_package_cache_finds_nothing() {
    let cache: IndexingPackageCache<String> = IndexingPackageCache::new();
    assert_eq!(lookup(&cache, 1, "coin"), None);
    assert_eq!(lookup(&cache, 0, ""), None);
}

#[test]
fn inserted_modules_are_found_by_package_and_name() {
    let mut cache = IndexingPackageCache::new();
    cache.insert_packages(&[
        package(1, &[("coin", "coin of 1"), ("pay", "pay of 1")], 10),
        package(2, &[("coin", "coin of 2")], 10),
    ], decode).unwrap();
    assert_eq!(lookup(&cache, 1, "coin"), Some("coin of 1".to_string()));
    assert_eq!(lookup(&cache, 1, "pay"), Some("pay of 1".to_string()));
    assert_eq!(lookup(&cache, 2, "coin"), Some("coin of 2".to_string()));
    assert_eq!(lookup(&cache, 2, "pay"), None);
    assert_eq!(lookup(&cache, 3, "coin"), None);
    assert_eq!(lookup(&cache, 1, "coi"), None);
    assert_eq!(lookup(&cache, 1, "coins"), None);
}

#[test]
fn inserting_nothing_changes_nothing() {
    let mut cache = IndexingPackageCache::new();
    cache.insert_packages(&[package(1, &[("coin", "coin of 1")], 10)], decode).unwrap();
    cache.insert_packages(&[], decode).unwrap();
    cache.insert_packages(&[package(2, &[], 11)], decode).unwrap();
    assert_eq!(lookup(&cache, 1, "coin"), Some("coin of 1".to_string()));
    assert_eq!(lookup(&cache, 2, "coin"), None);
}

#[test]
fn a_later_insertion_replaces_the_entry() {
    let mut cache = IndexingPackageCache::new();
    cache.insert_packages(&[package(1, &[("coin", "old")], 10)], decode).unwrap();
    cache.insert_packages(&[package(1, &[("coin", "new")], 20)], decode).unwrap();
    assert_eq!(lookup(&cache, 1, "coin"), Some("new".to_string()));
}

#[test]
fn within_a_batch_the_later_entry_wins() {
    let mut cache = IndexingPackageCache::new();
    cache.insert_packages(&[
        package(1, &[("coin", "first"), ("pay", "pay")], 10),
        package(1, &[("coin", "second")], 20),
    ], decode).unwrap();
    assert_eq!(lookup(&cache, 1, "coin"), Some("second".to_string()));
    assert_eq!(lookup(&cache, 1, "pay"), Some("pay".to_string()));
    // The replaced entry carries the later checkpoint: it outlives watermark 10.
    cache.remove_committed(Some(10));
    assert_eq!(lookup(&cache, 1, "coin"), Some("second".to_string()));
    assert_eq!(lookup(&cache, 1, "pay"), None);
}

#[test]
fn the_cache_hands_out_the_shared_module() {
    let module = Arc::new("body".to_string());
    let mut cache = IndexingPackageCache::new();
    cache.insert_modules(&[DecodedPackage {
        package_id: ObjectID::new([1; 32]),
        modules: vec![("coin".to_string(), module.clone())],
        checkpoint_sequence_number: 10,
    }]);
    let found = cache.get_module_by_id(&module_id(1, "coin")).unwrap();
    assert!(Arc::ptr_eq(&found, &module));
    let again = cache.get_module_by_id(&module_id(1, "coin")).unwrap();
    assert!(Arc::ptr_eq(&again, &found));
    assert_eq!(Arc::strong_count(&module), 4);
}

#[test]
fn decoded_modules_are_inserted_as_they_are() {
    let mut cache = IndexingPackageCache::new();
    cache.insert_modules(&[
        DecodedPackage {
            package_id: ObjectID::new([1; 32]),
            modules: vec![
                ("coin".to_string(), Arc::new(1u32)),
                ("pay".to_string(), Arc::new(2u32)),
            ],
            checkpoint_sequence_number: 10,
        },
        DecodedPackage {
            package_id: ObjectID::new([2; 32]),
            modules: vec![("coin".to_string(), Arc::new(3u32))],
            checkpoint_sequence_number: 20,
        },
        DecodedPackage {
            package_id: ObjectID::new([1; 32]),
            modules: vec![("pay".to_string(), Arc::new(4u32))],
            checkpoint_sequence_number: 30,
        },
    ]);
    let get = |cache: &IndexingPackageCache<u32>, n: u8, name: &str| {
        cache.get_module_by_id(&module_id(n, name)).map(|m| *m)
    };
    assert_eq!(get(&cache, 1, "coin"), Some(1));
    assert_eq!(get(&cache, 1, "pay"), Some(4));
    assert_eq!(get(&cache, 2, "coin"), Some(3));
    cache.remove_committed(Some(20));
    assert_eq!(get(&cache, 1, "coin"), None);
    assert_eq!(get(&cache, 1, "pay"), Some(4));
    assert_eq!(get(&cache, 2, "coin"), None);
}

#[test]
fn the_decoder_is_applied_to_every_module() {
    let mut cache: IndexingPackageCache<usize> = IndexingPackageCache::new();
    let result = cache.insert_packages(
        &[package(1, &[("a", "x"), ("b", "four")], 10), package(2, &[("c", "")], 11)],
        |bytes: &Vec<u8>| Some(bytes.len()),
    );
    assert_eq!(result, Ok(()));
    let get = |n: u8, name: &str| cache.get_module_by_id(&module_id(n, name)).map(|m| *m);
    assert_eq!(get(1, "a"), Some(1));
    assert_eq!(get(1, "b"), Some(4));
    assert_eq!(get(2, "c"), Some(0));
}

#[test]
fn a_module_that_does_not_decode_fails_the_batch() {
    let mut cache = IndexingPackageCache::new();
    cache.insert_packages(&[package(1, &[("coin", "kept")], 10)], decode).unwrap();
    let result = cache.insert_packages(
        &[
            package(1, &[("coin", "replaced")], 20),
            package(2, &[("pay", "new")], 20),
            broken_package(3, &["bad"], 20),
            package(4, &[("late", "late")], 20),
        ],
        decode,
    );
    assert_eq!(result, Err(DecodeFailure { package: 2, module: 0 }));
    // Nothing of the batch has reached the cache.
    assert_eq!(lookup(&cache, 1, "coin"), Some("kept".to_string()));
    assert_eq!(lookup(&cache, 2, "pay"), None);
    assert_eq!(lookup(&cache, 3, "bad"), None);
    assert_eq!(lookup(&cache, 4, "late"), None);
}

#[test]
fn the_failure_names_the_first_module_that_does_not_decode() {
    let mut cache: IndexingPackageCache<String> = IndexingPackageCache::new();
    let mut mixed = package(7, &[("a", "a"), ("b", "b"), ("c", "c")], 5);
    mixed.modules[1].1 = vec![0xc0];
    mixed.modules[2].1 = vec![0xc0];
    let result = cache.insert_packages(&[package(6, &[], 5), mixed], decode);
    assert_eq!(result, Err(DecodeFailure { package: 1, module: 1 }));
    assert_eq!(lookup(&cache, 7, "a"), None);
}

#[test]
fn sweep_removes_what_is_committed() {
    let mut cache = IndexingPackageCache::new();
    cache.insert_packages(&[
        package(1, &[("a", "a")], 9),
        package(2, &[("b", "b")], 10),
        package(3, &[("c", "c")], 11),
        package(4, &[("d", "d")], 12),
    ], decode).unwrap();
    cache.remove_committed(Some(10));
    assert_eq!(lookup(&cache, 1, "a"), None);
    assert_eq!(lookup(&cache, 2, "b"), None);
    assert_eq!(lookup(&cache, 3, "c"), Some("c".to_string()));
    assert_eq!(lookup(&cache, 4, "d"), Some("d".to_string()));
}

#[test]
fn sweep_twice_removes_nothing_more() {
    let mut cache = IndexingPackageCache::new();
    cache.insert_packages(&[
        package(1, &[("a", "a")], 9),
        package(3, &[("c", "c")], 11),
        package(4, &[("d", "d")], 10),
    ], decode).unwrap();
    cache.remove_committed(Some(10));
    cache.remove_committed(Some(10));
    assert_eq!(lookup(&cache, 1, "a"), None);
    assert_eq!(lookup(&cache, 4, "d"), None);
    assert_eq!(lookup(&cache, 3, "c"), Some("c".to_string()));
}

#[test]
fn sweep_at_the_extremes() {
    let mut cache = IndexingPackageCache::new();
    cache.insert_packages(&[
        package(1, &[("a", "a")], 0),
        package(2, &[("b", "b")], 1),
        package(3, &[("c", "c")], u64::MAX),
    ], decode).unwrap();
    cache.remove_committed(Some(0));
    assert_eq!(lookup(&cache, 1, "a"), None);
    assert_eq!(lookup(&cache, 2, "b"), Some("b".to_string()));
    cache.remove_committed(Some(u64::MAX - 1));
    assert_eq!(lookup(&cache, 2, "b"), None);
    assert_eq!(lookup(&cache, 3, "c"), Some("c".to_string()));
    cache.remove_committed(Some(u64::MAX));
    assert_eq!(lookup(&cache, 3, "c"), None);
}

#[test]
fn sweep_of_many_entries_keeps_exactly_the_uncommitted() {
    let mut cache = IndexingPackageCache::new();
    let batch: Vec<IndexedPackage> =
        (0..100u8).map(|n| package(n, &[("m", "x"), ("n", "y")], n as u64)).collect();
    cache.insert_packages(&batch, decode).unwrap();
    cache.remove_committed(Some(49));
    for n in 0..100u8 {
        let expected = n > 49;
        assert_eq!(lookup(&cache, n, "m").is_some(), expected);
        assert_eq!(lookup(&cache, n, "n").is_some(), expected);
    }
}

#[test]
fn a_missed_watermark_does_not_matter() {
    let batch = [
        package(1, &[("a", "a")], 5),
        package(2, &[("b", "b")], 15),
        package(3, &[("c", "c")], 25),
    ];
    let mut stepwise = IndexingPackageCache::new();
    stepwise.insert_packages(&batch, decode).unwrap();
    stepwise.remove_committed(Some(10));
    stepwise.remove_committed(Some(20));
    let mut at_once = IndexingPackageCache::new();
    at_once.insert_packages(&batch, decode).unwrap();
    at_once.remove_committed(Some(20));
    for (n, name) in [(1u8, "a"), (2, "b"), (3, "c")] {
        assert_eq!(lookup(&stepwise, n, name), lookup(&at_once, n, name));
    }
    assert_eq!(lookup(&at_once, 3, "c"), Some("c".to_string()));
    assert_eq!(lookup(&at_once, 2, "b"), None);
}

#[test]
fn same_key_from_two_checkpoints_outlives_a_watermark_between() {
    let mut cache = IndexingPackageCache::new();
    cache.insert_packages(&[package(1, &[("coin", "at 10")], 10)], decode).unwrap();
    cache.insert_packages(&[package(1, &[("coin", "at 20")], 20)], decode).unwrap();
    cache.remove_committed(Some(15));
    assert_eq!(lookup(&cache, 1, "coin"), Some("at 20".to_string()));
}

#[test]
fn a_watermark_between_two_checkpoints_removes_the_earlier() {
    let mut cache = IndexingPackageCache::new();
    cache.insert_packages(&[package(1, &[("coin", "at 10")], 10)], decode).unwrap();
    cache.insert_packages(&[package(2, &[("coin", "at 20")], 20)], decode).unwrap();
    cache.remove_committed(Some(15));
    assert_eq!(lookup(&cache, 1, "coin"), None);
    assert_eq!(lookup(&cache, 2, "coin"), Some("at 20".to_string()));
}

#[test]
fn sweep_without_a_watermark_changes_nothing() {
    let mut cache = IndexingPackageCache::new();
    cache.insert_packages(&[
        package(1, &[("a", "a")], 0),
        package(2, &[("b", "b")], 10),
    ], decode).unwrap();
    cache.remove_committed(None);
    assert_eq!(lookup(&cache, 1, "a"), Some("a".to_string()));
    assert_eq!(lookup(&cache, 2, "b"), Some("b".to_string()));
    let mut empty: IndexingPackageCache<String> = IndexingPackageCache::new();
    empty.remove_committed(None);
    empty.remove_committed(Some(3));
    assert_eq!(lookup(&empty, 1, "a"), None);
}
