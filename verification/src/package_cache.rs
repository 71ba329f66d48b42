//! The package cache.
//!
//! Checkpoints are processed in batches, so a package may be looked up before
//! it has reached the durable store. The cache holds the decoded modules of
//! such packages under the package identifier and the module name, each with
//! the checkpoint at which its package was seen. Once a checkpoint is
//! committed, what was seen at or before it can be read from the store, and a
//! sweep against the commit watermark drops it from memory.

use crate::assoc::{
    assoc_map, distinct_keys, has_key, lemma_assoc_agreed_value, lemma_assoc_contains,
    lemma_assoc_index, lemma_assoc_push, lemma_assoc_swap_remove, lemma_assoc_update,
};
use crate::base_types::{AccountAddress, CheckpointSequenceNumber, ObjectID};
use crate::sharing::share;
use std::sync::Arc;
use vstd::prelude::*;

verus! {

/// Seconds between two sweeps of the package cache.
pub const PACKAGE_CACHE_GC_INTERVAL_SECS: u64 = 600;

/// The key of a cached module: the identifier of its package and its name.
pub type ModuleKey = (ObjectID, Seq<char>);

/// A cached module as a mathematical value: the decoded module and the
/// checkpoint at which its package was seen.
pub ghost struct CachedModule<M> {
    pub module: M,
    pub checkpoint: CheckpointSequenceNumber,
}

/// The name of a module: the address that owns it and its own name.
#[derive(Clone, Debug)]
pub struct ModuleId {
    pub address: AccountAddress,
    pub name: String,
}

impl ModuleId {
    /// The key under which the cache holds this module.
    pub open spec fn key(self) -> ModuleKey {
        (ObjectID::spec_from_address(self.address), self.name@)
    }
}

/// A package as it was seen in a checkpoint, with its modules as they were
/// serialized.
#[derive(Clone, Debug)]
pub struct IndexedPackage {
    pub package_id: ObjectID,
    /// The serialized modules of the package by name.
    pub modules: Vec<(String, Vec<u8>)>,
    pub checkpoint_sequence_number: CheckpointSequenceNumber,
}

/// A module of a batch did not decode. The data of the checkpoint is then
/// broken: processing has to stop.
#[derive(Clone, Copy, Debug, PartialEq, Eq, Structural)]
pub struct DecodeFailure {
    /// The position of the package in the batch.
    pub package: usize,
    /// The position of the module in the package.
    pub module: usize,
}

/// A package with its modules decoded. `M` is a decoded module; the cache
/// does not look into it.
#[derive(Clone, Debug)]
pub struct DecodedPackage<M> {
    pub package_id: ObjectID,
    /// The modules of the package by name.
    pub modules: Vec<(String, Arc<M>)>,
    pub checkpoint_sequence_number: CheckpointSequenceNumber,
}

impl<M> DecodedPackage<M> {
    /// The cache entries that this package gives, one for each module.
    pub open spec fn module_pairs(self) -> Seq<(ModuleKey, CachedModule<M>)> {
        Seq::new(
            self.modules@.len(),
            |j: int|
                (
                    (self.package_id, self.modules@[j].0@),
                    CachedModule {
                        module: *self.modules@[j].1,
                        checkpoint: self.checkpoint_sequence_number,
                    },
                ),
        )
    }
}

/// The decoder may give `decoded` for the serialized module `serialized`,
/// and the name is kept.
pub open spec fn decoded_module<M, F: Fn(&Vec<u8>) -> Option<M>>(
    decode: F,
    serialized: (String, Vec<u8>),
    decoded: (String, Arc<M>),
) -> bool {
    &&& decoded.0@ == serialized.0@
    &&& decode.ensures((&serialized.1,), Some(*decoded.1))
}

/// `decoded` are the modules `serialized`, each of them decoded.
pub open spec fn decoded_modules<M, F: Fn(&Vec<u8>) -> Option<M>>(
    decode: F,
    serialized: Seq<(String, Vec<u8>)>,
    decoded: Seq<(String, Arc<M>)>,
) -> bool {
    &&& decoded.len() == serialized.len()
    &&& forall|j: int|
        0 <= j < serialized.len() ==> decoded_module(decode, serialized[j], #[trigger] decoded[j])
}

/// `decoded` is `package` with each of its modules decoded.
pub open spec fn decoded_package<M, F: Fn(&Vec<u8>) -> Option<M>>(
    decode: F,
    package: IndexedPackage,
    decoded: DecodedPackage<M>,
) -> bool {
    &&& decoded.package_id == package.package_id
    &&& decoded.checkpoint_sequence_number == package.checkpoint_sequence_number
    &&& decoded_modules(decode, package.modules@, decoded.modules@)
}

/// `decoded` is the batch `packages` with each of its modules decoded.
pub open spec fn decoded_batch<M, F: Fn(&Vec<u8>) -> Option<M>>(
    decode: F,
    packages: Seq<IndexedPackage>,
    decoded: Seq<DecodedPackage<M>>,
) -> bool {
    &&& decoded.len() == packages.len()
    &&& forall|i: int|
        0 <= i < packages.len() ==> decoded_package(decode, packages[i], #[trigger] decoded[i])
}

/// The decoder refuses no module of the batch.
pub open spec fn never_refused<M, F: Fn(&Vec<u8>) -> Option<M>>(
    decode: F,
    packages: Seq<IndexedPackage>,
) -> bool {
    forall|i: int, j: int|
        0 <= i < packages.len() && 0 <= j < packages[i].modules@.len() ==> !decode.ensures(
            (&(#[trigger] packages[i].modules@[j]).1,),
            None::<M>,
        )
}

/// The module that `failure` names is in the batch and the decoder may
/// refuse it, and whatever stands before it in the batch decodes.
pub open spec fn first_failure<M, F: Fn(&Vec<u8>) -> Option<M>>(
    decode: F,
    packages: Seq<IndexedPackage>,
    failure: DecodeFailure,
) -> bool {
    &&& failure.package < packages.len()
    &&& failure.module < packages[failure.package as int].modules@.len()
    &&& decode.ensures(
        (&packages[failure.package as int].modules@[failure.module as int].1,),
        None::<M>,
    )
    &&& exists|earlier: Seq<DecodedPackage<M>>| #[trigger]
        decoded_batch(decode, packages.take(failure.package as int), earlier)
    &&& exists|earlier: Seq<(String, Arc<M>)>| #[trigger]
        decoded_modules(
            decode,
            packages[failure.package as int].modules@.take(failure.module as int),
            earlier,
        )
}

/// The cache entries that a batch of packages gives, in the order of the
/// batch.
pub open spec fn package_pairs<M>(packages: Seq<DecodedPackage<M>>) -> Seq<
    (ModuleKey, CachedModule<M>),
>
    decreases packages.len(),
{
    if packages.len() == 0 {
        Seq::empty()
    } else {
        package_pairs(packages.drop_last()) + packages.last().module_pairs()
    }
}

/// What is left of a cache after a sweep against the commit watermark:
/// without a watermark everything, with one the entries that were seen after
/// it.
pub open spec fn swept<M>(
    cache: Map<ModuleKey, CachedModule<M>>,
    committed: Option<CheckpointSequenceNumber>,
) -> Map<ModuleKey, CachedModule<M>> {
    match committed {
        None => cache,
        Some(watermark) => Map::new(
            |k: ModuleKey| cache.contains_key(k) && cache[k].checkpoint > watermark,
            |k: ModuleKey| cache[k],
        ),
    }
}

struct PackageEntry<M> {
    package_id: ObjectID,
    module_name: String,
    module: Arc<M>,
    checkpoint: CheckpointSequenceNumber,
}

spec fn entry_pair<M>(entry: PackageEntry<M>) -> (ModuleKey, CachedModule<M>) {
    (
        (entry.package_id, entry.module_name@),
        CachedModule { module: *entry.module, checkpoint: entry.checkpoint },
    )
}

spec fn entry_pairs<M>(v: Seq<PackageEntry<M>>) -> Seq<(ModuleKey, CachedModule<M>)> {
    Seq::new(v.len(), |i: int| entry_pair(v[i]))
}

/// Where the module `name` of package `package_id` stands among the entries.
fn position<M>(v: &Vec<PackageEntry<M>>, package_id: &ObjectID, name: &String) -> (r: Option<
    usize,
>)
    ensures
        match r {
            Some(i) => i < v.len() && entry_pairs(v@)[i as int].0 == (*package_id, name@),
            None => !has_key(entry_pairs(v@), (*package_id, name@)),
        },
{
    let mut i: usize = 0;
    while i < v.len()
        invariant
            i <= v.len(),
            forall|j: int| 0 <= j < i ==> (#[trigger] entry_pairs(v@)[j]).0 != (*package_id, name@),
        decreases v.len() - i,
    {
        if v[i].package_id == *package_id && v[i].module_name == *name {
            return Some(i);
        }
        i = i + 1;
    }
    None
}

/// Puts an entry among the entries, in place of the one with its key if
/// there is one.
fn upsert<M>(v: &mut Vec<PackageEntry<M>>, entry: PackageEntry<M>)
    requires
        distinct_keys(entry_pairs(old(v)@)),
    ensures
        distinct_keys(entry_pairs(final(v)@)),
        assoc_map(entry_pairs(final(v)@)) == assoc_map(entry_pairs(old(v)@)).insert(
            entry_pair(entry).0,
            entry_pair(entry).1,
        ),
{
    let ghost before = entry_pairs(v@);
    let ghost key = entry_pair(entry).0;
    let ghost value = entry_pair(entry).1;
    match position(v, &entry.package_id, &entry.module_name) {
        Some(i) => {
            v[i] = entry;
            proof {
                lemma_assoc_update(before, i as int, value);
                assert(entry_pairs(v@) =~= before.update(i as int, (key, value)));
            }
        },
        None => {
            v.push(entry);
            proof {
                lemma_assoc_push(before, key, value);
                assert(entry_pairs(v@) =~= before.push((key, value)));
            }
        },
    }
}

/// An in-memory cache of the decoded modules of packages that may not have
/// reached the durable store yet.
pub struct IndexingPackageCache<M> {
    packages: Vec<PackageEntry<M>>,
}

impl<M> View for IndexingPackageCache<M> {
    type V = Map<ModuleKey, CachedModule<M>>;

    closed spec fn view(&self) -> Map<ModuleKey, CachedModule<M>> {
        assoc_map(entry_pairs(self.packages@))
    }
}

impl<M> IndexingPackageCache<M> {
    #[verifier::type_invariant]
    spec fn well_formed(self) -> bool {
        distinct_keys(entry_pairs(self.packages@))
    }

    /// An empty cache.
    pub fn new() -> (r: Self)
        ensures
            r@ == Map::<ModuleKey, CachedModule<M>>::empty(),
    {
        let r = IndexingPackageCache { packages: Vec::new() };
        proof {
            assert(entry_pairs(r.packages@) =~= Seq::empty());
        }
        r
    }

    /// Decodes every module of every package of the batch with `decode`, in
    /// order, and puts the decoded modules into the cache. If a module does
    /// not decode, the cache stays as it was and the failure names the
    /// module, the first that did not decode; the caller has to stop. Else
    /// the cache has taken the whole batch, each module under the identifier
    /// of its package and its name, with the checkpoint of its package.
    pub fn insert_packages<F>(&mut self, new_packages: &[IndexedPackage], decode: F) -> (r: Result<
        (),
        DecodeFailure,
    >) where F: Fn(&Vec<u8>) -> Option<M>
        requires
            forall|bytes: &Vec<u8>| #[trigger] decode.requires((bytes,)),
        ensures
            r is Ok ==> exists|decoded: Seq<DecodedPackage<M>>|
                {
                    &&& #[trigger] decoded_batch(decode, new_packages@, decoded)
                    &&& final(self)@ == old(self)@.union_prefer_right(
                        assoc_map(package_pairs(decoded)),
                    )
                },
            r is Err ==> final(self)@ == old(self)@,
            r matches Err(failure) ==> first_failure(decode, new_packages@, failure),
            never_refused(decode, new_packages@) ==> r is Ok,
    {
        let mut decoded: Vec<DecodedPackage<M>> = Vec::new();
        let mut i: usize = 0;
        while i < new_packages.len()
            invariant
                i <= new_packages.len(),
                decoded.len() == i,
                decoded_batch(decode, new_packages@.take(i as int), decoded@),
                forall|bytes: &Vec<u8>| #[trigger] decode.requires((bytes,)),
            decreases new_packages.len() - i,
        {
            let package = &new_packages[i];
            let mut modules: Vec<(String, Arc<M>)> = Vec::new();
            let mut j: usize = 0;
            while j < package.modules.len()
                invariant
                    i < new_packages.len(),
                    *package == new_packages@[i as int],
                    j <= package.modules.len(),
                    modules.len() == j,
                    decoded_batch(decode, new_packages@.take(i as int), decoded@),
                    decoded_modules(decode, package.modules@.take(j as int), modules@),
                    forall|bytes: &Vec<u8>| #[trigger] decode.requires((bytes,)),
                decreases package.modules.len() - j,
            {
                match decode(&package.modules[j].1) {
                    Some(module) => {
                        modules.push((package.modules[j].0.clone(), Arc::new(module)));
                    },
                    None => {
                        let failure = DecodeFailure { package: i, module: j };
                        proof {
                            assert(decoded_batch(
                                decode,
                                new_packages@.take(i as int),
                                decoded@,
                            ));
                            assert(decoded_modules(
                                decode,
                                new_packages@[i as int].modules@.take(j as int),
                                modules@,
                            ));
                            assert(first_failure(decode, new_packages@, failure));
                        }
                        return Err(failure);
                    },
                }
                j = j + 1;
            }
            proof {
                assert(package.modules@.take(j as int) =~= package.modules@);
            }
            decoded.push(
                DecodedPackage {
                    package_id: package.package_id,
                    modules,
                    checkpoint_sequence_number: package.checkpoint_sequence_number,
                },
            );
            i = i + 1;
        }
        proof {
            assert(new_packages@.take(i as int) =~= new_packages@);
        }
        self.insert_modules(decoded.as_slice());
        Ok(())
    }

    /// Puts every module of every package of the batch into the cache, under
    /// the identifier of its package and its name, with the checkpoint of the
    /// package. An entry of the batch replaces what stood under its key, in
    /// the cache or earlier in the batch.
    pub fn insert_modules(&mut self, new_packages: &[DecodedPackage<M>])
        ensures
            final(self)@ == old(self)@.union_prefer_right(
                assoc_map(package_pairs(new_packages@)),
            ),
    {
        proof {
            use_type_invariant(&*self);
        }
        let ghost before = self@;
        let ghost batch = new_packages@;
        let mut packages: Vec<PackageEntry<M>> = Vec::new();
        std::mem::swap(&mut packages, &mut self.packages);
        let mut i: usize = 0;
        proof {
            assert(batch.take(0) =~= Seq::empty());
            assert(before.union_prefer_right(assoc_map(package_pairs(batch.take(0)))) =~= before);
        }
        while i < new_packages.len()
            invariant
                i <= new_packages.len(),
                batch == new_packages@,
                distinct_keys(entry_pairs(packages@)),
                assoc_map(entry_pairs(packages@)) == before.union_prefer_right(
                    assoc_map(package_pairs(batch.take(i as int))),
                ),
            decreases new_packages.len() - i,
        {
            let package = &new_packages[i];
            let ghost done = package_pairs(batch.take(i as int));
            let ghost mine = package.module_pairs();
            let mut j: usize = 0;
            proof {
                assert(done + mine.take(0) =~= done);
            }
            while j < package.modules.len()
                invariant
                    j <= package.modules.len(),
                    mine == package.module_pairs(),
                    distinct_keys(entry_pairs(packages@)),
                    assoc_map(entry_pairs(packages@)) == before.union_prefer_right(
                        assoc_map(done + mine.take(j as int)),
                    ),
                decreases package.modules.len() - j,
            {
                let entry = PackageEntry {
                    package_id: package.package_id,
                    module_name: package.modules[j].0.clone(),
                    module: share(&package.modules[j].1),
                    checkpoint: package.checkpoint_sequence_number,
                };
                proof {
                    let pair = mine[j as int];
                    assert(pair == entry_pair(entry));
                    let so_far = done + mine.take(j as int);
                    assert(done + mine.take(j as int + 1) =~= so_far.push(pair));
                    lemma_assoc_push(so_far, pair.0, pair.1);
                    assert(before.union_prefer_right(assoc_map(so_far).insert(pair.0, pair.1))
                        =~= before.union_prefer_right(assoc_map(so_far)).insert(pair.0, pair.1));
                }
                upsert(&mut packages, entry);
                j = j + 1;
            }
            proof {
                let next = batch.take(i as int + 1);
                assert(next.drop_last() =~= batch.take(i as int));
                assert(next.last() == batch[i as int]);
                assert(mine.take(j as int) =~= mine);
            }
            i = i + 1;
        }
        proof {
            assert(batch.take(i as int) =~= batch);
        }
        self.packages = packages;
    }

    /// The decoded module that stands under the package identifier derived
    /// from the owning address of `id` and under its name, if the cache holds
    /// it. That it holds none is no error: the caller reads the durable store.
    pub fn get_module_by_id(&self, id: &ModuleId) -> (r: Option<Arc<M>>)
        ensures
            match r {
                Some(module) => self@.contains_key(id.key()) && *module == self@[id.key()].module,
                None => !self@.contains_key(id.key()),
            },
    {
        proof {
            use_type_invariant(self);
            lemma_assoc_contains(entry_pairs(self.packages@), id.key());
        }
        let package_id = ObjectID::from_address(id.address);
        match position(&self.packages, &package_id, &id.name) {
            Some(i) => {
                proof {
                    lemma_assoc_index(entry_pairs(self.packages@), i as int);
                }
                Some(share(&self.packages[i].module))
            },
            None => None,
        }
    }

    /// One sweep against the commit watermark. While nothing is committed the
    /// sweep changes nothing. Else it drops every entry that was seen at or
    /// before the committed checkpoint, and keeps the others as they are.
    pub fn remove_committed(&mut self, committed: Option<CheckpointSequenceNumber>)
        ensures
            final(self)@ == swept(old(self)@, committed),
            forall|k: ModuleKey| #[trigger]
                final(self)@.contains_key(k) <==> old(self)@.contains_key(k) && (committed is None
                    || old(self)@[k].checkpoint > committed.unwrap()),
            forall|k: ModuleKey| #[trigger]
                final(self)@.contains_key(k) ==> final(self)@[k] == old(self)@[k],
    {
        proof {
            use_type_invariant(&*self);
        }
        let watermark = match committed {
            Some(watermark) => watermark,
            None => {
                return ;
            },
        };
        let ghost before = self@;
        let mut packages: Vec<PackageEntry<M>> = Vec::new();
        std::mem::swap(&mut packages, &mut self.packages);
        let mut i: usize = 0;
        while i < packages.len()
            invariant
                i <= packages.len(),
                distinct_keys(entry_pairs(packages@)),
                forall|j: int| 0 <= j < i ==> (#[trigger] packages@[j]).checkpoint > watermark,
                forall|k: ModuleKey| #[trigger]
                    assoc_map(entry_pairs(packages@)).contains_key(k) ==> before.contains_key(k)
                        && before[k] == assoc_map(entry_pairs(packages@))[k],
                forall|k: ModuleKey|
                    before.contains_key(k) && before[k].checkpoint > watermark
                        ==> #[trigger] assoc_map(entry_pairs(packages@)).contains_key(k),
            decreases packages.len() - i,
        {
            if packages[i].checkpoint <= watermark {
                let ghost pairs = entry_pairs(packages@);
                let ghost entries = packages@;
                proof {
                    lemma_assoc_swap_remove(pairs, i as int);
                    lemma_assoc_index(pairs, i as int);
                }
                let _ = packages.swap_remove(i);
                proof {
                    assert(entry_pairs(packages@) =~= pairs.update(i as int, pairs.last()).drop_last());
                    assert forall|j: int| 0 <= j < i implies (#[trigger] packages@[j]).checkpoint
                        > watermark by {
                        assert(packages@[j] == entries[j]);
                    }
                }
            } else {
                i = i + 1;
            }
        }
        proof {
            let pairs = entry_pairs(packages@);
            let after = assoc_map(pairs);
            assert forall|k: ModuleKey| after.contains_key(k) implies before[k].checkpoint
                > watermark by {
                lemma_assoc_contains(pairs, k);
                let a = choose|a: int| 0 <= a < pairs.len() && (#[trigger] pairs[a]).0 == k;
                lemma_assoc_index(pairs, a);
                assert(packages@[a].checkpoint > watermark);
            }
            assert(after =~= swept(before, committed));
        }
        self.packages = packages;
    }
}

/// What a sweep keeps: an entry is in the cache after the sweep exactly when
/// it was there before and either nothing is committed or it was seen after
/// the committed checkpoint; and a kept entry is unchanged.
pub proof fn lemma_sweep_keeps_exactly_the_uncommitted<M>(
    cache: Map<ModuleKey, CachedModule<M>>,
    committed: Option<CheckpointSequenceNumber>,
    key: ModuleKey,
)
    ensures
        swept(cache, committed).contains_key(key) <==> cache.contains_key(key) && (committed is None
            || cache[key].checkpoint > committed.unwrap()),
        swept(cache, committed).contains_key(key) ==> swept(cache, committed)[key] == cache[key],
{
}

/// A second sweep against the same watermark removes nothing more.
pub proof fn lemma_sweep_idempotent<M>(
    cache: Map<ModuleKey, CachedModule<M>>,
    committed: Option<CheckpointSequenceNumber>,
)
    ensures
        swept(swept(cache, committed), committed) == swept(cache, committed),
{
    assert(swept(swept(cache, committed), committed) =~= swept(cache, committed));
}

/// The watermark only grows, and a sweep may miss values of it: sweeping
/// against a watermark and then against a later one leaves what one sweep
/// against the later one leaves.
pub proof fn lemma_sweep_later_watermark<M>(
    cache: Map<ModuleKey, CachedModule<M>>,
    earlier: CheckpointSequenceNumber,
    later: CheckpointSequenceNumber,
)
    requires
        earlier <= later,
    ensures
        swept(swept(cache, Some(earlier)), Some(later)) == swept(cache, Some(later)),
{
    assert(swept(swept(cache, Some(earlier)), Some(later)) =~= swept(cache, Some(later)));
}

/// A cache without insertions holds no module.
pub proof fn lemma_empty_cache_holds_nothing<M>(key: ModuleKey)
    ensures
        !Map::<ModuleKey, CachedModule<M>>::empty().contains_key(key),
{
}

/// The batch carries a module under `key`.
pub open spec fn batch_has_module<M>(packages: Seq<DecodedPackage<M>>, key: ModuleKey) -> bool {
    exists|i: int, j: int|
        0 <= i < packages.len() && 0 <= j < packages[i].modules@.len() && (
        #[trigger] packages[i].module_pairs()[j]).0 == key
}

/// The entries of a batch carry exactly the keys of its modules.
proof fn lemma_batch_keys<M>(packages: Seq<DecodedPackage<M>>, key: ModuleKey)
    ensures
        has_key(package_pairs(packages), key) <==> batch_has_module(packages, key),
    decreases packages.len(),
{
    if packages.len() > 0 {
        let n = packages.len() - 1;
        let shorter = packages.drop_last();
        let head = package_pairs(shorter);
        let tail = packages[n].module_pairs();
        let pairs = package_pairs(packages);
        lemma_batch_keys(shorter, key);
        if has_key(pairs, key) {
            let p = choose|p: int| 0 <= p < pairs.len() && (#[trigger] pairs[p]).0 == key;
            if p < head.len() {
                assert(head[p].0 == key);
                let (i, j) = choose|i: int, j: int|
                    0 <= i < shorter.len() && 0 <= j < shorter[i].modules@.len() && (
                    #[trigger] shorter[i].module_pairs()[j]).0 == key;
                assert(shorter[i] == packages[i]);
                assert(packages[i].module_pairs()[j].0 == key);
            } else {
                assert(packages[n].module_pairs()[p - head.len()].0 == key);
            }
        }
        if batch_has_module(packages, key) {
            let (i, j) = choose|i: int, j: int|
                0 <= i < packages.len() && 0 <= j < packages[i].modules@.len() && (
                #[trigger] packages[i].module_pairs()[j]).0 == key;
            if i < n {
                assert(shorter[i] == packages[i]);
                assert(shorter[i].module_pairs()[j].0 == key);
                let p = choose|p: int| 0 <= p < head.len() && (#[trigger] head[p]).0 == key;
                assert(pairs[p].0 == key);
            } else {
                assert(pairs[head.len() + j] == tail[j]);
            }
        }
    }
}

/// Where every module that the batch carries under `key` is the same entry,
/// every entry of the batch under `key` is that entry.
proof fn lemma_batch_values<M>(
    packages: Seq<DecodedPackage<M>>,
    key: ModuleKey,
    value: CachedModule<M>,
)
    requires
        forall|i: int, j: int|
            0 <= i < packages.len() && 0 <= j < packages[i].modules@.len() && (
            #[trigger] packages[i].module_pairs()[j]).0 == key
                ==> packages[i].module_pairs()[j].1 == value,
    ensures
        forall|p: int|
            0 <= p < package_pairs(packages).len() && (#[trigger] package_pairs(packages)[p]).0
                == key ==> package_pairs(packages)[p].1 == value,
    decreases packages.len(),
{
    if packages.len() > 0 {
        let n = packages.len() - 1;
        let shorter = packages.drop_last();
        let head = package_pairs(shorter);
        let pairs = package_pairs(packages);
        assert forall|i: int, j: int|
            0 <= i < shorter.len() && 0 <= j < shorter[i].modules@.len() && (
            #[trigger] shorter[i].module_pairs()[j]).0 == key implies shorter[i].module_pairs()[j].1
            == value by {
            assert(shorter[i] == packages[i]);
            assert(packages[i].module_pairs()[j].0 == key);
        }
        lemma_batch_values(shorter, key, value);
        assert forall|p: int| 0 <= p < pairs.len() && (#[trigger] pairs[p]).0 == key implies pairs[p].1
            == value by {
            if p < head.len() {
                assert(head[p] == pairs[p]);
            } else {
                assert(pairs[p] == packages[n].module_pairs()[p - head.len()]);
            }
        }
    }
}

/// After a batch is inserted, the cache holds each of its modules under the
/// identifier of its package and its name, with the checkpoint of its
/// package, provided that the batch carries one entry only under that key.
pub proof fn lemma_inserted_module_is_cached<M>(
    before: Map<ModuleKey, CachedModule<M>>,
    packages: Seq<DecodedPackage<M>>,
    i: int,
    j: int,
)
    requires
        0 <= i < packages.len(),
        0 <= j < packages[i].modules@.len(),
        forall|a: int, b: int|
            0 <= a < packages.len() && 0 <= b < packages[a].modules@.len() && (
            #[trigger] packages[a].module_pairs()[b]).0 == packages[i].module_pairs()[j].0
                ==> packages[a].module_pairs()[b].1 == packages[i].module_pairs()[j].1,
    ensures
        ({
            let after = before.union_prefer_right(assoc_map(package_pairs(packages)));
            let key = (packages[i].package_id, packages[i].modules@[j].0@);
            &&& after.contains_key(key)
            &&& after[key].module == *packages[i].modules@[j].1
            &&& after[key].checkpoint == packages[i].checkpoint_sequence_number
        }),
{
    let pair = packages[i].module_pairs()[j];
    lemma_batch_keys(packages, pair.0);
    lemma_batch_values(packages, pair.0, pair.1);
    lemma_assoc_agreed_value(package_pairs(packages), pair.0, pair.1);
}

/// Inserting a batch touches the keys of the batch only: under any other key
/// the cache holds after the insertion what it held before.
pub proof fn lemma_insertion_touches_only_the_batch<M>(
    before: Map<ModuleKey, CachedModule<M>>,
    packages: Seq<DecodedPackage<M>>,
    key: ModuleKey,
)
    requires
        !batch_has_module(packages, key),
    ensures
        ({
            let after = before.union_prefer_right(assoc_map(package_pairs(packages)));
            &&& after.contains_key(key) == before.contains_key(key)
            &&& before.contains_key(key) ==> after[key] == before[key]
        }),
{
    lemma_batch_keys(packages, key);
    lemma_assoc_contains(package_pairs(packages), key);
}

} // verus!
