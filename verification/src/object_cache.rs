//! The per-checkpoint object cache.
//!
//! One cache is built from the objects that a checkpoint touches and is then
//! only read. It indexes the same shared objects twice: by identifier, where
//! the object inserted last for an identifier stands, and by identifier and
//! version, where every inserted version stands.

use crate::assoc::{
    assoc_map, distinct_keys, has_key, lemma_assoc_contains, lemma_assoc_index,
    lemma_assoc_push, lemma_assoc_update,
};
use crate::base_types::{Object, ObjectID, ObjectView, SequenceNumber};
use crate::sharing::share;
use std::sync::Arc;
use vstd::prelude::*;

verus! {

/// What an object cache holds, as two maps over the same objects.
pub ghost struct ObjectCacheView {
    /// For each identifier, the object that was inserted last for it.
    pub latest: Map<ObjectID, ObjectView>,
    /// Every inserted object under its identifier and version.
    pub versioned: Map<(ObjectID, SequenceNumber), ObjectView>,
}

impl ObjectCacheView {
    /// The cache that holds nothing.
    pub open spec fn empty() -> Self {
        ObjectCacheView { latest: Map::empty(), versioned: Map::empty() }
    }

    /// The cache after `object` has been inserted.
    pub open spec fn insert(self, object: ObjectView) -> Self {
        ObjectCacheView {
            latest: self.latest.insert(object.id, object),
            versioned: self.versioned.insert((object.id, object.version), object),
        }
    }

    /// The cache after the objects of `objects` have been inserted in order.
    pub open spec fn insert_all(self, objects: Seq<ObjectView>) -> Self
        decreases objects.len(),
    {
        if objects.len() == 0 {
            self
        } else {
            self.insert_all(objects.drop_last()).insert(objects.last())
        }
    }

    /// The cache that is built from `objects`, inserted in order.
    pub open spec fn built_from(objects: Seq<ObjectView>) -> Self {
        Self::empty().insert_all(objects)
    }

    /// What a lookup answers: with a version the object at exactly that
    /// version, without one the object inserted last for the identifier.
    pub open spec fn get(self, id: ObjectID, version: Option<SequenceNumber>) -> Option<
        ObjectView,
    > {
        match version {
            Some(v) => if self.versioned.contains_key((id, v)) {
                Some(self.versioned[(id, v)])
            } else {
                None
            },
            None => if self.latest.contains_key(id) {
                Some(self.latest[id])
            } else {
                None
            },
        }
    }

    /// The two maps agree: each object stands under its own identifier and
    /// version, the object that is latest for an identifier is also in the
    /// versioned map, and an identifier with some version has a latest object.
    pub open spec fn consistent(self) -> bool {
        &&& forall|id: ObjectID| #[trigger]
            self.latest.contains_key(id) ==> {
                &&& self.latest[id].id == id
                &&& self.versioned.contains_key((id, self.latest[id].version))
                &&& self.versioned[(id, self.latest[id].version)] == self.latest[id]
            }
        &&& forall|id: ObjectID, v: SequenceNumber| #[trigger]
            self.versioned.contains_key((id, v)) ==> {
                &&& self.versioned[(id, v)].id == id
                &&& self.versioned[(id, v)].version == v
                &&& self.latest.contains_key(id)
            }
    }

    /// Inserting an object keeps the two maps in agreement.
    pub proof fn lemma_insert_consistent(self, object: ObjectView)
        requires
            self.consistent(),
        ensures
            self.insert(object).consistent(),
    {
        let next = self.insert(object);
        assert forall|id: ObjectID| #[trigger] next.latest.contains_key(id) implies {
            &&& next.latest[id].id == id
            &&& next.versioned.contains_key((id, next.latest[id].version))
            &&& next.versioned[(id, next.latest[id].version)] == next.latest[id]
        } by {
            if id != object.id {
                assert(self.latest.contains_key(id));
            }
        }
        assert forall|id: ObjectID, v: SequenceNumber| #[trigger]
            next.versioned.contains_key((id, v)) implies {
            &&& next.versioned[(id, v)].id == id
            &&& next.versioned[(id, v)].version == v
            &&& next.latest.contains_key(id)
        } by {
            if (id, v) != (object.id, object.version) {
                assert(self.versioned.contains_key((id, v)));
            }
        }
    }
}

/// The pairs of the by-identifier index.
pub closed spec fn id_pairs(v: Seq<Arc<Object>>) -> Seq<(ObjectID, ObjectView)> {
    Seq::new(v.len(), |i: int| (v[i]@.id, v[i]@))
}

/// The pairs of the by-identifier-and-version index.
pub closed spec fn seq_pairs(v: Seq<Arc<Object>>) -> Seq<((ObjectID, SequenceNumber), ObjectView)> {
    Seq::new(v.len(), |i: int| ((v[i]@.id, v[i]@.version), v[i]@))
}

/// Where the object with identifier `id` stands in the by-identifier index.
fn position_by_id(v: &Vec<Arc<Object>>, id: &ObjectID) -> (r: Option<usize>)
    ensures
        match r {
            Some(i) => i < v.len() && v[i as int]@.id == *id,
            None => !has_key(id_pairs(v@), *id),
        },
{
    let mut i: usize = 0;
    while i < v.len()
        invariant
            i <= v.len(),
            forall|j: int| 0 <= j < i ==> v[j]@.id != *id,
        decreases v.len() - i,
    {
        if v[i].id() == *id {
            return Some(i);
        }
        i = i + 1;
    }
    proof {
        let pairs = id_pairs(v@);
        assert forall|j: int| 0 <= j < pairs.len() implies (#[trigger] pairs[j]).0 != *id by {
            assert(pairs[j].0 == v[j]@.id);
        }
    }
    None
}

/// Where the object with identifier `id` at `version` stands in the
/// by-identifier-and-version index.
fn position_by_key(v: &Vec<Arc<Object>>, id: &ObjectID, version: SequenceNumber) -> (r: Option<
    usize,
>)
    ensures
        match r {
            Some(i) => i < v.len() && v[i as int]@.id == *id && v[i as int]@.version == version,
            None => !has_key(seq_pairs(v@), (*id, version)),
        },
{
    let mut i: usize = 0;
    while i < v.len()
        invariant
            i <= v.len(),
            forall|j: int| 0 <= j < i ==> !(v[j]@.id == *id && v[j]@.version == version),
        decreases v.len() - i,
    {
        if v[i].id() == *id && v[i].version() == version {
            return Some(i);
        }
        i = i + 1;
    }
    proof {
        let pairs = seq_pairs(v@);
        assert forall|j: int| 0 <= j < pairs.len() implies (#[trigger] pairs[j]).0 != (
            *id,
            version,
        ) by {
            assert(pairs[j].0 == (v[j]@.id, v[j]@.version));
        }
    }
    None
}

/// Puts `object` into the by-identifier index, in place of the object that
/// stood there for its identifier, if one did.
fn upsert_latest(v: &mut Vec<Arc<Object>>, object: Arc<Object>)
    requires
        distinct_keys(id_pairs(old(v)@)),
    ensures
        distinct_keys(id_pairs(final(v)@)),
        assoc_map(id_pairs(final(v)@)) == assoc_map(id_pairs(old(v)@)).insert(
            object@.id,
            object@,
        ),
{
    let ghost before = id_pairs(v@);
    let id = object.id();
    match position_by_id(v, &id) {
        Some(i) => {
            v[i] = object;
            proof {
                assert(before[i as int].0 == id);
                lemma_assoc_update(before, i as int, object@);
                assert(id_pairs(v@) =~= before.update(i as int, (id, object@)));
            }
        },
        None => {
            v.push(object);
            proof {
                lemma_assoc_push(before, id, object@);
                assert(id_pairs(v@) =~= before.push((id, object@)));
            }
        },
    }
}

/// Puts `object` into the by-identifier-and-version index, in place of the
/// object that stood there for its identifier and version, if one did.
fn upsert_versioned(v: &mut Vec<Arc<Object>>, object: Arc<Object>)
    requires
        distinct_keys(seq_pairs(old(v)@)),
    ensures
        distinct_keys(seq_pairs(final(v)@)),
        assoc_map(seq_pairs(final(v)@)) == assoc_map(seq_pairs(old(v)@)).insert(
            (object@.id, object@.version),
            object@,
        ),
{
    let ghost before = seq_pairs(v@);
    let id = object.id();
    let version = object.version();
    match position_by_key(v, &id, version) {
        Some(i) => {
            v[i] = object;
            proof {
                assert(before[i as int].0 == (id, version));
                lemma_assoc_update(before, i as int, object@);
                assert(seq_pairs(v@) =~= before.update(i as int, ((id, version), object@)));
            }
        },
        None => {
            v.push(object);
            proof {
                lemma_assoc_push(before, (id, version), object@);
                assert(seq_pairs(v@) =~= before.push(((id, version), object@)));
            }
        },
    }
}

/// An in-memory index of the ledger objects of one checkpoint.
pub struct InMemObjectCache {
    id_map: Vec<Arc<Object>>,
    seq_map: Vec<Arc<Object>>,
}

impl View for InMemObjectCache {
    type V = ObjectCacheView;

    closed spec fn view(&self) -> ObjectCacheView {
        ObjectCacheView {
            latest: assoc_map(id_pairs(self.id_map@)),
            versioned: assoc_map(seq_pairs(self.seq_map@)),
        }
    }
}

impl InMemObjectCache {
    #[verifier::type_invariant]
    spec fn well_formed(self) -> bool {
        &&& distinct_keys(id_pairs(self.id_map@))
        &&& distinct_keys(seq_pairs(self.seq_map@))
        &&& self@.consistent()
    }

    /// An empty cache.
    pub fn new() -> (r: Self)
        ensures
            r@ == ObjectCacheView::empty(),
    {
        let r = InMemObjectCache { id_map: Vec::new(), seq_map: Vec::new() };
        proof {
            assert(id_pairs(r.id_map@) =~= Seq::empty());
            assert(seq_pairs(r.seq_map@) =~= Seq::empty());
            assert(r@.latest =~= Map::empty());
            assert(r@.versioned =~= Map::empty());
        }
        r
    }

    /// Inserts `object`, or replaces what stood under its identifier and
    /// under its identifier and version. Both indexes share the one object.
    pub fn insert_object(&mut self, object: Object)
        ensures
            final(self)@ == old(self)@.insert(object@),
            final(self)@.consistent(),
    {
        proof {
            use_type_invariant(&*self);
            old(self)@.lemma_insert_consistent(object@);
        }
        let mut taken = InMemObjectCache::new();
        std::mem::swap(self, &mut taken);
        let InMemObjectCache { id_map, seq_map } = taken;
        let mut id_map = id_map;
        let mut seq_map = seq_map;
        let obj = Arc::new(object);
        upsert_latest(&mut id_map, share(&obj));
        upsert_versioned(&mut seq_map, obj);
        *self = InMemObjectCache { id_map, seq_map };
    }

    /// Looks an object up: with a version the object at exactly that version,
    /// without one the object that was inserted last for the identifier.
    pub fn get(&self, id: &ObjectID, version: Option<&SequenceNumber>) -> (r: Option<&Object>)
        ensures
            match r {
                Some(o) => Some(o@),
                None => None,
            } == self@.get(
                *id,
                match version {
                    Some(v) => Some(*v),
                    None => None,
                },
            ),
            self@.consistent(),
    {
        proof {
            use_type_invariant(self);
        }
        match version {
            Some(v) => {
                proof {
                    lemma_assoc_contains(seq_pairs(self.seq_map@), (*id, *v));
                }
                match position_by_key(&self.seq_map, id, *v) {
                    Some(i) => {
                        proof {
                            let pairs = seq_pairs(self.seq_map@);
                            assert(pairs[i as int].0 == (*id, *v));
                            lemma_assoc_index(pairs, i as int);
                        }
                        Some(&*self.seq_map[i])
                    },
                    None => None,
                }
            },
            None => {
                proof {
                    lemma_assoc_contains(id_pairs(self.id_map@), *id);
                }
                match position_by_id(&self.id_map, id) {
                    Some(i) => {
                        proof {
                            let pairs = id_pairs(self.id_map@);
                            assert(pairs[i as int].0 == *id);
                            lemma_assoc_index(pairs, i as int);
                        }
                        Some(&*self.id_map[i])
                    },
                    None => None,
                }
            },
        }
    }
}

/// In a cache built by insertions the two indexes agree.
pub proof fn lemma_built_from_consistent(objects: Seq<ObjectView>)
    ensures
        ObjectCacheView::built_from(objects).consistent(),
    decreases objects.len(),
{
    if objects.len() > 0 {
        lemma_built_from_consistent(objects.drop_last());
        ObjectCacheView::built_from(objects.drop_last()).lemma_insert_consistent(objects.last());
    }
}

/// Exact lookup finds what was inserted: the lookup of the identifier and
/// version of an inserted object answers that object, provided that whatever
/// was inserted after it under the same identifier and version is the same
/// snapshot.
pub proof fn lemma_exact_lookup_finds_inserted(objects: Seq<ObjectView>, i: int)
    requires
        0 <= i < objects.len(),
        forall|j: int|
            i < j < objects.len() && (#[trigger] objects[j]).id == objects[i].id
                && objects[j].version == objects[i].version ==> objects[j] == objects[i],
    ensures
        ObjectCacheView::built_from(objects).get(objects[i].id, Some(objects[i].version)) == Some(
            objects[i],
        ),
    decreases objects.len(),
{
    if i < objects.len() - 1 {
        let shorter = objects.drop_last();
        assert(shorter[i] == objects[i]);
        assert forall|j: int|
            i < j < shorter.len() && (#[trigger] shorter[j]).id == shorter[i].id
                && shorter[j].version == shorter[i].version implies shorter[j] == shorter[i] by {
            assert(shorter[j] == objects[j]);
        }
        lemma_exact_lookup_finds_inserted(shorter, i);
        let last = objects[objects.len() - 1];
        if last.id == objects[i].id && last.version == objects[i].version {
            assert(last == objects[i]);
        }
    }
}

/// Exact lookup finds nothing else: an identifier and version under which
/// nothing was inserted is not found.
pub proof fn lemma_exact_lookup_never_inserted(
    objects: Seq<ObjectView>,
    id: ObjectID,
    version: SequenceNumber,
)
    requires
        forall|i: int|
            0 <= i < objects.len() ==> !((#[trigger] objects[i]).id == id && objects[i].version
                == version),
    ensures
        ObjectCacheView::built_from(objects).get(id, Some(version)) is None,
    decreases objects.len(),
{
    if objects.len() > 0 {
        let shorter = objects.drop_last();
        assert forall|i: int| 0 <= i < shorter.len() implies !((#[trigger] shorter[i]).id == id
            && shorter[i].version == version) by {
            assert(shorter[i] == objects[i]);
        }
        lemma_exact_lookup_never_inserted(shorter, id, version);
        let last = objects[objects.len() - 1];
        assert(!(last.id == id && last.version == version));
    }
}

/// A lookup without a version answers the object that was inserted last for
/// the identifier.
pub proof fn lemma_latest_lookup_finds_last(objects: Seq<ObjectView>, i: int)
    requires
        0 <= i < objects.len(),
        forall|j: int| i < j < objects.len() ==> (#[trigger] objects[j]).id != objects[i].id,
    ensures
        ObjectCacheView::built_from(objects).get(objects[i].id, None) == Some(objects[i]),
    decreases objects.len(),
{
    if i < objects.len() - 1 {
        let shorter = objects.drop_last();
        assert(shorter[i] == objects[i]);
        assert forall|j: int| i < j < shorter.len() implies (#[trigger] shorter[j]).id
            != shorter[i].id by {
            assert(shorter[j] == objects[j]);
        }
        lemma_latest_lookup_finds_last(shorter, i);
        assert(objects[objects.len() - 1].id != objects[i].id);
    }
}

/// An identifier under which nothing was inserted is not found, with or
/// without a version.
pub proof fn lemma_lookup_unknown_identifier(
    objects: Seq<ObjectView>,
    id: ObjectID,
    version: Option<SequenceNumber>,
)
    requires
        forall|i: int| 0 <= i < objects.len() ==> (#[trigger] objects[i]).id != id,
    ensures
        ObjectCacheView::built_from(objects).get(id, version) is None,
    decreases objects.len(),
{
    if objects.len() > 0 {
        let shorter = objects.drop_last();
        assert forall|i: int| 0 <= i < shorter.len() implies (#[trigger] shorter[i]).id != id by {
            assert(shorter[i] == objects[i]);
        }
        lemma_lookup_unknown_identifier(shorter, id, version);
        assert(objects[objects.len() - 1].id != id);
    }
}

/// Caches do not see each other's objects: of two caches built from objects
/// with disjoint identifiers, neither finds an identifier of the other.
pub proof fn lemma_cache_isolation(
    first: Seq<ObjectView>,
    second: Seq<ObjectView>,
    version: Option<SequenceNumber>,
)
    requires
        forall|i: int, j: int|
            0 <= i < first.len() && 0 <= j < second.len() ==> (#[trigger] first[i]).id != (
            #[trigger] second[j]).id,
    ensures
        forall|j: int|
            0 <= j < second.len() ==> ObjectCacheView::built_from(first).get(
                (#[trigger] second[j]).id,
                version,
            ) is None,
        forall|i: int|
            0 <= i < first.len() ==> ObjectCacheView::built_from(second).get(
                (#[trigger] first[i]).id,
                version,
            ) is None,
{
    assert forall|j: int| 0 <= j < second.len() implies ObjectCacheView::built_from(first).get(
        (#[trigger] second[j]).id,
        version,
    ) is None by {
        lemma_lookup_unknown_identifier(first, second[j].id, version);
    }
    assert forall|i: int| 0 <= i < first.len() implies ObjectCacheView::built_from(second).get(
        (#[trigger] first[i]).id,
        version,
    ) is None by {
        lemma_lookup_unknown_identifier(second, first[i].id, version);
    }
}

} // verus!
