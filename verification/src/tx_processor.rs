//! The object provider of one checkpoint.
//!
//! A `TxChangesProcessor` is built from every object that the transactions of
//! a checkpoint touch. The algorithms that compute balance and object changes
//! ask it for objects. The checkpoint is expected to hold every version that
//! its own transactions refer to, so a lookup that finds nothing usable is an
//! invariant violation, which the caller must treat as fatal.

use crate::base_types::{object_views, Object, ObjectID, ObjectView, SequenceNumber};
use crate::object_cache::{
    lemma_built_from_consistent, lemma_exact_lookup_finds_inserted,
    lemma_exact_lookup_never_inserted, InMemObjectCache, ObjectCacheView,
};
use vstd::prelude::*;

verus! {

/// The checkpoint's objects do not hold what a lookup was entitled to find.
/// None of these is a recoverable miss: processing has to stop.
#[derive(Clone, Copy, Debug, PartialEq, Eq)]
pub enum InvariantViolation {
    /// No object stands at exactly this identifier and version.
    ExactVersionNotFound { id: ObjectID, version: SequenceNumber },
    /// The identifier is known only at a version above the bound.
    HigherVersionFound { id: ObjectID, found: SequenceNumber, bound: SequenceNumber },
    /// The identifier is not known at any version.
    NoVersionFound { id: ObjectID, bound: SequenceNumber },
}

/// The answer to an exact lookup.
pub open spec fn resolve_exact(cache: ObjectCacheView, id: ObjectID, version: SequenceNumber)
    -> Result<ObjectView, InvariantViolation> {
    if cache.versioned.contains_key((id, version)) {
        Ok(cache.versioned[(id, version)])
    } else {
        Err(InvariantViolation::ExactVersionNotFound { id, version })
    }
}

/// The answer to a lookup of the nearest version at or below `bound`: the
/// object at exactly `bound` if there is one; else the object seen last for
/// the identifier, unless its version is above the bound.
pub open spec fn resolve_at_or_below(cache: ObjectCacheView, id: ObjectID, bound: SequenceNumber)
    -> Result<ObjectView, InvariantViolation> {
    if cache.versioned.contains_key((id, bound)) {
        Ok(cache.versioned[(id, bound)])
    } else if cache.latest.contains_key(id) {
        let found = cache.latest[id].version;
        if found.value() > bound.value() {
            Err(InvariantViolation::HigherVersionFound { id, found, bound })
        } else {
            Ok(cache.latest[id])
        }
    } else {
        Err(InvariantViolation::NoVersionFound { id, bound })
    }
}

/// Answers the object lookups of the change computations of one checkpoint.
pub struct TxChangesProcessor {
    object_cache: InMemObjectCache,
}

impl View for TxChangesProcessor {
    type V = ObjectCacheView;

    closed spec fn view(&self) -> ObjectCacheView {
        self.object_cache@
    }
}

impl TxChangesProcessor {
    /// Builds the provider from the objects of a checkpoint, inserted in order.
    pub fn new(objects: &[&Object]) -> (r: Self)
        ensures
            r@ == ObjectCacheView::built_from(object_views(objects@)),
            r@.consistent(),
    {
        let ghost views = object_views(objects@);
        let mut object_cache = InMemObjectCache::new();
        let mut i: usize = 0;
        assert(views.take(0) =~= Seq::empty());
        while i < objects.len()
            invariant
                i <= objects.len(),
                views == object_views(objects@),
                object_cache@ == ObjectCacheView::built_from(views.take(i as int)),
            decreases objects.len() - i,
        {
            let object = objects[i].clone();
            proof {
                let next = views.take(i as int + 1);
                assert(next.drop_last() =~= views.take(i as int));
                assert(next.last() == object@);
            }
            object_cache.insert_object(object);
            i = i + 1;
        }
        proof {
            assert(views.take(i as int) =~= views);
            lemma_built_from_consistent(views);
        }
        TxChangesProcessor { object_cache }
    }

    /// The object at exactly `version`. That there is none is an invariant
    /// violation.
    pub fn get_object(&self, id: &ObjectID, version: &SequenceNumber) -> (r: Result<
        Object,
        InvariantViolation,
    >)
        ensures
            match r {
                Ok(o) => resolve_exact(self@, *id, *version) == Ok::<
                    ObjectView,
                    InvariantViolation,
                >(o@),
                Err(e) => resolve_exact(self@, *id, *version) == Err::<
                    ObjectView,
                    InvariantViolation,
                >(e),
            },
            self@.consistent(),
    {
        match self.object_cache.get(id, Some(version)) {
            Some(o) => Ok(o.clone()),
            None => Err(InvariantViolation::ExactVersionNotFound { id: *id, version: *version }),
        }
    }

    /// The object at `version`, or else the object seen last for `id` if its
    /// version is below `version`. An answer is always `Some`; that there is
    /// none to give is an invariant violation.
    pub fn find_object_lt_or_eq_version(&self, id: &ObjectID, version: &SequenceNumber) -> (r:
        Result<Option<Object>, InvariantViolation>)
        ensures
            match r {
                Ok(Some(o)) => resolve_at_or_below(self@, *id, *version) == Ok::<
                    ObjectView,
                    InvariantViolation,
                >(o@),
                Ok(None) => false,
                Err(e) => resolve_at_or_below(self@, *id, *version) == Err::<
                    ObjectView,
                    InvariantViolation,
                >(e),
            },
            self@.consistent(),
    {
        // The exact version comes first.
        if let Some(o) = self.object_cache.get(id, Some(version)) {
            return Ok(Some(o.clone()));
        }
        // Else the object seen last: a deleted object is asked for at the
        // version of its deletion.
        match self.object_cache.get(id, None) {
            Some(o) => {
                let found = o.version();
                if found.value() > version.value() {
                    Err(
                        InvariantViolation::HigherVersionFound {
                            id: *id,
                            found,
                            bound: *version,
                        },
                    )
                } else {
                    Ok(Some(o.clone()))
                }
            },
            None => Err(InvariantViolation::NoVersionFound { id: *id, bound: *version }),
        }
    }
}

/// An exact lookup answers only what was asked for: an object of the
/// identifier, at the version.
pub proof fn lemma_exact_sound(cache: ObjectCacheView, id: ObjectID, version: SequenceNumber)
    requires
        cache.consistent(),
    ensures
        match resolve_exact(cache, id, version) {
            Ok(o) => o.id == id && o.version == version,
            Err(e) => e == (InvariantViolation::ExactVersionNotFound { id, version })
                && cache.get(id, Some(version)) is None,
        },
{
}

/// A nearest-version lookup never answers above its bound. Its answer is an
/// object of the identifier, at the bound if the cache holds that version and
/// below it otherwise. It fails exactly when the cache holds no version of
/// the identifier, or does not hold the bound and has seen a version above
/// it last.
pub proof fn lemma_at_or_below_sound(cache: ObjectCacheView, id: ObjectID, bound: SequenceNumber)
    requires
        cache.consistent(),
    ensures
        match resolve_at_or_below(cache, id, bound) {
            Ok(o) => {
                &&& o.id == id
                &&& o.version.value() <= bound.value()
                &&& cache.get(id, Some(o.version)) == Some(o)
                &&& cache.get(id, Some(bound)) is Some ==> o.version == bound
                &&& cache.get(id, Some(bound)) is None ==> cache.get(id, None) == Some(o)
                    && o.version.value() < bound.value()
            },
            Err(InvariantViolation::HigherVersionFound { id: i, found, bound: b }) => {
                &&& i == id
                &&& b == bound
                &&& found.value() > bound.value()
                &&& cache.get(id, Some(bound)) is None
                &&& cache.get(id, None) is Some
                &&& cache.get(id, None).unwrap().version == found
            },
            Err(InvariantViolation::NoVersionFound { id: i, bound: b }) => {
                &&& i == id
                &&& b == bound
                &&& forall|v: Option<SequenceNumber>| cache.get(id, v) is None
            },
            Err(InvariantViolation::ExactVersionNotFound { .. }) => false,
        },
{
    if !cache.versioned.contains_key((id, bound)) {
        if cache.latest.contains_key(id) {
            let o = cache.latest[id];
            if o.version.value() == bound.value() {
                SequenceNumber::lemma_value_injective(o.version, bound);
            }
        } else {
            assert forall|v: Option<SequenceNumber>| cache.get(id, v) is None by {
                if v is Some {
                    if cache.versioned.contains_key((id, v.unwrap())) {
                        assert(cache.latest.contains_key(id));
                    }
                }
            }
        }
    }
}

/// The provider of a checkpoint answers an exact lookup of an object of the
/// checkpoint with that object, provided that whatever follows it in the
/// checkpoint under the same identifier and version is the same snapshot.
pub proof fn lemma_provider_finds_inserted(objects: Seq<ObjectView>, i: int)
    requires
        0 <= i < objects.len(),
        forall|j: int|
            i < j < objects.len() && (#[trigger] objects[j]).id == objects[i].id
                && objects[j].version == objects[i].version ==> objects[j] == objects[i],
    ensures
        resolve_exact(ObjectCacheView::built_from(objects), objects[i].id, objects[i].version)
            == Ok::<ObjectView, InvariantViolation>(objects[i]),
        resolve_at_or_below(
            ObjectCacheView::built_from(objects),
            objects[i].id,
            objects[i].version,
        ) == Ok::<ObjectView, InvariantViolation>(objects[i]),
{
    lemma_exact_lookup_finds_inserted(objects, i);
}

/// The provider of a checkpoint answers an exact lookup of what the
/// checkpoint does not hold with an invariant violation, never with an
/// object.
pub proof fn lemma_provider_rejects_never_inserted(
    objects: Seq<ObjectView>,
    id: ObjectID,
    version: SequenceNumber,
)
    requires
        forall|i: int|
            0 <= i < objects.len() ==> !((#[trigger] objects[i]).id == id && objects[i].version
                == version),
    ensures
        resolve_exact(ObjectCacheView::built_from(objects), id, version) == Err::<
            ObjectView,
            InvariantViolation,
        >(InvariantViolation::ExactVersionNotFound { id, version }),
{
    lemma_exact_lookup_never_inserted(objects, id, version);
}

} // verus!
