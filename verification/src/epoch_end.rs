//! The read-only view over the output objects of one checkpoint.
//!
//! Epoch-end processing extracts the system state and its children from the
//! objects that the last checkpoint of an epoch produced. The view answers
//! by identifier, or by identifier and version, with the first object that
//! matches. That nothing matches is an ordinary answer.

use crate::base_types::{object_views, Object, ObjectID, ObjectView, SequenceNumber};
use vstd::prelude::*;

verus! {

/// The object at `i` is the first with the identifier `id`.
pub open spec fn is_first_with_id(objects: Seq<ObjectView>, i: int, id: ObjectID) -> bool {
    &&& 0 <= i < objects.len()
    &&& objects[i].id == id
    &&& forall|j: int| 0 <= j < i ==> (#[trigger] objects[j]).id != id
}

/// The object at `i` is the first with the identifier `id` at `version`.
pub open spec fn is_first_with_key(
    objects: Seq<ObjectView>,
    i: int,
    id: ObjectID,
    version: SequenceNumber,
) -> bool {
    &&& 0 <= i < objects.len()
    &&& objects[i].id == id
    &&& objects[i].version == version
    &&& forall|j: int|
        0 <= j < i ==> !((#[trigger] objects[j]).id == id && objects[j].version == version)
}

/// The output objects of one checkpoint, for lookups at the end of an epoch.
pub struct EpochEndIndexingObjectStore<'a> {
    objects: Vec<&'a Object>,
}

impl<'a> View for EpochEndIndexingObjectStore<'a> {
    type V = Seq<ObjectView>;

    closed spec fn view(&self) -> Seq<ObjectView> {
        object_views(self.objects@)
    }
}

impl<'a> EpochEndIndexingObjectStore<'a> {
    /// The view over `output_objects`: the objects that the checkpoint
    /// produced, not all that it touched.
    pub fn new(output_objects: Vec<&'a Object>) -> (r: Self)
        ensures
            r@ == object_views(output_objects@),
    {
        EpochEndIndexingObjectStore { objects: output_objects }
    }

    /// The first object with the identifier `object_id`, if there is one.
    pub fn get_object(&self, object_id: &ObjectID) -> (r: Option<Object>)
        ensures
            match r {
                Some(o) => exists|i: int|
                    is_first_with_id(self@, i, *object_id) && (#[trigger] self@[i]) == o@,
                None => forall|i: int|
                    0 <= i < self@.len() ==> (#[trigger] self@[i]).id != *object_id,
            },
    {
        let mut i: usize = 0;
        while i < self.objects.len()
            invariant
                i <= self.objects.len(),
                forall|j: int| 0 <= j < i ==> (#[trigger] self@[j]).id != *object_id,
            decreases self.objects.len() - i,
        {
            if self.objects[i].id() == *object_id {
                let found = self.objects[i].clone();
                assert(is_first_with_id(self@, i as int, *object_id) && self@[i as int] == found@);
                return Some(found);
            }
            i = i + 1;
        }
        None
    }

    /// The first object with the identifier `object_id` at `version`, if
    /// there is one.
    pub fn get_object_by_key(&self, object_id: &ObjectID, version: SequenceNumber) -> (r: Option<
        Object,
    >)
        ensures
            match r {
                Some(o) => exists|i: int|
                    is_first_with_key(self@, i, *object_id, version) && (#[trigger] self@[i])
                        == o@,
                None => forall|i: int|
                    0 <= i < self@.len() ==> !((#[trigger] self@[i]).id == *object_id
                        && self@[i].version == version),
            },
    {
        let mut i: usize = 0;
        while i < self.objects.len()
            invariant
                i <= self.objects.len(),
                forall|j: int|
                    0 <= j < i ==> !((#[trigger] self@[j]).id == *object_id && self@[j].version
                        == version),
            decreases self.objects.len() - i,
        {
            if self.objects[i].id() == *object_id && self.objects[i].version() == version {
                let found = self.objects[i].clone();
                assert(is_first_with_key(self@, i as int, *object_id, version) && self@[i as int]
                    == found@);
                return Some(found);
            }
            i = i + 1;
        }
        None
    }
}

} // verus!
