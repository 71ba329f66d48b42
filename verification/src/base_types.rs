//! Identifiers, versions and ledger objects.

use vstd::prelude::*;
use vstd::std_specs::cmp::PartialEqSpecImpl;

verus! {

/// Number of bytes in an address or an object identifier.
pub const ADDRESS_LENGTH: usize = 32;

/// Sequence number of a checkpoint.
pub type CheckpointSequenceNumber = u64;

/// Compares two 32-byte strings byte by byte.
fn bytes_equal(a: &[u8; 32], b: &[u8; 32]) -> (r: bool)
    ensures
        r == (*a == *b),
{
    let mut i: usize = 0;
    while i < 32
        invariant
            i <= 32,
            forall|j: int| 0 <= j < i ==> a@[j] == b@[j],
        decreases 32 - i,
    {
        if a[i] != b[i] {
            return false;
        }
        i = i + 1;
    }
    assert(a@ =~= b@);
    assert(*a =~= *b);
    true
}

/// The address that owns a module.
#[derive(Clone, Copy, Debug)]
pub struct AccountAddress {
    bytes: [u8; 32],
}

impl AccountAddress {
    pub closed spec fn spec_bytes(self) -> Seq<u8> {
        self.bytes@
    }

    pub fn new(bytes: [u8; 32]) -> (r: Self)
        ensures
            r.spec_bytes() == bytes@,
    {
        AccountAddress { bytes }
    }

    pub fn into_bytes(self) -> (r: [u8; 32])
        ensures
            r@ == self.spec_bytes(),
    {
        self.bytes
    }

    /// Two addresses of the same bytes are the same address.
    pub proof fn lemma_bytes_injective(a: Self, b: Self)
        requires
            a.spec_bytes() == b.spec_bytes(),
        ensures
            a == b,
    {
        assert(a.bytes@ =~= b.bytes@);
        assert(a.bytes =~= b.bytes);
    }
}

impl PartialEq for AccountAddress {
    fn eq(&self, other: &Self) -> (r: bool) {
        bytes_equal(&self.bytes, &other.bytes)
    }
}

impl Eq for AccountAddress {

}

impl PartialEqSpecImpl for AccountAddress {
    open spec fn obeys_eq_spec() -> bool {
        true
    }

    open spec fn eq_spec(&self, other: &Self) -> bool {
        *self == *other
    }
}

/// The identifier of a ledger object or of a package.
#[derive(Clone, Copy, Debug)]
pub struct ObjectID {
    bytes: [u8; 32],
}

impl ObjectID {
    pub closed spec fn spec_bytes(self) -> Seq<u8> {
        self.bytes@
    }

    pub fn new(bytes: [u8; 32]) -> (r: Self)
        ensures
            r.spec_bytes() == bytes@,
    {
        ObjectID { bytes }
    }

    pub fn into_bytes(self) -> (r: [u8; 32])
        ensures
            r@ == self.spec_bytes(),
    {
        self.bytes
    }

    /// The identifier of the package that lives at `address`: the same bytes.
    pub closed spec fn spec_from_address(address: AccountAddress) -> Self {
        ObjectID { bytes: address.bytes }
    }

    /// The identifier of the package that lives at `address`.
    #[verifier::when_used_as_spec(spec_from_address)]
    pub fn from_address(address: AccountAddress) -> (r: Self)
        ensures
            r == Self::spec_from_address(address),
            r.spec_bytes() == address.spec_bytes(),
    {
        ObjectID { bytes: address.bytes }
    }

    /// Two identifiers of the same bytes are the same identifier.
    pub proof fn lemma_bytes_injective(a: Self, b: Self)
        requires
            a.spec_bytes() == b.spec_bytes(),
        ensures
            a == b,
    {
        assert(a.bytes@ =~= b.bytes@);
        assert(a.bytes =~= b.bytes);
    }
}

impl PartialEq for ObjectID {
    fn eq(&self, other: &Self) -> (r: bool) {
        bytes_equal(&self.bytes, &other.bytes)
    }
}

impl Eq for ObjectID {

}

impl PartialEqSpecImpl for ObjectID {
    open spec fn obeys_eq_spec() -> bool {
        true
    }

    open spec fn eq_spec(&self, other: &Self) -> bool {
        *self == *other
    }
}

/// The version of a ledger object. Versions of one identifier only grow.
#[derive(Clone, Copy, Debug, PartialEq, Eq, Structural)]
pub struct SequenceNumber {
    value: u64,
}

impl SequenceNumber {
    pub closed spec fn spec_value(self) -> u64 {
        self.value
    }

    pub fn from_u64(value: u64) -> (r: Self)
        ensures
            r.spec_value() == value,
    {
        SequenceNumber { value }
    }

    #[verifier::when_used_as_spec(spec_value)]
    pub fn value(self) -> (r: u64)
        ensures
            r == self.spec_value(),
    {
        self.value
    }

    /// Two versions of the same number are the same version.
    pub proof fn lemma_value_injective(a: Self, b: Self)
        requires
            a.spec_value() == b.spec_value(),
        ensures
            a == b,
    {
    }
}

/// What a ledger object is, as a mathematical value.
pub ghost struct ObjectView {
    pub id: ObjectID,
    pub version: SequenceNumber,
    pub contents: Seq<u8>,
}

/// A snapshot of an on-ledger object at one version. The cache reads the
/// identifier and the version; the contents are carried along untouched.
#[derive(Debug)]
pub struct Object {
    id: ObjectID,
    version: SequenceNumber,
    contents: Vec<u8>,
}

impl View for Object {
    type V = ObjectView;

    closed spec fn view(&self) -> ObjectView {
        ObjectView { id: self.id, version: self.version, contents: self.contents@ }
    }
}

impl Object {
    pub fn new(id: ObjectID, version: SequenceNumber, contents: Vec<u8>) -> (r: Self)
        ensures
            r@ == (ObjectView { id, version, contents: contents@ }),
    {
        Object { id, version, contents }
    }

    pub fn id(&self) -> (r: ObjectID)
        ensures
            r == self@.id,
    {
        self.id
    }

    pub fn version(&self) -> (r: SequenceNumber)
        ensures
            r == self@.version,
    {
        self.version
    }

    pub fn contents(&self) -> (r: &Vec<u8>)
        ensures
            r@ == self@.contents,
    {
        &self.contents
    }
}

impl Clone for Object {
    fn clone(&self) -> (r: Self)
        ensures
            r@ == self@,
    {
        let contents = self.contents.clone();
        assert(contents@ =~= self.contents@);
        Object { id: self.id, version: self.version, contents }
    }
}

impl PartialEq for Object {
    fn eq(&self, other: &Self) -> (r: bool) {
        if !(self.id == other.id) || self.version.value() != other.version.value() {
            return false;
        }
        if self.contents.len() != other.contents.len() {
            return false;
        }
        let n = self.contents.len();
        let mut i: usize = 0;
        while i < n
            invariant
                i <= n,
                n == self.contents.len(),
                n == other.contents.len(),
                forall|j: int| 0 <= j < i ==> self.contents@[j] == other.contents@[j],
            decreases n - i,
        {
            if self.contents[i] != other.contents[i] {
                return false;
            }
            i = i + 1;
        }
        assert(self.contents@ =~= other.contents@);
        true
    }
}

impl Eq for Object {

}

impl PartialEqSpecImpl for Object {
    open spec fn obeys_eq_spec() -> bool {
        true
    }

    open spec fn eq_spec(&self, other: &Self) -> bool {
        self@ == other@
    }
}

/// The views of a sequence of borrowed objects, in order.
pub open spec fn object_views(objects: Seq<&Object>) -> Seq<ObjectView> {
    Seq::new(objects.len(), |i: int| objects[i]@)
}

} // verus!
