//! Addresses, object identifiers, version numbers and digests.
use vstd::prelude::*;

verus! {

/// Length in bytes of addresses, object identifiers and digests.
pub const ADDRESS_LENGTH: usize = 32;

/// Epoch number.
pub type EpochId = u64;

/// An account address: 32 bytes.
#[derive(Clone, Copy, Debug, PartialEq, Eq, Hash, PartialOrd, Ord)]
pub struct IotaAddress(pub [u8; 32]);

/// The identifier of an object: 32 bytes, the same space as addresses.
#[derive(Clone, Copy, Debug, PartialEq, Eq, Hash, PartialOrd, Ord)]
pub struct ObjectID(pub [u8; 32]);

/// The version of an object.
#[derive(Clone, Copy, Debug, PartialEq, Eq, Hash, PartialOrd, Ord)]
pub struct SequenceNumber(pub u64);

/// Digest of the last checkpoint of an epoch.
#[derive(Clone, Copy, Debug, PartialEq, Eq, Hash)]
pub struct CheckpointDigest(pub [u8; 32]);

/// Digest of a transaction.
#[derive(Clone, Copy, Debug, PartialEq, Eq, Hash)]
pub struct TransactionDigest(pub [u8; 32]);

/// Digest of an object.
#[derive(Clone, Copy, Debug, PartialEq, Eq, Hash)]
pub struct ObjectDigest(pub [u8; 32]);

/// Timestamp of a checkpoint, in milliseconds since the Unix epoch.
pub type CheckpointTimestamp = u64;

/// Compares two 32-byte arrays.
pub fn bytes32_eq(a: &[u8; 32], b: &[u8; 32]) -> (r: bool)
    ensures
        r == (*a == *b),
{
    let mut i: usize = 0;
    while i < 32
        invariant
            i <= 32,
            forall|j: int| 0 <= j < i ==> a[j] == b[j],
        decreases 32 - i,
    {
        if a[i] != b[i] {
            return false;
        }
        i = i + 1;
    }
    proof {
        lemma_arrays_eq(*a, *b);
    }
    true
}

/// Two arrays of 32 bytes with the same elements are equal.
pub proof fn lemma_arrays_eq(a: [u8; 32], b: [u8; 32])
    requires
        forall|j: int| 0 <= j < 32 ==> a[j] == b[j],
    ensures
        a == b,
{
    broadcast use vstd::array::axiom_array_ext_equal;

    assert(a =~= b);
}

/// The bytes of a system object identifier: zero but for bytes 30 and 31.
pub open spec fn low_bytes_seq(hi: u8, lo: u8) -> Seq<u8> {
    Seq::new(32, |i: int| if i == 30 { hi } else if i == 31 { lo } else { 0u8 })
}

impl IotaAddress {
    /// Equality of addresses.
    pub fn equals(&self, other: &IotaAddress) -> (r: bool)
        ensures
            r == (*self == *other),
    {
        bytes32_eq(&self.0, &other.0)
    }
}

impl ObjectID {
    /// Equality of object identifiers.
    pub fn equals(&self, other: &ObjectID) -> (r: bool)
        ensures
            r == (*self == *other),
    {
        bytes32_eq(&self.0, &other.0)
    }

    /// The identifier whose last two bytes are `hi`, `lo` and whose other bytes
    /// are zero (the form of the well-known system object identifiers).
    pub fn from_low_bytes(hi: u8, lo: u8) -> (r: ObjectID)
        ensures
            r == spec_id_from_low_bytes(hi, lo),
            r.0@ == low_bytes_seq(hi, lo),
    {
        let mut b = [0u8; 32];
        b[30] = hi;
        b[31] = lo;
        let r = ObjectID(b);
        proof {
            broadcast use vstd::array::lemma_array_index;

            assert(r.0@ =~= low_bytes_seq(hi, lo));
            let c = spec_id_from_low_bytes(hi, lo);
            assert(c.0@ == low_bytes_seq(hi, lo));
            assert forall|j: int| 0 <= j < 32 implies r.0[j] == c.0[j] by {
                assert(r.0@[j] == c.0@[j]);
            }
            lemma_arrays_eq(r.0, c.0);
        }
        r
    }

    /// The object identifier of the same bytes as an address.
    pub fn from_address(a: IotaAddress) -> (r: ObjectID)
        ensures
            r.0 == a.0,
    {
        ObjectID(a.0)
    }
}

/// The identifier with bytes 30 and 31 set to `hi` and `lo`, all others zero.
pub open spec fn spec_id_from_low_bytes(hi: u8, lo: u8) -> ObjectID {
    choose|id: ObjectID| id.0@ == low_bytes_seq(hi, lo)
}

/// The shared object that holds the state of the authenticator (`0x7`).
pub open spec fn spec_authenticator_state_object_id() -> ObjectID {
    spec_id_from_low_bytes(0, 7)
}

/// The shared object that holds the randomness state (`0x8`).
pub open spec fn spec_randomness_state_object_id() -> ObjectID {
    spec_id_from_low_bytes(0, 8)
}

/// The shared object that holds the deny lists (`0x403`).
pub open spec fn spec_deny_list_object_id() -> ObjectID {
    spec_id_from_low_bytes(4, 3)
}

/// The identifier of the authenticator state object.
pub fn iota_authenticator_state_object_id() -> (r: ObjectID)
    ensures
        r == spec_authenticator_state_object_id(),
{
    ObjectID::from_low_bytes(0, 7)
}

/// The identifier of the randomness state object.
pub fn iota_randomness_state_object_id() -> (r: ObjectID)
    ensures
        r == spec_randomness_state_object_id(),
{
    ObjectID::from_low_bytes(0, 8)
}

/// The identifier of the deny list object.
pub fn iota_deny_list_object_id() -> (r: ObjectID)
    ensures
        r == spec_deny_list_object_id(),
{
    ObjectID::from_low_bytes(4, 3)
}

impl SequenceNumber {
    /// The number itself.
    pub fn value(&self) -> (r: u64)
        ensures
            r == self.0,
    {
        self.0
    }
}

} // verus!
