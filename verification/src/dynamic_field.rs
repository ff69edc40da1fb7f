//! Dynamic fields: values attached to a parent object under a key, each kept
//! in an object of its own whose identifier is derived from the parent, the
//! key's type and the key's serialized bytes.
use vstd::prelude::*;
use vstd::bytes::{spec_u64_to_le_bytes, u64_to_le_bytes};
use fastcrypto::hash::{Blake2b256, HashFunction};

use crate::base_types::{lemma_arrays_eq, ObjectID};
use crate::error::IotaError;
use crate::object::{Data, DataView, ObjectView};
use crate::storage::ObjectStore;

verus! {

/// Domain separator of the hash that derives a child object's identifier.
pub const CHILD_OBJECT_ID_SCOPE: u8 = 0xf0;

/// The Blake2b hash, with a 32-byte digest, of the given bytes.
pub uninterp spec fn blake2b256(data: Seq<u8>) -> Seq<u8>;

/// Calls `<Blake2b256 as HashFunction<32>>::digest` of fastcrypto, which
/// hashes the bytes with Blake2b-256; the digest is named by `blake2b256`.
#[verifier::external_body]
fn hash_blake2b256(data: &[u8]) -> (r: [u8; 32])
    ensures
        r@ == blake2b256(data@),
{
    Blake2b256::digest(data).digest
}

/// What is hashed to derive the identifier of the dynamic field of `parent`
/// under a key of the type whose serialized type tag is `key_type_tag`, and
/// whose serialized value is `key`: the scope byte, the parent, the length of
/// the key in 8 little-endian bytes, the key, and the type tag.
pub open spec fn child_id_preimage(parent: ObjectID, key_type_tag: Seq<u8>, key: Seq<u8>) -> Seq<
    u8,
> {
    seq![CHILD_OBJECT_ID_SCOPE] + parent.0@ + spec_u64_to_le_bytes(key.len() as u64) + key
        + key_type_tag
}

/// The identifier of the dynamic field of `parent` under the given key.
pub open spec fn dynamic_field_id(parent: ObjectID, key_type_tag: Seq<u8>, key: Seq<u8>) -> ObjectID {
    choose|id: ObjectID| id.0@ == blake2b256(child_id_preimage(parent, key_type_tag, key))
}

/// Appends the bytes of a slice.
fn push_all(out: &mut Vec<u8>, data: &[u8])
    ensures
        final(out)@ == old(out)@ + data@,
{
    let mut i: usize = 0;
    while i < data.len()
        invariant
            i <= data@.len(),
            out@ == old(out)@ + data@.take(i as int),
        decreases data@.len() - i,
    {
        out.push(data[i]);
        i = i + 1;
        assert(out@ =~= old(out)@ + data@.take(i as int));
    }
    assert(data@.take(data@.len() as int) =~= data@);
}

/// Derives the identifier of the dynamic field of `parent` under the key
/// whose serialized type tag and value are given.
pub fn derive_dynamic_field_id(parent: ObjectID, key_type_tag: &[u8], key_bytes: &[u8]) -> (r:
    ObjectID)
    ensures
        r == dynamic_field_id(parent, key_type_tag@, key_bytes@),
        r.0@ == blake2b256(child_id_preimage(parent, key_type_tag@, key_bytes@)),
{
    let mut preimage: Vec<u8> = Vec::new();
    preimage.push(CHILD_OBJECT_ID_SCOPE);
    push_all(&mut preimage, &parent.0);
    let len_bytes = u64_to_le_bytes(key_bytes.len() as u64);
    push_all(&mut preimage, len_bytes.as_slice());
    push_all(&mut preimage, key_bytes);
    push_all(&mut preimage, key_type_tag);
    assert(preimage@ =~= child_id_preimage(parent, key_type_tag@, key_bytes@));
    let digest = hash_blake2b256(preimage.as_slice());
    let r = ObjectID(digest);
    proof {
        let c = dynamic_field_id(parent, key_type_tag@, key_bytes@);
        assert(c.0@ == r.0@);
        assert forall|j: int| 0 <= j < 32 implies c.0[j] == r.0[j] by {
            assert(c.0@[j] == r.0@[j]);
        }
        lemma_arrays_eq(c.0, r.0);
    }
    r
}

/// The contents of the Move object stored under `id`, if one is.
pub open spec fn move_contents_at<S: ObjectStore>(store: &S, id: ObjectID) -> Option<Seq<u8>> {
    match store.stored_object(id) {
        Some(v) => match v.data {
            DataView::Move(m) => Some(m.contents),
            DataView::Package(_) => None,
        },
        None => None,
    }
}

/// Reads the serialized field object of the dynamic field of `parent` under
/// the given key: fails when the store fails, when no object is stored under
/// the derived identifier, or when that object is a package.
pub fn read_dynamic_field_contents<S: ObjectStore>(
    object_store: &S,
    parent: ObjectID,
    key_type_tag: &[u8],
    key_bytes: &[u8],
) -> (r: Result<Vec<u8>, IotaError>)
    ensures
        r matches Ok(c) ==> move_contents_at(
            object_store,
            dynamic_field_id(parent, key_type_tag@, key_bytes@),
        ) == Some(c@),
        object_store.reads_never_fail() ==> (r is Ok <==> move_contents_at(
            object_store,
            dynamic_field_id(parent, key_type_tag@, key_bytes@),
        ) is Some),
{
    let id = derive_dynamic_field_id(parent, key_type_tag, key_bytes);
    match object_store.get_object(&id) {
        Ok(Some(object)) => match object.data {
            Data::Move(m) => Ok(m.contents),
            Data::Package(_) => Err(IotaError::DynamicFieldRead),
        },
        Ok(None) => Err(IotaError::DynamicFieldRead),
        Err(e) => Err(IotaError::Storage(e)),
    }
}

} // verus!
