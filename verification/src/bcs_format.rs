//! The BCS layouts that the deny list reads and writes: ULEB128 lengths,
//! byte vectors, vectors of addresses, and the fixed layouts of the deny list
//! objects, with the calls into the `bcs` crate that encode and decode them.
use vstd::prelude::*;
use vstd::bytes::spec_u64_from_le_bytes;

verus! {

/// The largest length of a sequence that BCS encodes.
pub const MAX_SEQUENCE_LENGTH: usize = 2147483647;

/// The canonical ULEB128 encoding of `v`: seven bits per byte, least
/// significant first, the high bit set on all bytes but the last.
pub open spec fn uleb128(v: nat) -> Seq<u8>
    decreases v,
{
    if v < 128 {
        seq![v as u8]
    } else {
        seq![(v % 128 + 128) as u8] + uleb128(v / 128)
    }
}

/// The BCS encoding of a vector of bytes: its length, then its bytes.
pub open spec fn bcs_byte_vector(b: Seq<u8>) -> Seq<u8> {
    uleb128(b.len()) + b
}

/// The bytes of a sequence of 32-byte identifiers, one after the other.
pub open spec fn concat_ids(s: Seq<[u8; 32]>) -> Seq<u8>
    decreases s.len(),
{
    if s.len() == 0 {
        Seq::empty()
    } else {
        concat_ids(s.drop_last()) + s.last()@
    }
}

/// The BCS encoding of a vector of addresses: its length, then the addresses.
pub open spec fn bcs_id_vector(s: Seq<[u8; 32]>) -> Seq<u8> {
    uleb128(s.len()) + concat_ids(s)
}

/// `bytes` is the BCS encoding of a dynamic field whose key is a vector of
/// bytes and whose value is a set of addresses: the field's identifier, the
/// key, and the addresses.
pub open spec fn is_byte_key_id_set_field(
    bytes: Seq<u8>,
    id: [u8; 32],
    key: Seq<u8>,
    ids: Seq<[u8; 32]>,
) -> bool {
    &&& key.len() <= MAX_SEQUENCE_LENGTH
    &&& ids.len() <= MAX_SEQUENCE_LENGTH
    &&& bytes == id@ + (bcs_byte_vector(key) + bcs_id_vector(ids))
}

/// Calls `bcs::to_bytes` on a vector of bytes, which writes its length in
/// ULEB128 and then its bytes; it fails only on a vector longer than
/// `MAX_SEQUENCE_LENGTH`, which the `requires` leaves out.
#[verifier::external_body]
pub(crate) fn bcs_encode_byte_vector(data: &Vec<u8>) -> (r: Option<Vec<u8>>)
    requires
        data@.len() <= MAX_SEQUENCE_LENGTH,
    ensures
        r is Some,
        r matches Some(b) ==> b@ == bcs_byte_vector(data@),
{
    bcs::to_bytes(data).ok()
}

/// Calls `bcs::from_bytes` for two 32-byte arrays and a `u64`: exactly 72
/// bytes decode, the arrays as they stand and the integer little-endian.
#[verifier::external_body]
pub(crate) fn bcs_decode_two_ids_and_u64(bytes: &[u8]) -> (r: Option<([u8; 32], [u8; 32], u64)>)
    ensures
        r is Some <==> bytes@.len() == 72,
        r matches Some(t) ==> {
            &&& t.0@ == bytes@.subrange(0, 32)
            &&& t.1@ == bytes@.subrange(32, 64)
            &&& t.2 == spec_u64_from_le_bytes(bytes@.subrange(64, 72))
        },
{
    bcs::from_bytes::<([u8; 32], [u8; 32], u64)>(bytes).ok()
}

/// Calls `bcs::from_bytes` for a 32-byte array, a `u64`, then a 32-byte array
/// and two pairs of a 32-byte array and a `u64`: exactly 152 bytes decode,
/// each part from its place in order.
#[verifier::external_body]
pub(crate) fn bcs_decode_id_u64_id_two_tables(bytes: &[u8]) -> (r: Option<
    ([u8; 32], u64, ([u8; 32], ([u8; 32], u64), ([u8; 32], u64))),
>)
    ensures
        r is Some <==> bytes@.len() == 152,
        r matches Some(t) ==> {
            &&& t.0@ == bytes@.subrange(0, 32)
            &&& t.1 == spec_u64_from_le_bytes(bytes@.subrange(32, 40))
            &&& (t.2).0@ == bytes@.subrange(40, 72)
            &&& ((t.2).1).0@ == bytes@.subrange(72, 104)
            &&& ((t.2).1).1 == spec_u64_from_le_bytes(bytes@.subrange(104, 112))
            &&& ((t.2).2).0@ == bytes@.subrange(112, 144)
            &&& ((t.2).2).1 == spec_u64_from_le_bytes(bytes@.subrange(144, 152))
        },
{
    bcs::from_bytes::<([u8; 32], u64, ([u8; 32], ([u8; 32], u64), ([u8; 32], u64)))>(bytes).ok()
}

/// Calls `bcs::from_bytes` for a 32-byte array, a vector of bytes and a
/// vector of 32-byte arrays: it succeeds exactly on the canonical encodings
/// of such values (lengths in canonical ULEB128, at most
/// `MAX_SEQUENCE_LENGTH`, nothing left over), and gives the encoded values.
#[verifier::external_body]
pub(crate) fn bcs_decode_byte_key_id_set_field(bytes: &[u8]) -> (r: Option<
    ([u8; 32], Vec<u8>, Vec<[u8; 32]>),
>)
    ensures
        r matches Some(t) ==> is_byte_key_id_set_field(bytes@, t.0, t.1@, t.2@),
        r is None ==> forall|id: [u8; 32], key: Seq<u8>, ids: Seq<[u8; 32]>|
            !is_byte_key_id_set_field(bytes@, id, key, ids),
{
    bcs::from_bytes::<([u8; 32], Vec<u8>, Vec<[u8; 32]>)>(bytes).ok()
}

/// A ULEB128 encoding is never the prefix of another one: equal
/// concatenations that start with encodings start with the same one.
pub proof fn lemma_uleb128_prefix_free(a: nat, b: nat, x: Seq<u8>, y: Seq<u8>)
    requires
        uleb128(a) + x == uleb128(b) + y,
    ensures
        a == b,
        x == y,
    decreases a,
{
    let ea = uleb128(a);
    let eb = uleb128(b);
    assert((ea + x)[0] == ea[0]);
    assert((eb + y)[0] == eb[0]);
    if a < 128 {
        if b >= 128 {
            assert(eb[0] == (b % 128 + 128) as u8);
            assert(false);
        }
        assert(ea[0] == a as u8);
        assert(eb[0] == b as u8);
        assert(x =~= (ea + x).drop_first());
        assert(y =~= (eb + y).drop_first());
    } else {
        if b < 128 {
            assert(eb[0] == b as u8);
            assert(ea[0] == (a % 128 + 128) as u8);
            assert(false);
        }
        assert(ea[0] == (a % 128 + 128) as u8);
        assert(eb[0] == (b % 128 + 128) as u8);
        assert(uleb128(a / 128) + x =~= (ea + x).drop_first());
        assert(uleb128(b / 128) + y =~= (eb + y).drop_first());
        lemma_uleb128_prefix_free(a / 128, b / 128, x, y);
    }
}

/// The identifiers of `concat_ids(s)`, byte by byte.
pub proof fn lemma_concat_ids_index(s: Seq<[u8; 32]>)
    ensures
        concat_ids(s).len() == 32 * s.len(),
        forall|i: int, j: int|
            0 <= i < s.len() && 0 <= j < 32 ==> #[trigger] concat_ids(s)[32 * i + j] == s[i][j],
    decreases s.len(),
{
    if s.len() > 0 {
        let p = s.drop_last();
        lemma_concat_ids_index(p);
        assert forall|i: int, j: int| 0 <= i < s.len() && 0 <= j < 32 implies #[trigger] concat_ids(
            s,
        )[32 * i + j] == s[i][j] by {
            if i < s.len() - 1 {
                assert(p[i] == s[i]);
            } else {
                assert(concat_ids(s)[32 * i + j] == s.last()@[j]);
            }
        }
    }
}

/// Two sequences of identifiers of one length with the same bytes are equal.
pub proof fn lemma_concat_ids_injective(s: Seq<[u8; 32]>, t: Seq<[u8; 32]>)
    requires
        s.len() == t.len(),
        concat_ids(s) == concat_ids(t),
    ensures
        s == t,
{
    lemma_concat_ids_index(s);
    lemma_concat_ids_index(t);
    assert forall|i: int| 0 <= i < s.len() implies s[i] == t[i] by {
        assert forall|j: int| 0 <= j < 32 implies s[i][j] == t[i][j] by {
            assert(concat_ids(s)[32 * i + j] == s[i][j]);
            assert(concat_ids(t)[32 * i + j] == t[i][j]);
        }
        crate::base_types::lemma_arrays_eq(s[i], t[i]);
    }
    assert(s =~= t);
}

/// A dynamic field with a byte key and a set of addresses has one decoding.
pub proof fn lemma_byte_key_id_set_field_unique(
    bytes: Seq<u8>,
    id1: [u8; 32],
    key1: Seq<u8>,
    ids1: Seq<[u8; 32]>,
    id2: [u8; 32],
    key2: Seq<u8>,
    ids2: Seq<[u8; 32]>,
)
    requires
        is_byte_key_id_set_field(bytes, id1, key1, ids1),
        is_byte_key_id_set_field(bytes, id2, key2, ids2),
    ensures
        id1 == id2,
        key1 == key2,
        ids1 == ids2,
{
    let r1 = bcs_byte_vector(key1) + bcs_id_vector(ids1);
    let r2 = bcs_byte_vector(key2) + bcs_id_vector(ids2);
    assert(bytes.subrange(0, 32) =~= id1@);
    assert(bytes.subrange(0, 32) =~= id2@);
    assert forall|j: int| 0 <= j < 32 implies id1[j] == id2[j] by {
        assert(id1@[j] == id2@[j]);
    }
    crate::base_types::lemma_arrays_eq(id1, id2);
    assert(r1 =~= bytes.subrange(32, bytes.len() as int));
    assert(r2 =~= bytes.subrange(32, bytes.len() as int));
    assert(uleb128(key1.len()) + (key1 + bcs_id_vector(ids1)) =~= r1);
    assert(uleb128(key2.len()) + (key2 + bcs_id_vector(ids2)) =~= r2);
    lemma_uleb128_prefix_free(key1.len(), key2.len(), key1 + bcs_id_vector(ids1), key2 + bcs_id_vector(ids2));
    let rest1 = key1 + bcs_id_vector(ids1);
    let rest2 = key2 + bcs_id_vector(ids2);
    assert(key1 =~= rest1.subrange(0, key1.len() as int));
    assert(key2 =~= rest2.subrange(0, key2.len() as int));
    assert(bcs_id_vector(ids1) =~= rest1.subrange(key1.len() as int, rest1.len() as int));
    assert(bcs_id_vector(ids2) =~= rest2.subrange(key2.len() as int, rest2.len() as int));
    lemma_uleb128_prefix_free(ids1.len(), ids2.len(), concat_ids(ids1), concat_ids(ids2));
    lemma_concat_ids_injective(ids1, ids2);
}

} // verus!
