//! The deny list of regulated coins: the shared object `0x403` holds a bag of
//! per-type deny lists; the one at index 0 is for coins. It counts, for each
//! address, the coin types that deny it, and lists, for each coin type (by
//! its name `package::module::struct`), the addresses that it denies.
use vstd::prelude::*;
use vstd::bytes::{spec_u64_from_le_bytes, spec_u64_to_le_bytes, u64_to_le_bytes};
use vstd::utf8::encode_utf8;

use crate::base_types::{
    iota_deny_list_object_id, spec_deny_list_object_id, IotaAddress, ObjectID, SequenceNumber,
};
use crate::bcs_format::{
    bcs_byte_vector, bcs_decode_byte_key_id_set_field, bcs_decode_id_u64_id_two_tables,
    bcs_decode_two_ids_and_u64, bcs_encode_byte_vector, is_byte_key_id_set_field,
    lemma_byte_key_id_set_field_unique, MAX_SEQUENCE_LENGTH,
};
use crate::dynamic_field::{dynamic_field_id, move_contents_at, read_dynamic_field_contents};
use crate::error::{UserInputError, UserInputResult};
use crate::migration::bytes_lt;
use crate::object::{Object, Owner};
use crate::storage::{opt_view, possible_read, ObjectStore, StorageError};
use crate::system_objects::{shared_or_absent, shared_version_of};

verus! {

/// The index, in the bag of per-type deny lists, of the list for coins.
pub const DENY_LIST_COIN_TYPE_INDEX: u64 = 0;

/// A Move table: the object that holds its entries, and their number.
#[derive(Clone, Copy, Debug, PartialEq, Eq)]
pub struct Table {
    pub id: ObjectID,
    pub size: u64,
}

/// A Move bag: the object that holds its entries, and their number.
#[derive(Clone, Copy, Debug, PartialEq, Eq)]
pub struct Bag {
    pub id: ObjectID,
    pub size: u64,
}

/// The deny list root object: a bag of per-type deny lists.
#[derive(Clone, Copy, Debug, PartialEq, Eq)]
pub struct DenyList {
    pub id: ObjectID,
    pub lists: Bag,
}

/// The deny list of one system type. `denied_count` maps an address to the
/// number of coin types that deny it; `denied_addresses` maps a coin type
/// name to the set of addresses that it denies.
#[derive(Clone, Copy, Debug, PartialEq, Eq)]
pub struct PerTypeDenyList {
    pub id: ObjectID,
    pub denied_count: Table,
    pub denied_addresses: Table,
}

/// The capability to change the deny list of a coin type.
#[derive(Clone, Copy, Debug, PartialEq, Eq)]
pub struct CoinDenyCap {
    pub id: ObjectID,
}

/// The metadata of a regulated coin: its coin metadata and deny capability.
#[derive(Clone, Copy, Debug, PartialEq, Eq)]
pub struct RegulatedCoinMetadata {
    pub id: ObjectID,
    pub coin_metadata_object: ObjectID,
    pub deny_cap_object: ObjectID,
}

/// The serialized type tag of `address`.
pub open spec fn address_type_tag() -> Seq<u8> {
    seq![4u8]
}

/// The serialized type tag of `u64`.
pub open spec fn u64_type_tag() -> Seq<u8> {
    seq![2u8]
}

/// The serialized type tag of `vector<u8>`.
pub open spec fn byte_vector_type_tag() -> Seq<u8> {
    seq![6u8, 1u8]
}

/// The contents of the deny list root object, when it is a Move object.
pub open spec fn root_contents<S: ObjectStore>(store: &S) -> Option<Seq<u8>> {
    move_contents_at(store, spec_deny_list_object_id())
}

/// The root object, if stored, is a Move object that decodes as a deny list.
pub open spec fn root_consistent<S: ObjectStore>(store: &S) -> bool {
    store.stored_object(spec_deny_list_object_id()) is Some ==> (root_contents(store) matches Some(
        c,
    ) && c.len() == 72)
}

/// The object identifier with the given bytes.
pub open spec fn id_of(bytes: Seq<u8>) -> ObjectID {
    choose|id: ObjectID| id.0@ == bytes
}

/// The bag of per-type deny lists that the root holds, when it is stored.
pub open spec fn root_bag<S: ObjectStore>(store: &S) -> Option<ObjectID> {
    match root_contents(store) {
        Some(root) => Some(id_of(root.subrange(32, 64))),
        None => None,
    }
}

/// The serialized field under `DENY_LIST_COIN_TYPE_INDEX` in the bag `bag`.
pub open spec fn coin_list_field<S: ObjectStore>(store: &S, bag: ObjectID) -> Option<Seq<u8>> {
    move_contents_at(
        store,
        dynamic_field_id(bag, u64_type_tag(), spec_u64_to_le_bytes(DENY_LIST_COIN_TYPE_INDEX)),
    )
}

/// The per-type deny list that a serialized field of 152 bytes holds.
pub open spec fn per_type_deny_list_of(c: Seq<u8>) -> PerTypeDenyList {
    PerTypeDenyList {
        id: id_of(c.subrange(40, 72)),
        denied_count: Table {
            id: id_of(c.subrange(72, 104)),
            size: spec_u64_from_le_bytes(c.subrange(104, 112)),
        },
        denied_addresses: Table {
            id: id_of(c.subrange(112, 144)),
            size: spec_u64_from_le_bytes(c.subrange(144, 152)),
        },
    }
}

/// The deny list of coins, when the root and its field at the coin index are
/// stored and the field decodes.
pub open spec fn coin_deny_list<S: ObjectStore>(store: &S) -> Option<PerTypeDenyList> {
    match root_bag(store) {
        Some(bag) => match coin_list_field(store, bag) {
            Some(c) => if c.len() == 152 {
                Some(per_type_deny_list_of(c))
            } else {
                None
            },
            None => None,
        },
        None => None,
    }
}

/// The number of coin types that deny `address`, by the table `table`.
pub open spec fn denied_count<S: ObjectStore>(
    store: &S,
    table: ObjectID,
    address: IotaAddress,
) -> Option<u64> {
    match move_contents_at(store, dynamic_field_id(table, address_type_tag(), address.0@)) {
        Some(c) => if c.len() == 72 {
            Some(spec_u64_from_le_bytes(c.subrange(64, 72)))
        } else {
            None
        },
        None => None,
    }
}

/// `address` is in the set that the table `table` holds for the coin type
/// with the given name.
pub open spec fn denied_for_coin<S: ObjectStore>(
    store: &S,
    table: ObjectID,
    address: IotaAddress,
    coin_type: Seq<char>,
) -> bool {
    match move_contents_at(
        store,
        dynamic_field_id(table, byte_vector_type_tag(), bcs_byte_vector(encode_utf8(coin_type))),
    ) {
        Some(c) => field_holds_address(c, address),
        None => false,
    }
}

/// The serialized set `c` of a coin type holds `address`.
pub open spec fn field_holds_address(c: Seq<u8>, address: IotaAddress) -> bool {
    exists|id: [u8; 32], key: Seq<u8>, ids: Seq<[u8; 32]>|
        #[trigger] is_byte_key_id_set_field(c, id, key, ids) && ids.contains(address.0)
}

/// The address is counted as denied for some coin type.
pub open spec fn count_nonzero<S: ObjectStore>(
    store: &S,
    list: PerTypeDenyList,
    address: IotaAddress,
) -> bool {
    denied_count(store, list.denied_count.id, address) matches Some(n) && n != 0
}

/// The coin type at index `k` denies the address.
pub open spec fn denies_at<S: ObjectStore>(
    store: &S,
    list: PerTypeDenyList,
    address: IotaAddress,
    coin_types: Seq<String>,
    k: int,
) -> bool {
    denied_for_coin(store, list.denied_addresses.id, address, coin_types[k]@)
}

/// The coin types are as a set of names holds them: each name once, in
/// increasing byte order.
pub open spec fn coin_types_ordered(coin_types: Seq<String>) -> bool {
    forall|i: int, j: int|
        0 <= i < j < coin_types.len() ==> bytes_lt(
            encode_utf8(#[trigger] coin_types[i]@),
            encode_utf8(#[trigger] coin_types[j]@),
        )
}

/// The names of the coin types fit in a BCS vector.
pub open spec fn coin_type_names_fit(coin_types: Seq<String>) -> bool {
    forall|k: int|
        0 <= k < coin_types.len() ==> encode_utf8(#[trigger] coin_types[k]@).len()
            <= MAX_SEQUENCE_LENGTH
}

/// The address is denied by the list for one of the coin types.
pub open spec fn denied_by_list<S: ObjectStore>(
    store: &S,
    list: PerTypeDenyList,
    address: IotaAddress,
    coin_types: Seq<String>,
) -> bool {
    &&& count_nonzero(store, list, address)
    &&& exists|k: int| 0 <= k < coin_types.len() && #[trigger] denies_at(store, list, address, coin_types, k)
}

/// The address is denied by the coin deny list for one of the coin types.
pub open spec fn denied_by_coin_deny_list<S: ObjectStore>(
    store: &S,
    address: IotaAddress,
    coin_types: Seq<String>,
) -> bool {
    match coin_deny_list(store) {
        Some(l) => denied_by_list(store, l, address, coin_types),
        None => false,
    }
}

/// The coin type at index `k` denies the address, which is counted as
/// denied; when reads never fail, no coin type before it denies the address.
pub open spec fn first_denial<S: ObjectStore>(
    store: &S,
    list: PerTypeDenyList,
    address: IotaAddress,
    coin_types: Seq<String>,
    k: int,
) -> bool {
    &&& 0 <= k < coin_types.len()
    &&& count_nonzero(store, list, address)
    &&& denies_at(store, list, address, coin_types, k)
    &&& store.reads_never_fail() ==> forall|j: int|
        0 <= j < k ==> !#[trigger] denies_at(store, list, address, coin_types, j)
}

/// What the reads of one check of `address` may give. `count` is the denied
/// count as read (`None` when its read or its decoding failed) and `holds[k]`
/// whether the set of the coin type at index `k` was read and holds the
/// address (`false` when it could not be read). Each agrees with the store,
/// and exactly so when reads never fail.
pub open spec fn possible_deny_reads<S: ObjectStore>(
    store: &S,
    list: PerTypeDenyList,
    address: IotaAddress,
    coin_types: Seq<String>,
    count: Option<u64>,
    holds: Seq<bool>,
) -> bool {
    &&& holds.len() == coin_types.len()
    &&& count matches Some(n) ==> denied_count(store, list.denied_count.id, address) == Some(n)
    &&& store.reads_never_fail() ==> count == denied_count(store, list.denied_count.id, address)
    &&& forall|k: int|
        0 <= k < holds.len() && #[trigger] holds[k] ==> denies_at(store, list, address, coin_types, k)
    &&& store.reads_never_fail() ==> forall|k: int|
        0 <= k < holds.len() ==> #[trigger] holds[k] == denies_at(store, list, address, coin_types, k)
}

/// The first index from `i` on whose entry is set.
pub open spec fn first_set_from(holds: Seq<bool>, i: int) -> Option<int>
    decreases holds.len() - i,
{
    if i < 0 || i >= holds.len() {
        None
    } else if holds[i] {
        Some(i)
    } else {
        first_set_from(holds, i + 1)
    }
}

/// The coin type that denies the address, given what the reads gave: none
/// when the count is missing or zero, else the first whose set was read and
/// holds the address.
pub open spec fn denying_index(count: Option<u64>, holds: Seq<bool>) -> Option<int> {
    if count matches Some(n) && n != 0 {
        first_set_from(holds, 0)
    } else {
        None
    }
}

/// The result of a check is the one that the denying index `k` calls for.
pub open spec fn check_result_for(
    r: UserInputResult,
    address: IotaAddress,
    coin_types: Seq<String>,
    k: Option<int>,
) -> bool {
    match k {
        None => r is Ok,
        Some(k) => r matches Err(UserInputError::AddressDeniedForCoin { address: a, coin_type })
            && a == address && coin_type@ == coin_types[k]@,
    }
}

/// Entries that are all unset before `i` do not move the first set entry.
proof fn lemma_first_set_skip(holds: Seq<bool>, i: int)
    requires
        0 <= i <= holds.len(),
        forall|j: int| 0 <= j < i ==> !#[trigger] holds[j],
    ensures
        first_set_from(holds, 0) == first_set_from(holds, i),
    decreases i,
{
    if i > 0 {
        lemma_first_set_skip(holds, i - 1);
        assert(!holds[i - 1]);
    }
}

/// The deny list root object as a read gives it: `None` when the read failed.
pub open spec fn spec_root_from_read(read: Result<Option<Object>, StorageError>) -> Option<Object> {
    match read {
        Ok(o) => o,
        Err(_) => None,
    }
}

/// The version at which the deny list became shared, as a read gives it:
/// `None` when the read failed or found no object.
pub open spec fn spec_deny_list_version_from_read(
    read: Result<Option<Object>, StorageError>,
) -> Option<SequenceNumber> {
    match read {
        Ok(o) => shared_version_of(opt_view(o)),
        Err(_) => None,
    }
}

/// Maps the result of reading the deny list root: a failed read gives no
/// object (the failure is not passed on).
pub fn root_object_from_read(read: Result<Option<Object>, StorageError>) -> (r: Option<Object>)
    ensures
        r == spec_root_from_read(read),
{
    match read {
        Ok(Some(obj)) => Some(obj),
        Ok(None) => None,
        Err(_) => None,
    }
}

/// Reads the deny list root object; `None` when it is missing or cannot be
/// read.
pub fn get_deny_list_root_object<S: ObjectStore>(object_store: &S) -> (r: Option<Object>)
    ensures
        exists|read: Result<Option<Object>, StorageError>|
            #[trigger] possible_read(object_store, spec_deny_list_object_id(), read) && r
                == spec_root_from_read(read),
        r matches Some(o) ==> object_store.stored_object(spec_deny_list_object_id()) == Some(
            o.view(),
        ),
        object_store.stored_object(spec_deny_list_object_id()) is None ==> r is None,
        object_store.reads_never_fail() ==> (r is Some <==> object_store.stored_object(
            spec_deny_list_object_id(),
        ) is Some),
{
    let id = iota_deny_list_object_id();
    let read = object_store.get_object(&id);
    proof {
        assert(possible_read(object_store, spec_deny_list_object_id(), read));
    }
    root_object_from_read(read)
}

/// The version at which the deny list object became shared; `None` when it
/// is missing or cannot be read.
pub fn get_deny_list_obj_initial_shared_version<S: ObjectStore>(object_store: &S) -> (r: Option<
    SequenceNumber,
>)
    requires
        shared_or_absent(object_store.stored_object(spec_deny_list_object_id())),
    ensures
        exists|read: Result<Option<Object>, StorageError>|
            #[trigger] possible_read(object_store, spec_deny_list_object_id(), read) && r
                == spec_deny_list_version_from_read(read),
        r matches Some(v) ==> shared_version_of(
            object_store.stored_object(spec_deny_list_object_id()),
        ) == Some(v),
        object_store.stored_object(spec_deny_list_object_id()) is None ==> r is None,
        object_store.reads_never_fail() ==> r == shared_version_of(
            object_store.stored_object(spec_deny_list_object_id()),
        ),
{
    let root = get_deny_list_root_object(object_store);
    let ghost read = choose|read: Result<Option<Object>, StorageError>|
        #[trigger] possible_read(object_store, spec_deny_list_object_id(), read) && root
            == spec_root_from_read(read);
    let r = match root {
        Some(obj) => match obj.owner {
            Owner::Shared { initial_shared_version } => Some(initial_shared_version),
            _ => {
                proof {
                    assert(false);
                }
                None
            },
        },
        None => None,
    };
    proof {
        assert(possible_read(object_store, spec_deny_list_object_id(), read));
        assert(r == spec_deny_list_version_from_read(read));
    }
    r
}

/// Reads the deny list of coins: the per-type list at index 0 of the root's
/// bag. `None` when the root or that field is missing or cannot be read, or
/// the field does not decode.
pub fn get_coin_deny_list<S: ObjectStore>(object_store: &S) -> (r: Option<PerTypeDenyList>)
    requires
        root_consistent(object_store),
    ensures
        r matches Some(l) ==> coin_deny_list(object_store) == Some(l),
        object_store.reads_never_fail() ==> r == coin_deny_list(object_store),
{
    let obj = match get_deny_list_root_object(object_store) {
        Some(obj) => obj,
        None => {
            return None;
        },
    };
    let contents = match obj.data {
        crate::object::Data::Move(m) => m.contents,
        crate::object::Data::Package(_) => {
            proof {
                assert(false);
            }
            return None;
        },
    };
    let root = match bcs_decode_two_ids_and_u64(contents.as_slice()) {
        Some(t) => t,
        None => {
            proof {
                assert(false);
            }
            return None;
        },
    };
    let bag = ObjectID(root.1);
    proof {
        lemma_id_of(bag);
        assert(contents@.subrange(32, 64) == bag.0@);
        assert(root_bag(object_store) == Some(bag));
    }
    let key = u64_to_le_bytes(DENY_LIST_COIN_TYPE_INDEX);
    let mut tag: Vec<u8> = Vec::new();
    tag.push(2u8);
    assert(tag@ =~= u64_type_tag());
    let field = match read_dynamic_field_contents(object_store, bag, tag.as_slice(), key.as_slice()) {
        Ok(c) => c,
        Err(_) => {
            return None;
        },
    };
    match bcs_decode_id_u64_id_two_tables(field.as_slice()) {
        Some(t) => {
            let l = PerTypeDenyList {
                id: ObjectID((t.2).0),
                denied_count: Table { id: ObjectID(((t.2).1).0), size: ((t.2).1).1 },
                denied_addresses: Table { id: ObjectID(((t.2).2).0), size: ((t.2).2).1 },
            };
            proof {
                lemma_id_of(l.id);
                lemma_id_of(l.denied_count.id);
                lemma_id_of(l.denied_addresses.id);
                assert(l == per_type_deny_list_of(field@));
            }
            Some(l)
        },
        None => {
            None
        },
    }
}

/// The identifier with the bytes of `id` is `id`.
pub proof fn lemma_id_of(id: ObjectID)
    ensures
        id_of(id.0@) == id,
{
    let c = id_of(id.0@);
    assert(id.0@ == id.0@);
    assert forall|j: int| 0 <= j < 32 implies c.0[j] == id.0[j] by {
        assert(c.0@[j] == id.0@[j]);
    }
    crate::base_types::lemma_arrays_eq(c.0, id.0);
}

impl DenyList {
    /// Checks that `address` is not denied for any of `coin_types`, in the
    /// order given. A missing deny list, or one that cannot be read, denies
    /// nothing.
    pub fn check_coin_deny_list<S: ObjectStore>(
        address: IotaAddress,
        coin_types: &Vec<String>,
        object_store: &S,
    ) -> (r: UserInputResult)
        requires
            root_consistent(object_store),
            coin_type_names_fit(coin_types@),
            coin_types_ordered(coin_types@),
        ensures
            r matches Err(UserInputError::AddressDeniedForCoin { address: a, coin_type }) ==> {
                &&& a == address
                &&& coin_deny_list(object_store) matches Some(l)
                &&& exists|k: int|
                    #[trigger] first_denial(object_store, l, address, coin_types@, k)
                        && coin_types@[k]@ == coin_type@
            },
            r is Err ==> r matches Err(UserInputError::AddressDeniedForCoin { .. }),
            r is Err ==> (coin_deny_list(object_store) matches Some(l) && exists|
                count: Option<u64>,
                holds: Seq<bool>,
            |
                #[trigger] possible_deny_reads(object_store, l, address, coin_types@, count, holds)
                    && check_result_for(r, address, coin_types@, denying_index(count, holds))),
            (coin_deny_list(object_store) matches Some(l) ==> !count_nonzero(
                object_store,
                l,
                address,
            )) ==> r is Ok,
            object_store.reads_never_fail() ==> (r is Ok <==> !denied_by_coin_deny_list(
                object_store,
                address,
                coin_types@,
            )),
    {
        let deny_list = match get_coin_deny_list(object_store) {
            Some(l) => l,
            None => {
                return Ok(());
            },
        };
        Self::check_deny_list(deny_list, address, coin_types, object_store)
    }

    /// Checks `address` against the deny list of each coin type in turn: the
    /// first that denies it is the error. An address whose denied count is
    /// zero, or cannot be read, is denied by none; a coin type whose set
    /// cannot be read denies nothing.
    pub fn check_deny_list<S: ObjectStore>(
        deny_list: PerTypeDenyList,
        address: IotaAddress,
        coin_types: &Vec<String>,
        object_store: &S,
    ) -> (r: UserInputResult)
        requires
            coin_type_names_fit(coin_types@),
            coin_types_ordered(coin_types@),
        ensures
            r matches Err(UserInputError::AddressDeniedForCoin { address: a, coin_type }) ==> {
                &&& a == address
                &&& exists|k: int|
                    #[trigger] first_denial(object_store, deny_list, address, coin_types@, k)
                        && coin_types@[k]@ == coin_type@
            },
            r is Err ==> r matches Err(UserInputError::AddressDeniedForCoin { .. }),
            !count_nonzero(object_store, deny_list, address) ==> r is Ok,
            exists|count: Option<u64>, holds: Seq<bool>|
                #[trigger] possible_deny_reads(object_store, deny_list, address, coin_types@, count, holds)
                    && check_result_for(r, address, coin_types@, denying_index(count, holds)),
            object_store.reads_never_fail() ==> (r is Ok <==> !denied_by_list(
                object_store,
                deny_list,
                address,
                coin_types@,
            )),
    {
        let mut address_tag: Vec<u8> = Vec::new();
        address_tag.push(4u8);
        assert(address_tag@ =~= address_type_tag());
        let count_field = match read_dynamic_field_contents(
            object_store,
            deny_list.denied_count.id,
            address_tag.as_slice(),
            &address.0,
        ) {
            Ok(c) => c,
            Err(_) => {
                proof {
                    self::lemma_unread_count_witness(object_store, deny_list, address, coin_types@);
                }
                return Ok(());
            },
        };
        let count = match bcs_decode_two_ids_and_u64(count_field.as_slice()) {
            Some(t) => t.2,
            None => {
                proof {
                    self::lemma_unread_count_witness(object_store, deny_list, address, coin_types@);
                }
                return Ok(());
            },
        };
        proof {
            assert(denied_count(object_store, deny_list.denied_count.id, address) == Some(count));
        }
        if count == 0 {
            proof {
                let holds = Seq::new(
                    coin_types@.len(),
                    |j: int| denies_at(object_store, deny_list, address, coin_types@, j),
                );
                assert(possible_deny_reads(object_store, deny_list, address, coin_types@, Some(0u64), holds));
                assert(check_result_for(Ok(()), address, coin_types@, denying_index(Some(0u64), holds)));
            }
            return Ok(());
        }
        let mut vector_tag: Vec<u8> = Vec::new();
        vector_tag.push(6u8);
        vector_tag.push(1u8);
        assert(vector_tag@ =~= byte_vector_type_tag());
        let mut i: usize = 0;
        while i < coin_types.len()
            invariant
                i <= coin_types@.len(),
                coin_type_names_fit(coin_types@),
                vector_tag@ == byte_vector_type_tag(),
                count_nonzero(object_store, deny_list, address),
                denied_count(object_store, deny_list.denied_count.id, address) == Some(count),
                count != 0,
                object_store.reads_never_fail() ==> forall|j: int|
                    0 <= j < i ==> !#[trigger] denies_at(
                        object_store,
                        deny_list,
                        address,
                        coin_types@,
                        j,
                    ),
            decreases coin_types@.len() - i,
        {
            let name_bytes = string_bytes(&coin_types[i]);
            let key = match bcs_encode_byte_vector(&name_bytes) {
                Some(k) => k,
                None => {
                    proof {
                        assert(false);
                    }
                    return Ok(());
                },
            };
            match read_dynamic_field_contents(
                object_store,
                deny_list.denied_addresses.id,
                vector_tag.as_slice(),
                key.as_slice(),
            ) {
                Ok(field) => {
                    match bcs_decode_byte_key_id_set_field(field.as_slice()) {
                        Some(t) => {
                            let found = contains_id(&t.2, &address.0);
                            if found {
                                proof {
                                    lemma_denied_for_coin_intro(
                                        object_store,
                                        deny_list.denied_addresses.id,
                                        address,
                                        coin_types@[i as int]@,
                                        field@,
                                        t.0,
                                        t.1@,
                                        t.2@,
                                    );
                                }
                                assert(first_denial(
                                    object_store,
                                    deny_list,
                                    address,
                                    coin_types@,
                                    i as int,
                                ));
                                proof {
                                    self::lemma_denial_witness(
                                        object_store,
                                        deny_list,
                                        address,
                                        coin_types@,
                                        count,
                                        i as int,
                                    );
                                }
                                return Err(
                                    UserInputError::AddressDeniedForCoin {
                                        address,
                                        coin_type: coin_types[i].clone(),
                                    },
                                );
                            }
                            proof {
                                assert forall|id: [u8; 32], k: Seq<u8>, ids: Seq<[u8; 32]>|
                                    #[trigger] is_byte_key_id_set_field(field@, id, k, ids)
                                        implies !ids.contains(address.0) by {
                                    lemma_byte_key_id_set_field_unique(
                                        field@,
                                        t.0,
                                        t.1@,
                                        t.2@,
                                        id,
                                        k,
                                        ids,
                                    );
                                }
                            }
                        },
                        None => {},
                    }
                },
                Err(_) => {},
            }
            i = i + 1;
        }
        proof {
            let holds = Seq::new(coin_types@.len(), |j: int| false);
            lemma_first_set_skip(holds, coin_types@.len() as int);
            assert(possible_deny_reads(object_store, deny_list, address, coin_types@, Some(count), holds));
            assert(check_result_for(Ok(()), address, coin_types@, denying_index(Some(count), holds)));
        }
        Ok(())
    }
}

/// A check that could not read the denied count answers as reads that gave
/// no count would.
proof fn lemma_unread_count_witness<S: ObjectStore>(
    store: &S,
    list: PerTypeDenyList,
    address: IotaAddress,
    coin_types: Seq<String>,
)
    requires
        store.reads_never_fail() ==> denied_count(store, list.denied_count.id, address) is None,
    ensures
        exists|count: Option<u64>, holds: Seq<bool>|
            #[trigger] possible_deny_reads(store, list, address, coin_types, count, holds)
                && check_result_for(Ok(()), address, coin_types, denying_index(count, holds)),
{
    let holds = Seq::new(coin_types.len(), |j: int| denies_at(store, list, address, coin_types, j));
    assert(possible_deny_reads(store, list, address, coin_types, None, holds));
    assert(check_result_for(Ok(()), address, coin_types, denying_index(None, holds)));
}

/// A check whose count is `count` and that found the address in the set of
/// the coin type at `i`, having found it in none before, answers as reads
/// that held it first at `i` would.
proof fn lemma_denial_witness<S: ObjectStore>(
    store: &S,
    list: PerTypeDenyList,
    address: IotaAddress,
    coin_types: Seq<String>,
    count: u64,
    i: int,
)
    requires
        0 <= i < coin_types.len(),
        count != 0,
        denied_count(store, list.denied_count.id, address) == Some(count),
        denies_at(store, list, address, coin_types, i),
        store.reads_never_fail() ==> forall|j: int|
            0 <= j < i ==> !#[trigger] denies_at(store, list, address, coin_types, j),
    ensures
        exists|c: Option<u64>, holds: Seq<bool>|
            #[trigger] possible_deny_reads(store, list, address, coin_types, c, holds)
                && denying_index(c, holds) == Some(i),
{
    let holds = Seq::new(
        coin_types.len(),
        |j: int|
            if j < i {
                false
            } else if j == i {
                true
            } else {
                denies_at(store, list, address, coin_types, j)
            },
    );
    assert forall|j: int| 0 <= j < i implies !#[trigger] holds[j] by {}
    lemma_first_set_skip(holds, i);
    assert(first_set_from(holds, i) == Some(i));
    assert(possible_deny_reads(store, list, address, coin_types, Some(count), holds));
    assert(denying_index(Some(count), holds) == Some(i));
}

/// A coin type denies an address whose set it holds.
proof fn lemma_denied_for_coin_intro<S: ObjectStore>(
    store: &S,
    table: ObjectID,
    address: IotaAddress,
    coin_type: Seq<char>,
    c: Seq<u8>,
    id: [u8; 32],
    key: Seq<u8>,
    ids: Seq<[u8; 32]>,
)
    requires
        move_contents_at(
            store,
            dynamic_field_id(table, byte_vector_type_tag(), bcs_byte_vector(encode_utf8(coin_type))),
        ) == Some(c),
        is_byte_key_id_set_field(c, id, key, ids),
        ids.contains(address.0),
    ensures
        denied_for_coin(store, table, address, coin_type),
{
    assert(field_holds_address(c, address));
}

/// The UTF-8 bytes of a string.
fn string_bytes(s: &String) -> (r: Vec<u8>)
    ensures
        r@ == encode_utf8(s@),
{
    let bytes = s.as_str().as_bytes();
    let mut out: Vec<u8> = Vec::new();
    let mut i: usize = 0;
    while i < bytes.len()
        invariant
            i <= bytes@.len(),
            out@ == bytes@.take(i as int),
        decreases bytes@.len() - i,
    {
        out.push(bytes[i]);
        i = i + 1;
        assert(out@ =~= bytes@.take(i as int));
    }
    assert(bytes@.take(bytes@.len() as int) =~= bytes@);
    out
}

/// Whether the identifier occurs in the list.
fn contains_id(ids: &Vec<[u8; 32]>, id: &[u8; 32]) -> (r: bool)
    ensures
        r == ids@.contains(*id),
{
    let mut i: usize = 0;
    while i < ids.len()
        invariant
            i <= ids@.len(),
            forall|j: int| 0 <= j < i ==> ids@[j] != *id,
        decreases ids@.len() - i,
    {
        if crate::base_types::bytes32_eq(&ids[i], id) {
            assert(ids@[i as int] == *id);
            return true;
        }
        i = i + 1;
    }
    false
}

} // verus!
