use fastcrypto::hash::{Blake2b256, HashFunction};
use iota_logic::base_types::{
    iota_deny_list_object_id, IotaAddress, ObjectID, SequenceNumber, TransactionDigest,
};
use iota_logic::deny_list::{
    get_coin_deny_list, get_deny_list_obj_initial_shared_version, get_deny_list_root_object,
    DenyList,
};
use iota_logic::dynamic_field::derive_dynamic_field_id;
use iota_logic::error::UserInputError;
use iota_logic::move_types::StructTag;
use iota_logic::object::{Data, MoveObject, Object, Owner};
use iota_logic::storage::InMemoryObjectStore;

fn tag(name: &str) -> StructTag {
    StructTag {
        address: IotaAddress([0; 32]),
        module: "deny_list".to_string(),
        name: name.to_string(),
        type_params: vec![],
    }
}

fn move_object(contents: Vec<u8>, owner: Owner) -> Object {
    Object {
        data: Data::Move(MoveObject {
            type_: tag("Field"),
            has_public_transfer: false,
            version: SequenceNumber(3),
            contents,
        }),
        owner,
        previous_transaction: TransactionDigest([9; 32]),
        storage_rebate: 0,
    }
}

const BAG: [u8; 32] = [0xb1; 32];
const LIST: [u8; 32] = [0xc1; 32];
const COUNTS: [u8; 32] = [0xc2; 32];
const SETS: [u8; 32] = [0xc3; 32];
const COIN: &str = "0x0000000000000000000000000000000000000000000000000000000000000abc::regulated::REG";

fn denied() -> IotaAddress {
    IotaAddress([0x11; 32])
}

fn uncounted() -> IotaAddress {
    IotaAddress([0x22; 32])
}

fn counted_elsewhere() -> IotaAddress {
    IotaAddress([0x33; 32])
}

/// A store holding the deny list root, its coin list at index 0, the denied
/// counts of three addresses and the set of the regulated coin.
fn store_with_deny_list() -> InMemoryObjectStore {
    let deny_list_id = iota_deny_list_object_id();
    let root = bcs::to_bytes(&(deny_list_id.0, (BAG, 1u64))).unwrap();
    let coin_list_key = 0u64.to_le_bytes();
    let coin_list_id = derive_dynamic_field_id(ObjectID(BAG), &[2], &coin_list_key);
    let coin_list = bcs::to_bytes(&(
        coin_list_id.0,
        0u64,
        (LIST, (COUNTS, 2u64), (SETS, 1u64)),
    ))
    .unwrap();
    let mut objects = vec![
        (
            deny_list_id,
            move_object(root, Owner::Shared {
                initial_shared_version: SequenceNumber(7),
            }),
        ),
        (
            coin_list_id,
            move_object(coin_list, Owner::ObjectOwner(IotaAddress(BAG))),
        ),
    ];
    for (address, count) in [(denied(), 1u64), (uncounted(), 0u64), (counted_elsewhere(), 1u64)] {
        let id = derive_dynamic_field_id(ObjectID(COUNTS), &[4], &address.0);
        let field = bcs::to_bytes(&(id.0, address.0, count)).unwrap();
        objects.push((id, move_object(field, Owner::ObjectOwner(IotaAddress(COUNTS)))));
    }
    let key = bcs::to_bytes(&COIN.as_bytes().to_vec()).unwrap();
    let set_id = derive_dynamic_field_id(ObjectID(SETS), &[6, 1], &key);
    let set = bcs::to_bytes(&(
        set_id.0,
        COIN.as_bytes().to_vec(),
        vec![[0x44u8; 32], denied().0, uncounted().0],
    ))
    .unwrap();
    objects.push((set_id, move_object(set, Owner::ObjectOwner(IotaAddress(SETS)))));
    InMemoryObjectStore::new(objects)
}

#[test]
fn dynamic_field_id_hashes_scope_parent_length_key_and_tag() {
    let parent = ObjectID([5; 32]);
    let key = [1u8, 2, 3];
    let tag = [6u8, 1];
    let mut preimage = vec![0xf0u8];
    preimage.extend_from_slice(&parent.0);
    preimage.extend_from_slice(&(key.len() as u64).to_le_bytes());
    preimage.extend_from_slice(&key);
    preimage.extend_from_slice(&tag);
    let expected = Blake2b256::digest(&preimage).digest;
    let id = derive_dynamic_field_id(parent, &tag, &key);
    assert_eq!(id.0, expected);
    assert_ne!(id, parent);
    assert_ne!(id, derive_dynamic_field_id(parent, &[2], &key));
}

#[test]
fn coin_deny_list_is_read_from_index_zero_of_the_bag() {
    let store = store_with_deny_list();
    let list = get_coin_deny_list(&store).unwrap();
    assert_eq!(list.id, ObjectID(LIST));
    assert_eq!(list.denied_count.id, ObjectID(COUNTS));
    assert_eq!(list.denied_count.size, 2);
    assert_eq!(list.denied_addresses.id, ObjectID(SETS));
    assert_eq!(list.denied_addresses.size, 1);
}

#[test]
fn deny_list_root_and_its_shared_version() {
    let store = store_with_deny_list();
    let root = get_deny_list_root_object(&store).unwrap();
    assert_eq!(root.owner, Owner::Shared { initial_shared_version: SequenceNumber(7) });
    assert_eq!(
        get_deny_list_obj_initial_shared_version(&store),
        Some(SequenceNumber(7))
    );
    let empty = InMemoryObjectStore::new(vec![]);
    assert!(get_deny_list_root_object(&empty).is_none());
    assert_eq!(get_deny_list_obj_initial_shared_version(&empty), None);
    assert!(get_coin_deny_list(&empty).is_none());
}

#[test]
fn denied_address_is_refused_for_the_coin() {
    let store = store_with_deny_list();
    let coin_types = vec![COIN.to_string(), "0x2::iota::IOTA".to_string()];
    let r = DenyList::check_coin_deny_list(denied(), &coin_types, &store);
    assert_eq!(
        r,
        Err(UserInputError::AddressDeniedForCoin {
            address: denied(),
            coin_type: COIN.to_string(),
        })
    );
}

#[test]
fn address_with_zero_count_is_not_checked_further() {
    let store = store_with_deny_list();
    let coin_types = vec![COIN.to_string()];
    assert_eq!(
        DenyList::check_coin_deny_list(uncounted(), &coin_types, &store),
        Ok(())
    );
}

#[test]
fn counted_address_outside_the_set_passes() {
    let store = store_with_deny_list();
    let coin_types = vec![COIN.to_string()];
    assert_eq!(
        DenyList::check_coin_deny_list(counted_elsewhere(), &coin_types, &store),
        Ok(())
    );
}

#[test]
fn unlisted_address_and_unregulated_coin_pass() {
    let store = store_with_deny_list();
    let coin_types = vec![COIN.to_string()];
    assert_eq!(
        DenyList::check_coin_deny_list(IotaAddress([0x99; 32]), &coin_types, &store),
        Ok(())
    );
    let other = vec!["0x2::iota::IOTA".to_string()];
    assert_eq!(
        DenyList::check_coin_deny_list(denied(), &other, &store),
        Ok(())
    );
}

#[test]
fn missing_deny_list_denies_nothing() {
    let empty = InMemoryObjectStore::new(vec![]);
    let coin_types = vec![COIN.to_string()];
    assert_eq!(
        DenyList::check_coin_deny_list(denied(), &coin_types, &empty),
        Ok(())
    );
}
