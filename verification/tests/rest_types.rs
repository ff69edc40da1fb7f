use iota_logic::base_types::{IotaAddress, ObjectDigest, ObjectID, SequenceNumber, TransactionDigest};
use iota_logic::move_types::{StructTag, TypeTag};
use iota_logic::object::{Data, MoveObject, MovePackage, Object, Owner, TypeOrigin, UpgradeInfo};
use iota_logic::rest_types::{JsonObject, JsonObjectData, ObjectType, X_IOTA_CHAIN_ID};

fn coin_tag() -> StructTag {
    StructTag {
        address: IotaAddress([2; 32]),
        module: "coin".to_string(),
        name: "Coin".to_string(),
        type_params: vec![TypeTag::U64],
    }
}

#[test]
fn move_object_keeps_its_contents_and_type() {
    let mut contents = vec![0x5au8; 32];
    contents.extend_from_slice(&[1, 2, 3]);
    let object = Object {
        data: Data::Move(MoveObject {
            type_: coin_tag(),
            has_public_transfer: true,
            version: SequenceNumber(12),
            contents: contents.clone(),
        }),
        owner: Owner::AddressOwner(IotaAddress([7; 32])),
        previous_transaction: TransactionDigest([8; 32]),
        storage_rebate: 988,
    };
    let json = JsonObject::from_object(&object, ObjectDigest([3; 32]));
    assert_eq!(json.object_id, ObjectID([0x5a; 32]));
    assert_eq!(json.version, 12);
    assert_eq!(json.digest, ObjectDigest([3; 32]));
    assert_eq!(json.owner, Owner::AddressOwner(IotaAddress([7; 32])));
    assert_eq!(json.previous_transaction, TransactionDigest([8; 32]));
    assert_eq!(json.storage_rebate, 988);
    assert_eq!(json.type_, ObjectType::Struct(coin_tag()));
    match json.data {
        JsonObjectData::Move(m) => {
            assert!(m.has_public_transfer);
            assert_eq!(m.content, contents);
        }
        JsonObjectData::Package(_) => panic!("a Move object became a package"),
    }
}

#[test]
fn package_keeps_its_tables() {
    let package = MovePackage {
        id: ObjectID([4; 32]),
        version: SequenceNumber(2),
        module_map: vec![("m".to_string(), vec![0xa1, 0x1c])],
        type_origin_table: vec![TypeOrigin {
            module_name: "m".to_string(),
            datatype_name: "S".to_string(),
            package: ObjectID([4; 32]),
        }],
        linkage_table: vec![(
            ObjectID([1; 32]),
            UpgradeInfo { upgraded_id: ObjectID([6; 32]), upgraded_version: SequenceNumber(3) },
        )],
    };
    let object = Object {
        data: Data::Package(package),
        owner: Owner::Immutable,
        previous_transaction: TransactionDigest([0; 32]),
        storage_rebate: 0,
    };
    let json = JsonObject::from_object(&object, ObjectDigest([1; 32]));
    assert_eq!(json.object_id, ObjectID([4; 32]));
    assert_eq!(json.version, 2);
    assert_eq!(json.type_, ObjectType::Package);
    match json.data {
        JsonObjectData::Package(p) => {
            assert_eq!(p.module_map, vec![("m".to_string(), vec![0xa1, 0x1c])]);
            assert_eq!(p.type_origin_table.len(), 1);
            assert_eq!(p.type_origin_table[0].datatype_name, "S");
            assert_eq!(p.linkage_table[0].1.upgraded_version, SequenceNumber(3));
        }
        JsonObjectData::Move(_) => panic!("a package became a Move object"),
    }
    assert_eq!(X_IOTA_CHAIN_ID, "x-iota-chain-id");
}
