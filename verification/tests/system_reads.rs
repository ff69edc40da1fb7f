use iota_logic::base_types::{IotaAddress, SequenceNumber, TransactionDigest};
use iota_logic::deny_list::root_object_from_read;
use iota_logic::error::IotaError;
use iota_logic::move_types::StructTag;
use iota_logic::object::{Data, MoveObject, Object, Owner};
use iota_logic::storage::StorageError;
use iota_logic::system_objects::shared_version_from_read;

fn shared_object(since: u64) -> Object {
    Object {
        data: Data::Move(MoveObject {
            type_: StructTag {
                address: IotaAddress([0; 32]),
                module: "random".to_string(),
                name: "Random".to_string(),
                type_params: vec![],
            },
            has_public_transfer: false,
            version: SequenceNumber(since + 2),
            contents: vec![0; 32],
        }),
        owner: Owner::Shared { initial_shared_version: SequenceNumber(since) },
        previous_transaction: TransactionDigest([0; 32]),
        storage_rebate: 0,
    }
}

#[test]
fn failed_system_read_passes_its_error_on() {
    let e = StorageError { message: "disk".to_string() };
    assert_eq!(
        shared_version_from_read(Err(e)),
        Err(IotaError::Storage(StorageError { message: "disk".to_string() }))
    );
}

#[test]
fn missing_system_object_has_no_version() {
    assert_eq!(shared_version_from_read(Ok(None)), Ok(None));
}

#[test]
fn stored_system_object_gives_its_shared_version() {
    assert_eq!(
        shared_version_from_read(Ok(Some(shared_object(9)))),
        Ok(Some(SequenceNumber(9)))
    );
}

#[test]
fn failed_deny_list_read_gives_no_root() {
    let e = StorageError { message: "gone".to_string() };
    assert!(root_object_from_read(Err(e)).is_none());
    assert!(root_object_from_read(Ok(None)).is_none());
    let root = root_object_from_read(Ok(Some(shared_object(4)))).unwrap();
    assert_eq!(root.owner, Owner::Shared { initial_shared_version: SequenceNumber(4) });
}
