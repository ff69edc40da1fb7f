use iota_logic::base_types::{
    IotaAddress, ObjectDigest, ObjectID, SequenceNumber, TransactionDigest,
};
use iota_logic::error::{IotaError, UserInputError};
use iota_logic::move_types::StructTag;
use iota_logic::object::{Data, MoveObject, MovePackage, Object, Owner};
use iota_logic::storage::{
    first_shared_input, first_unlocked_shared_input, InMemoryObjectStore, InputObjectKind,
    ObjectStore,
};

fn object(id: u8, version: u64, owner: Owner) -> Object {
    let mut contents = vec![id; 32];
    contents.push(0);
    Object {
        data: Data::Move(MoveObject {
            type_: StructTag {
                address: IotaAddress([2; 32]),
                module: "m".to_string(),
                name: "T".to_string(),
                type_params: vec![],
            },
            has_public_transfer: false,
            version: SequenceNumber(version),
            contents,
        }),
        owner,
        previous_transaction: TransactionDigest([0; 32]),
        storage_rebate: 0,
    }
}

fn store() -> InMemoryObjectStore {
    InMemoryObjectStore::new(vec![
        (ObjectID([1; 32]), object(1, 5, Owner::AddressOwner(IotaAddress([9; 32])))),
        (ObjectID([2; 32]), object(2, 3, Owner::ObjectOwner(IotaAddress([1; 32])))),
    ])
}

#[test]
fn get_object_finds_by_identifier() {
    let s = store();
    let o = s.get_object(&ObjectID([1; 32])).unwrap().unwrap();
    assert_eq!(o.version(), SequenceNumber(5));
    assert_eq!(o.id(), ObjectID([1; 32]));
    assert!(s.get_object(&ObjectID([3; 32])).unwrap().is_none());
}

#[test]
fn get_object_by_key_needs_the_version() {
    let s = store();
    assert!(s.get_object_by_key(&ObjectID([1; 32]), SequenceNumber(5)).unwrap().is_some());
    assert!(s.get_object_by_key(&ObjectID([1; 32]), SequenceNumber(4)).unwrap().is_none());
    assert!(s.get_object_by_key(&ObjectID([7; 32]), SequenceNumber(5)).unwrap().is_none());
}

#[test]
fn child_objects_are_read_through_their_parent() {
    let s = store();
    let parent = ObjectID([1; 32]);
    let child = ObjectID([2; 32]);
    assert!(s.read_child_object(&parent, &child, SequenceNumber(3)).is_some());
    assert!(s.read_child_object(&parent, &child, SequenceNumber(2)).is_none());
    assert!(s.read_child_object(&ObjectID([8; 32]), &child, SequenceNumber(9)).is_none());
    assert!(s.read_child_object(&parent, &ObjectID([1; 32]), SequenceNumber(9)).is_none());
}

fn package(id: u8, version: u64) -> Object {
    Object {
        data: Data::Package(MovePackage {
            id: ObjectID([id; 32]),
            version: SequenceNumber(version),
            module_map: vec![],
            type_origin_table: vec![],
            linkage_table: vec![],
        }),
        owner: Owner::Immutable,
        previous_transaction: TransactionDigest([0; 32]),
        storage_rebate: 0,
    }
}

fn execution_store() -> InMemoryObjectStore {
    InMemoryObjectStore::new(vec![
        (ObjectID([1; 32]), object(1, 5, Owner::AddressOwner(IotaAddress([9; 32])))),
        (ObjectID([2; 32]), package(2, 1)),
        (
            ObjectID([3; 32]),
            object(3, 8, Owner::Shared { initial_shared_version: SequenceNumber(2) }),
        ),
    ])
}

fn shared(id: u8) -> InputObjectKind {
    InputObjectKind::SharedMoveObject {
        id: ObjectID([id; 32]),
        initial_shared_version: SequenceNumber(2),
        mutable: true,
    }
}

fn owned(id: u8, version: u64) -> InputObjectKind {
    InputObjectKind::ImmOrOwnedMoveObject((ObjectID([id; 32]), SequenceNumber(version), ObjectDigest([0; 32])))
}

#[test]
fn inputs_are_read_in_order() {
    let s = execution_store();
    let kinds = [InputObjectKind::MovePackage(ObjectID([2; 32])), owned(1, 5), shared(3)];
    let locks = vec![(ObjectID([3; 32]), SequenceNumber(7)), (ObjectID([3; 32]), SequenceNumber(8))];
    let read = s.read_objects_for_execution(&locks, &kinds).unwrap();
    assert_eq!(read.len(), 3);
    assert_eq!(read[0].input_object_kind, kinds[0]);
    assert_eq!(read[0].object.id(), ObjectID([2; 32]));
    assert_eq!(read[1].object.version(), SequenceNumber(5));
    assert_eq!(read[2].object.version(), SequenceNumber(8));
}

#[test]
fn first_unreadable_input_is_reported() {
    let s = execution_store();
    let locks = vec![(ObjectID([3; 32]), SequenceNumber(7))];
    assert_eq!(
        s.read_objects_for_execution(&locks, &[owned(1, 5), shared(3), owned(1, 4)]).err(),
        Some(IotaError::UserInput(UserInputError::ObjectNotFound {
            object_id: ObjectID([3; 32]),
            version: None,
        }))
    );
    assert_eq!(
        s.read_objects_for_execution(&vec![], &[owned(1, 4)]).err(),
        Some(IotaError::UserInput(UserInputError::ObjectNotFound {
            object_id: ObjectID([1; 32]),
            version: Some(SequenceNumber(4)),
        }))
    );
    assert_eq!(
        s.read_objects_for_execution(&vec![], &[InputObjectKind::MovePackage(ObjectID([6; 32]))]).err(),
        Some(IotaError::UserInput(UserInputError::DependentPackageNotFound {
            package_id: ObjectID([6; 32]),
        }))
    );
    assert_eq!(
        s.read_objects_for_execution(&vec![], &[InputObjectKind::MovePackage(ObjectID([1; 32]))]).err(),
        Some(IotaError::UserInput(UserInputError::MoveObjectAsPackage {
            object_id: ObjectID([1; 32]),
        }))
    );
    assert!(s.read_objects_for_execution(&vec![], &[]).unwrap().is_empty());
}

#[test]
fn shared_inputs_are_found_and_checked_against_the_locks() {
    let shared = |b: u8| InputObjectKind::SharedMoveObject {
        id: ObjectID([b; 32]),
        initial_shared_version: SequenceNumber(1),
        mutable: true,
    };
    let kinds = vec![
        InputObjectKind::MovePackage(ObjectID([9; 32])),
        shared(3),
        shared(4),
    ];
    assert_eq!(first_shared_input(&kinds), Some(1));
    assert_eq!(first_shared_input(&kinds[..1]), None);
    let locks = vec![(ObjectID([3; 32]), SequenceNumber(5))];
    assert_eq!(first_unlocked_shared_input(&locks, &kinds), Some(2));
    let all = vec![(ObjectID([3; 32]), SequenceNumber(5)), (ObjectID([4; 32]), SequenceNumber(6))];
    assert_eq!(first_unlocked_shared_input(&all, &kinds), None);
}
