use iota_logic::base_types::{
    CheckpointDigest, IotaAddress, ObjectID, SequenceNumber, TransactionDigest,
};
use iota_logic::epoch_start::{
    EpochFlag, EpochStartConfigTrait, EpochStartConfiguration, EpochStartConfigurationV1,
    EpochStartSystemState,
};
use iota_logic::move_types::StructTag;
use iota_logic::object::{Data, MoveObject, Object, Owner};
use iota_logic::storage::InMemoryObjectStore;

fn state() -> EpochStartSystemState {
    EpochStartSystemState {
        epoch: 17,
        protocol_version: 1,
        reference_gas_price: 1000,
        safe_mode: false,
        epoch_start_timestamp_ms: 1_700_000_000_000,
        epoch_duration_ms: 86_400_000,
    }
}

fn shared(low: u8, hi: u8, since: u64) -> (ObjectID, Object) {
    let mut id = [0u8; 32];
    id[30] = hi;
    id[31] = low;
    let mut contents = id.to_vec();
    contents.push(1);
    (
        ObjectID(id),
        Object {
            data: Data::Move(MoveObject {
                type_: StructTag {
                    address: IotaAddress([0; 32]),
                    module: "system".to_string(),
                    name: "State".to_string(),
                    type_params: vec![],
                },
                has_public_transfer: false,
                version: SequenceNumber(since + 3),
                contents,
            }),
            owner: Owner::Shared { initial_shared_version: SequenceNumber(since) },
            previous_transaction: TransactionDigest([0; 32]),
            storage_rebate: 0,
        },
    )
}

#[test]
fn default_flags_are_all_flags_in_order() {
    assert_eq!(
        EpochFlag::default_flags_for_new_epoch(),
        vec![
            EpochFlag::InMemoryCheckpointRoots,
            EpochFlag::PerEpochFinalizedTransactions,
            EpochFlag::ObjectLockSplitTables,
        ]
    );
    assert_eq!(EpochFlag::ObjectLockSplitTables.to_display_string(), "ObjectLockSplitTables");
}

#[test]
fn new_configuration_reads_the_shared_versions() {
    let store = InMemoryObjectStore::new(vec![shared(7, 0, 2), shared(3, 4, 9)]);
    let c = EpochStartConfiguration::new(state(), CheckpointDigest([6; 32]), &store, None).unwrap();
    assert_eq!(c.authenticator_obj_initial_shared_version(), Some(SequenceNumber(2)));
    assert_eq!(c.randomness_obj_initial_shared_version(), None);
    assert_eq!(c.coin_deny_list_obj_initial_shared_version(), Some(SequenceNumber(9)));
    assert_eq!(c.flags(), EpochFlag::default_flags_for_new_epoch().as_slice());
    assert_eq!(c.epoch_digest(), CheckpointDigest([6; 32]));
    assert_eq!(c.epoch_start_timestamp_ms(), 1_700_000_000_000);
    let data = c.epoch_data();
    assert_eq!(data.epoch_id(), 17);
    assert_eq!(data.epoch_start_timestamp(), 1_700_000_000_000);
    assert_eq!(data.epoch_digest(), CheckpointDigest([6; 32]));
}

#[test]
fn given_flags_are_kept() {
    let store = InMemoryObjectStore::new(vec![shared(8, 0, 5)]);
    let flags = vec![EpochFlag::ObjectLockSplitTables];
    let c = EpochStartConfiguration::new(state(), CheckpointDigest([0; 32]), &store, Some(flags.clone()))
        .unwrap();
    assert_eq!(c.flags(), flags.as_slice());
    assert_eq!(c.randomness_obj_initial_shared_version(), Some(SequenceNumber(5)));
    assert_eq!(c.authenticator_obj_initial_shared_version(), None);
    assert_eq!(c.coin_deny_list_obj_initial_shared_version(), None);
}

#[test]
fn first_layout_has_no_flags_or_versions() {
    let c = EpochStartConfigurationV1::new(state(), CheckpointDigest([1; 32]));
    assert!(c.flags().is_empty());
    assert_eq!(c.epoch_start_state().epoch, 17);
    assert_eq!(c.coin_deny_list_obj_initial_shared_version(), None);
}
