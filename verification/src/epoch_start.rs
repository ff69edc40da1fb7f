//! The parameters of an epoch that are fixed when the epoch starts, in the
//! successive versions of their stored layout.
use vstd::prelude::*;

use crate::base_types::{
    spec_authenticator_state_object_id, spec_deny_list_object_id,
    spec_randomness_state_object_id, CheckpointDigest, CheckpointTimestamp, EpochId,
    SequenceNumber,
};
use crate::error::{IotaError, IotaResult};
use crate::object::Object;
use crate::storage::{possible_read, ObjectStore, StorageError};
use crate::deny_list::{get_deny_list_obj_initial_shared_version, spec_deny_list_version_from_read};
use crate::system_objects::{
    get_authenticator_state_obj_initial_shared_version,
    get_randomness_state_obj_initial_shared_version, shared_or_absent, shared_version_of,
    spec_shared_version_from_read,
};

verus! {

/// Reads of the authenticator state, the randomness state and the deny list
/// that `store` may give.
pub open spec fn possible_system_reads<S: ObjectStore>(
    store: &S,
    authenticator: Result<Option<Object>, StorageError>,
    randomness: Result<Option<Object>, StorageError>,
    deny_list: Result<Option<Object>, StorageError>,
) -> bool {
    &&& possible_read(store, spec_authenticator_state_object_id(), authenticator)
    &&& possible_read(store, spec_randomness_state_object_id(), randomness)
    &&& possible_read(store, spec_deny_list_object_id(), deny_list)
}

/// The versions of the shared system objects that a new epoch takes from
/// these reads: the error of the first of the authenticator and randomness
/// reads that failed, else their versions and that of the deny list, which
/// is `None` when its read failed.
pub open spec fn spec_versions_from_reads(
    authenticator: Result<Option<Object>, StorageError>,
    randomness: Result<Option<Object>, StorageError>,
    deny_list: Result<Option<Object>, StorageError>,
) -> IotaResult<(Option<SequenceNumber>, Option<SequenceNumber>, Option<SequenceNumber>)> {
    match spec_shared_version_from_read(authenticator) {
        Err(e) => Err(e),
        Ok(a) => match spec_shared_version_from_read(randomness) {
            Err(e) => Err(e),
            Ok(b) => Ok((a, b, spec_deny_list_version_from_read(deny_list))),
        },
    }
}

/// The result of building a configuration is the one that these versions
/// call for: their error, or a configuration that holds them.
pub open spec fn config_result_for(
    r: IotaResult<EpochStartConfiguration>,
    versions: IotaResult<(Option<SequenceNumber>, Option<SequenceNumber>, Option<SequenceNumber>)>,
) -> bool {
    match versions {
        Err(e) => r == Err::<EpochStartConfiguration, IotaError>(e),
        Ok(v) => r matches Ok(c) && c.spec_authenticator_version() == v.0
            && c.spec_randomness_version() == v.1 && c.spec_coin_deny_list_version() == v.2,
    }
}

/// The part of the system state at the start of an epoch that the
/// configuration reads.
#[derive(Clone, Copy, Debug, PartialEq, Eq)]
pub struct EpochStartSystemState {
    pub epoch: EpochId,
    pub protocol_version: u64,
    pub reference_gas_price: u64,
    pub safe_mode: bool,
    pub epoch_start_timestamp_ms: u64,
    pub epoch_duration_ms: u64,
}

impl EpochStartSystemState {
    /// The epoch number.
    pub fn epoch(&self) -> (r: EpochId)
        ensures
            r == self.epoch,
    {
        self.epoch
    }

    /// When the epoch started.
    pub fn epoch_start_timestamp_ms(&self) -> (r: u64)
        ensures
            r == self.epoch_start_timestamp_ms,
    {
        self.epoch_start_timestamp_ms
    }
}

/// The number, start time and starting digest of an epoch.
#[derive(Clone, Copy, Debug, PartialEq, Eq)]
pub struct EpochData {
    epoch_id: EpochId,
    epoch_start_timestamp: CheckpointTimestamp,
    epoch_digest: CheckpointDigest,
}

impl EpochData {
    pub closed spec fn spec_epoch_id(&self) -> EpochId {
        self.epoch_id
    }

    pub closed spec fn spec_epoch_start_timestamp(&self) -> CheckpointTimestamp {
        self.epoch_start_timestamp
    }

    pub closed spec fn spec_epoch_digest(&self) -> CheckpointDigest {
        self.epoch_digest
    }

    /// Data of the given epoch.
    pub fn new(
        epoch_id: EpochId,
        epoch_start_timestamp: CheckpointTimestamp,
        epoch_digest: CheckpointDigest,
    ) -> (r: Self)
        ensures
            r.spec_epoch_id() == epoch_id,
            r.spec_epoch_start_timestamp() == epoch_start_timestamp,
            r.spec_epoch_digest() == epoch_digest,
    {
        EpochData { epoch_id, epoch_start_timestamp, epoch_digest }
    }

    /// The epoch number.
    pub fn epoch_id(&self) -> (r: EpochId)
        ensures
            r == self.spec_epoch_id(),
    {
        self.epoch_id
    }

    /// When the epoch started.
    pub fn epoch_start_timestamp(&self) -> (r: CheckpointTimestamp)
        ensures
            r == self.spec_epoch_start_timestamp(),
    {
        self.epoch_start_timestamp
    }

    /// The digest of the last checkpoint of the previous epoch.
    pub fn epoch_digest(&self) -> (r: CheckpointDigest)
        ensures
            r == self.spec_epoch_digest(),
    {
        self.epoch_digest
    }
}

/// Features switched on for the lifetime of an epoch.
#[derive(Clone, Copy, Debug, PartialEq, Eq)]
pub enum EpochFlag {
    InMemoryCheckpointRoots,
    PerEpochFinalizedTransactions,
    ObjectLockSplitTables,
}

/// The flags that a new epoch starts with: all of them, in declaration order.
pub open spec fn spec_default_flags() -> Seq<EpochFlag> {
    seq![
        EpochFlag::InMemoryCheckpointRoots,
        EpochFlag::PerEpochFinalizedTransactions,
        EpochFlag::ObjectLockSplitTables,
    ]
}

/// The name of a flag, as used for metric keys.
pub open spec fn spec_flag_name(f: EpochFlag) -> Seq<char> {
    match f {
        EpochFlag::InMemoryCheckpointRoots => "InMemoryCheckpointRoots"@,
        EpochFlag::PerEpochFinalizedTransactions => "PerEpochFinalizedTransactions"@,
        EpochFlag::ObjectLockSplitTables => "ObjectLockSplitTables"@,
    }
}

impl EpochFlag {
    /// The flags of a new epoch.
    pub fn default_flags_for_new_epoch() -> (r: Vec<EpochFlag>)
        ensures
            r@ == spec_default_flags(),
    {
        let mut v: Vec<EpochFlag> = Vec::new();
        v.push(EpochFlag::InMemoryCheckpointRoots);
        v.push(EpochFlag::PerEpochFinalizedTransactions);
        v.push(EpochFlag::ObjectLockSplitTables);
        assert(v@ =~= spec_default_flags());
        v
    }

    /// The name of the flag (a value of low cardinality, used as a metric key).
    pub fn to_display_string(&self) -> (r: String)
        ensures
            r@ == spec_flag_name(*self),
    {
        match self {
            EpochFlag::InMemoryCheckpointRoots => String::from_str("InMemoryCheckpointRoots"),
            EpochFlag::PerEpochFinalizedTransactions => String::from_str(
                "PerEpochFinalizedTransactions",
            ),
            EpochFlag::ObjectLockSplitTables => String::from_str("ObjectLockSplitTables"),
        }
    }
}

/// What every layout of the configuration exposes.
pub trait EpochStartConfigTrait {
    /// The digest of the last checkpoint of the previous epoch (zero at genesis).
    fn epoch_digest(&self) -> CheckpointDigest;

    /// The system state at the start of the epoch.
    fn epoch_start_state(&self) -> &EpochStartSystemState;

    /// The flags of the epoch.
    fn flags(&self) -> &[EpochFlag];

    /// Since when the authenticator state object is shared, if it existed.
    fn authenticator_obj_initial_shared_version(&self) -> Option<SequenceNumber>;

    /// Since when the randomness state object is shared, if it existed.
    fn randomness_obj_initial_shared_version(&self) -> Option<SequenceNumber>;

    /// Since when the coin deny list object is shared, if it existed.
    fn coin_deny_list_obj_initial_shared_version(&self) -> Option<SequenceNumber>;
}

/// The first layout: system state and digest.
#[derive(Debug, PartialEq, Eq)]
pub struct EpochStartConfigurationV1 {
    system_state: EpochStartSystemState,
    /// Zero for the genesis epoch; otherwise the digest of the last
    /// checkpoint of the previous epoch.
    epoch_digest: CheckpointDigest,
}

/// Adds the epoch flags.
#[derive(Debug, PartialEq, Eq)]
pub struct EpochStartConfigurationV2 {
    system_state: EpochStartSystemState,
    epoch_digest: CheckpointDigest,
    flags: Vec<EpochFlag>,
}

/// Adds the authenticator state object.
#[derive(Debug, PartialEq, Eq)]
pub struct EpochStartConfigurationV3 {
    system_state: EpochStartSystemState,
    epoch_digest: CheckpointDigest,
    flags: Vec<EpochFlag>,
    authenticator_obj_initial_shared_version: Option<SequenceNumber>,
}

/// Adds the randomness state object.
#[derive(Debug, PartialEq, Eq)]
pub struct EpochStartConfigurationV4 {
    system_state: EpochStartSystemState,
    epoch_digest: CheckpointDigest,
    flags: Vec<EpochFlag>,
    authenticator_obj_initial_shared_version: Option<SequenceNumber>,
    randomness_obj_initial_shared_version: Option<SequenceNumber>,
}

/// Adds the coin deny list object.
#[derive(Debug, PartialEq, Eq)]
pub struct EpochStartConfigurationV5 {
    system_state: EpochStartSystemState,
    epoch_digest: CheckpointDigest,
    flags: Vec<EpochFlag>,
    authenticator_obj_initial_shared_version: Option<SequenceNumber>,
    randomness_obj_initial_shared_version: Option<SequenceNumber>,
    coin_deny_list_obj_initial_shared_version: Option<SequenceNumber>,
}

/// The parameters of an epoch fixed at its start, in one of its layouts.
#[derive(Debug, PartialEq, Eq)]
pub enum EpochStartConfiguration {
    V1(EpochStartConfigurationV1),
    V2(EpochStartConfigurationV2),
    V3(EpochStartConfigurationV3),
    V4(EpochStartConfigurationV4),
    V5(EpochStartConfigurationV5),
}

impl EpochStartConfigurationV1 {
    /// The system state at the start of the epoch.
    pub closed spec fn spec_system_state(&self) -> EpochStartSystemState {
        self.system_state
    }

    /// The starting digest of the epoch.
    pub closed spec fn spec_epoch_digest(&self) -> CheckpointDigest {
        self.epoch_digest
    }

    /// The flags of the epoch.
    pub closed spec fn spec_flags(&self) -> Seq<EpochFlag> {
        Seq::empty()
    }

    /// The authenticator state version.
    pub closed spec fn spec_authenticator_version(&self) -> Option<SequenceNumber> {
        None
    }

    /// The randomness state version.
    pub closed spec fn spec_randomness_version(&self) -> Option<SequenceNumber> {
        None
    }

    /// The coin deny list version.
    pub closed spec fn spec_coin_deny_list_version(&self) -> Option<SequenceNumber> {
        None
    }
}

impl EpochStartConfigurationV2 {
    /// The system state at the start of the epoch.
    pub closed spec fn spec_system_state(&self) -> EpochStartSystemState {
        self.system_state
    }

    /// The starting digest of the epoch.
    pub closed spec fn spec_epoch_digest(&self) -> CheckpointDigest {
        self.epoch_digest
    }

    /// The flags of the epoch.
    pub closed spec fn spec_flags(&self) -> Seq<EpochFlag> {
        self.flags@
    }

    /// The authenticator state version.
    pub closed spec fn spec_authenticator_version(&self) -> Option<SequenceNumber> {
        None
    }

    /// The randomness state version.
    pub closed spec fn spec_randomness_version(&self) -> Option<SequenceNumber> {
        None
    }

    /// The coin deny list version.
    pub closed spec fn spec_coin_deny_list_version(&self) -> Option<SequenceNumber> {
        None
    }
}

impl EpochStartConfigurationV3 {
    /// The system state at the start of the epoch.
    pub closed spec fn spec_system_state(&self) -> EpochStartSystemState {
        self.system_state
    }

    /// The starting digest of the epoch.
    pub closed spec fn spec_epoch_digest(&self) -> CheckpointDigest {
        self.epoch_digest
    }

    /// The flags of the epoch.
    pub closed spec fn spec_flags(&self) -> Seq<EpochFlag> {
        self.flags@
    }

    /// The authenticator state version.
    pub closed spec fn spec_authenticator_version(&self) -> Option<SequenceNumber> {
        self.authenticator_obj_initial_shared_version
    }

    /// The randomness state version.
    pub closed spec fn spec_randomness_version(&self) -> Option<SequenceNumber> {
        None
    }

    /// The coin deny list version.
    pub closed spec fn spec_coin_deny_list_version(&self) -> Option<SequenceNumber> {
        None
    }
}

impl EpochStartConfigurationV4 {
    /// The system state at the start of the epoch.
    pub closed spec fn spec_system_state(&self) -> EpochStartSystemState {
        self.system_state
    }

    /// The starting digest of the epoch.
    pub closed spec fn spec_epoch_digest(&self) -> CheckpointDigest {
        self.epoch_digest
    }

    /// The flags of the epoch.
    pub closed spec fn spec_flags(&self) -> Seq<EpochFlag> {
        self.flags@
    }

    /// The authenticator state version.
    pub closed spec fn spec_authenticator_version(&self) -> Option<SequenceNumber> {
        self.authenticator_obj_initial_shared_version
    }

    /// The randomness state version.
    pub closed spec fn spec_randomness_version(&self) -> Option<SequenceNumber> {
        self.randomness_obj_initial_shared_version
    }

    /// The coin deny list version.
    pub closed spec fn spec_coin_deny_list_version(&self) -> Option<SequenceNumber> {
        None
    }
}

impl EpochStartConfigurationV5 {
    /// The system state at the start of the epoch.
    pub closed spec fn spec_system_state(&self) -> EpochStartSystemState {
        self.system_state
    }

    /// The starting digest of the epoch.
    pub closed spec fn spec_epoch_digest(&self) -> CheckpointDigest {
        self.epoch_digest
    }

    /// The flags of the epoch.
    pub closed spec fn spec_flags(&self) -> Seq<EpochFlag> {
        self.flags@
    }

    /// The authenticator state version.
    pub closed spec fn spec_authenticator_version(&self) -> Option<SequenceNumber> {
        self.authenticator_obj_initial_shared_version
    }

    /// The randomness state version.
    pub closed spec fn spec_randomness_version(&self) -> Option<SequenceNumber> {
        self.randomness_obj_initial_shared_version
    }

    /// The coin deny list version.
    pub closed spec fn spec_coin_deny_list_version(&self) -> Option<SequenceNumber> {
        self.coin_deny_list_obj_initial_shared_version
    }
}

impl EpochStartConfigurationV1 {
    /// A configuration of the first layout.
    pub fn new(system_state: EpochStartSystemState, epoch_digest: CheckpointDigest) -> (r: Self)
        ensures
            r.spec_system_state() == system_state,
            r.spec_epoch_digest() == epoch_digest,
    {
        Self { system_state, epoch_digest }
    }
}

impl EpochStartConfigTrait for EpochStartConfigurationV1 {
    fn epoch_digest(&self) -> (r: CheckpointDigest)
        ensures
            r == self.spec_epoch_digest(),
    {
        self.epoch_digest
    }

    fn epoch_start_state(&self) -> (r: &EpochStartSystemState)
        ensures
            *r == self.spec_system_state(),
    {
        &self.system_state
    }

    fn flags(&self) -> (r: &[EpochFlag])
        ensures
            r@ == self.spec_flags(),
    {
        let empty: &[EpochFlag] = &[];
        assert(empty@ =~= Seq::<EpochFlag>::empty());
        empty
    }

    fn authenticator_obj_initial_shared_version(&self) -> (r: Option<SequenceNumber>)
        ensures
            r == self.spec_authenticator_version(),
    {
        None
    }

    fn randomness_obj_initial_shared_version(&self) -> (r: Option<SequenceNumber>)
        ensures
            r == self.spec_randomness_version(),
    {
        None
    }

    fn coin_deny_list_obj_initial_shared_version(&self) -> (r: Option<SequenceNumber>)
        ensures
            r == self.spec_coin_deny_list_version(),
    {
        None
    }
}

impl EpochStartConfigTrait for EpochStartConfigurationV2 {
    fn epoch_digest(&self) -> (r: CheckpointDigest)
        ensures
            r == self.spec_epoch_digest(),
    {
        self.epoch_digest
    }

    fn epoch_start_state(&self) -> (r: &EpochStartSystemState)
        ensures
            *r == self.spec_system_state(),
    {
        &self.system_state
    }

    fn flags(&self) -> (r: &[EpochFlag])
        ensures
            r@ == self.spec_flags(),
    {
        self.flags.as_slice()
    }

    fn authenticator_obj_initial_shared_version(&self) -> (r: Option<SequenceNumber>)
        ensures
            r == self.spec_authenticator_version(),
    {
        None
    }

    fn randomness_obj_initial_shared_version(&self) -> (r: Option<SequenceNumber>)
        ensures
            r == self.spec_randomness_version(),
    {
        None
    }

    fn coin_deny_list_obj_initial_shared_version(&self) -> (r: Option<SequenceNumber>)
        ensures
            r == self.spec_coin_deny_list_version(),
    {
        None
    }
}

impl EpochStartConfigTrait for EpochStartConfigurationV3 {
    fn epoch_digest(&self) -> (r: CheckpointDigest)
        ensures
            r == self.spec_epoch_digest(),
    {
        self.epoch_digest
    }

    fn epoch_start_state(&self) -> (r: &EpochStartSystemState)
        ensures
            *r == self.spec_system_state(),
    {
        &self.system_state
    }

    fn flags(&self) -> (r: &[EpochFlag])
        ensures
            r@ == self.spec_flags(),
    {
        self.flags.as_slice()
    }

    fn authenticator_obj_initial_shared_version(&self) -> (r: Option<SequenceNumber>)
        ensures
            r == self.spec_authenticator_version(),
    {
        self.authenticator_obj_initial_shared_version
    }

    fn randomness_obj_initial_shared_version(&self) -> (r: Option<SequenceNumber>)
        ensures
            r == self.spec_randomness_version(),
    {
        None
    }

    fn coin_deny_list_obj_initial_shared_version(&self) -> (r: Option<SequenceNumber>)
        ensures
            r == self.spec_coin_deny_list_version(),
    {
        None
    }
}

impl EpochStartConfigTrait for EpochStartConfigurationV4 {
    fn epoch_digest(&self) -> (r: CheckpointDigest)
        ensures
            r == self.spec_epoch_digest(),
    {
        self.epoch_digest
    }

    fn epoch_start_state(&self) -> (r: &EpochStartSystemState)
        ensures
            *r == self.spec_system_state(),
    {
        &self.system_state
    }

    fn flags(&self) -> (r: &[EpochFlag])
        ensures
            r@ == self.spec_flags(),
    {
        self.flags.as_slice()
    }

    fn authenticator_obj_initial_shared_version(&self) -> (r: Option<SequenceNumber>)
        ensures
            r == self.spec_authenticator_version(),
    {
        self.authenticator_obj_initial_shared_version
    }

    fn randomness_obj_initial_shared_version(&self) -> (r: Option<SequenceNumber>)
        ensures
            r == self.spec_randomness_version(),
    {
        self.randomness_obj_initial_shared_version
    }

    fn coin_deny_list_obj_initial_shared_version(&self) -> (r: Option<SequenceNumber>)
        ensures
            r == self.spec_coin_deny_list_version(),
    {
        None
    }
}

impl EpochStartConfigTrait for EpochStartConfigurationV5 {
    fn epoch_digest(&self) -> (r: CheckpointDigest)
        ensures
            r == self.spec_epoch_digest(),
    {
        self.epoch_digest
    }

    fn epoch_start_state(&self) -> (r: &EpochStartSystemState)
        ensures
            *r == self.spec_system_state(),
    {
        &self.system_state
    }

    fn flags(&self) -> (r: &[EpochFlag])
        ensures
            r@ == self.spec_flags(),
    {
        self.flags.as_slice()
    }

    fn authenticator_obj_initial_shared_version(&self) -> (r: Option<SequenceNumber>)
        ensures
            r == self.spec_authenticator_version(),
    {
        self.authenticator_obj_initial_shared_version
    }

    fn randomness_obj_initial_shared_version(&self) -> (r: Option<SequenceNumber>)
        ensures
            r == self.spec_randomness_version(),
    {
        self.randomness_obj_initial_shared_version
    }

    fn coin_deny_list_obj_initial_shared_version(&self) -> (r: Option<SequenceNumber>)
        ensures
            r == self.spec_coin_deny_list_version(),
    {
        self.coin_deny_list_obj_initial_shared_version
    }
}

impl EpochStartConfiguration {
    /// The system state at the start of the epoch.
    pub open spec fn spec_system_state(&self) -> EpochStartSystemState {
        match self {
            EpochStartConfiguration::V1(c) => c.spec_system_state(),
            EpochStartConfiguration::V2(c) => c.spec_system_state(),
            EpochStartConfiguration::V3(c) => c.spec_system_state(),
            EpochStartConfiguration::V4(c) => c.spec_system_state(),
            EpochStartConfiguration::V5(c) => c.spec_system_state(),
        }
    }

    /// The starting digest of the epoch.
    pub open spec fn spec_epoch_digest(&self) -> CheckpointDigest {
        match self {
            EpochStartConfiguration::V1(c) => c.spec_epoch_digest(),
            EpochStartConfiguration::V2(c) => c.spec_epoch_digest(),
            EpochStartConfiguration::V3(c) => c.spec_epoch_digest(),
            EpochStartConfiguration::V4(c) => c.spec_epoch_digest(),
            EpochStartConfiguration::V5(c) => c.spec_epoch_digest(),
        }
    }

    /// The flags of the epoch; the first layout has none.
    pub open spec fn spec_flags(&self) -> Seq<EpochFlag> {
        match self {
            EpochStartConfiguration::V1(c) => c.spec_flags(),
            EpochStartConfiguration::V2(c) => c.spec_flags(),
            EpochStartConfiguration::V3(c) => c.spec_flags(),
            EpochStartConfiguration::V4(c) => c.spec_flags(),
            EpochStartConfiguration::V5(c) => c.spec_flags(),
        }
    }

    /// The authenticator version; none before the third layout.
    pub open spec fn spec_authenticator_version(&self) -> Option<SequenceNumber> {
        match self {
            EpochStartConfiguration::V1(c) => c.spec_authenticator_version(),
            EpochStartConfiguration::V2(c) => c.spec_authenticator_version(),
            EpochStartConfiguration::V3(c) => c.spec_authenticator_version(),
            EpochStartConfiguration::V4(c) => c.spec_authenticator_version(),
            EpochStartConfiguration::V5(c) => c.spec_authenticator_version(),
        }
    }

    /// The randomness version; none before the fourth layout.
    pub open spec fn spec_randomness_version(&self) -> Option<SequenceNumber> {
        match self {
            EpochStartConfiguration::V1(c) => c.spec_randomness_version(),
            EpochStartConfiguration::V2(c) => c.spec_randomness_version(),
            EpochStartConfiguration::V3(c) => c.spec_randomness_version(),
            EpochStartConfiguration::V4(c) => c.spec_randomness_version(),
            EpochStartConfiguration::V5(c) => c.spec_randomness_version(),
        }
    }

    /// The coin deny list version; none before the fifth layout.
    pub open spec fn spec_coin_deny_list_version(&self) -> Option<SequenceNumber> {
        match self {
            EpochStartConfiguration::V1(c) => c.spec_coin_deny_list_version(),
            EpochStartConfiguration::V2(c) => c.spec_coin_deny_list_version(),
            EpochStartConfiguration::V3(c) => c.spec_coin_deny_list_version(),
            EpochStartConfiguration::V4(c) => c.spec_coin_deny_list_version(),
            EpochStartConfiguration::V5(c) => c.spec_coin_deny_list_version(),
        }
    }

    /// The configuration of a new epoch, in the latest layout. The versions of
    /// the shared system objects are read from `object_store`; the flags are
    /// `initial_epoch_flags`, or the default flags when none are given.
    pub fn new<S: ObjectStore>(
        system_state: EpochStartSystemState,
        epoch_digest: CheckpointDigest,
        object_store: &S,
        initial_epoch_flags: Option<Vec<EpochFlag>>,
    ) -> (r: IotaResult<Self>)
        requires
            shared_or_absent(object_store.stored_object(spec_authenticator_state_object_id())),
            shared_or_absent(object_store.stored_object(spec_randomness_state_object_id())),
            shared_or_absent(object_store.stored_object(spec_deny_list_object_id())),
        ensures
            r matches Ok(c) ==> {
                &&& c is V5
                &&& c.spec_system_state() == system_state
                &&& c.spec_epoch_digest() == epoch_digest
                &&& c.spec_flags() == match initial_epoch_flags {
                    Some(f) => f@,
                    None => spec_default_flags(),
                }
                &&& c.spec_authenticator_version() == shared_version_of(
                    object_store.stored_object(spec_authenticator_state_object_id()),
                )
                &&& c.spec_randomness_version() == shared_version_of(
                    object_store.stored_object(spec_randomness_state_object_id()),
                )
                &&& c.spec_coin_deny_list_version() is Some ==> c.spec_coin_deny_list_version()
                    == shared_version_of(object_store.stored_object(spec_deny_list_object_id()))
                &&& object_store.stored_object(spec_deny_list_object_id()) is None
                    ==> c.spec_coin_deny_list_version() is None
                &&& object_store.reads_never_fail() ==> c.spec_coin_deny_list_version()
                    == shared_version_of(object_store.stored_object(spec_deny_list_object_id()))
            },
            exists|
                authenticator: Result<Option<Object>, StorageError>,
                randomness: Result<Option<Object>, StorageError>,
                deny_list: Result<Option<Object>, StorageError>,
            |
                #[trigger] possible_system_reads(object_store, authenticator, randomness, deny_list)
                    && config_result_for(
                    r,
                    spec_versions_from_reads(authenticator, randomness, deny_list),
                ),
            object_store.reads_never_fail() ==> r is Ok,
            r is Err ==> r matches Err(IotaError::Storage(_)),
    {
        let authenticator = get_authenticator_state_obj_initial_shared_version(object_store);
        let ghost ra = choose|read: Result<Option<Object>, StorageError>|
            #[trigger] possible_read(object_store, spec_authenticator_state_object_id(), read)
                && authenticator == spec_shared_version_from_read(read);
        let authenticator_obj_initial_shared_version = match authenticator {
            Ok(v) => v,
            Err(e) => {
                proof {
                    assert(possible_read(object_store, spec_authenticator_state_object_id(), ra));
                    assert(possible_system_reads(object_store, ra, ra, ra));
                    assert(config_result_for(
                        Err::<EpochStartConfiguration, IotaError>(e),
                        spec_versions_from_reads(ra, ra, ra),
                    ));
                }
                return Err(e);
            },
        };
        let randomness = get_randomness_state_obj_initial_shared_version(object_store);
        let ghost rr = choose|read: Result<Option<Object>, StorageError>|
            #[trigger] possible_read(object_store, spec_randomness_state_object_id(), read)
                && randomness == spec_shared_version_from_read(read);
        let randomness_obj_initial_shared_version = match randomness {
            Ok(v) => v,
            Err(e) => {
                proof {
                    assert(possible_read(object_store, spec_authenticator_state_object_id(), ra));
                    assert(possible_read(object_store, spec_randomness_state_object_id(), rr));
                    assert(possible_system_reads(object_store, ra, rr, rr));
                    assert(config_result_for(
                        Err::<EpochStartConfiguration, IotaError>(e),
                        spec_versions_from_reads(ra, rr, rr),
                    ));
                }
                return Err(e);
            },
        };
        let coin_deny_list_obj_initial_shared_version = get_deny_list_obj_initial_shared_version(
            object_store,
        );
        let ghost rd = choose|read: Result<Option<Object>, StorageError>|
            #[trigger] possible_read(object_store, spec_deny_list_object_id(), read)
                && coin_deny_list_obj_initial_shared_version == spec_deny_list_version_from_read(read);
        proof {
            assert(possible_read(object_store, spec_authenticator_state_object_id(), ra));
            assert(possible_read(object_store, spec_randomness_state_object_id(), rr));
            assert(possible_read(object_store, spec_deny_list_object_id(), rd));
            assert(possible_system_reads(object_store, ra, rr, rd));
        }
        let flags = match initial_epoch_flags {
            Some(f) => f,
            None => EpochFlag::default_flags_for_new_epoch(),
        };
        Ok(
            EpochStartConfiguration::V5(
                EpochStartConfigurationV5 {
                    system_state,
                    epoch_digest,
                    flags,
                    authenticator_obj_initial_shared_version,
                    randomness_obj_initial_shared_version,
                    coin_deny_list_obj_initial_shared_version,
                },
            ),
        )
    }

    /// The epoch number, start time and starting digest.
    pub fn epoch_data(&self) -> (r: EpochData)
        ensures
            r.spec_epoch_id() == self.spec_system_state().epoch,
            r.spec_epoch_start_timestamp() == self.spec_system_state().epoch_start_timestamp_ms,
            r.spec_epoch_digest() == self.spec_epoch_digest(),
    {
        EpochData::new(
            self.epoch_start_state().epoch(),
            self.epoch_start_state().epoch_start_timestamp_ms(),
            self.epoch_digest(),
        )
    }

    /// When the epoch started.
    pub fn epoch_start_timestamp_ms(&self) -> (r: CheckpointTimestamp)
        ensures
            r == self.spec_system_state().epoch_start_timestamp_ms,
    {
        self.epoch_start_state().epoch_start_timestamp_ms()
    }
}

impl EpochStartConfigTrait for EpochStartConfiguration {
    fn epoch_digest(&self) -> (r: CheckpointDigest)
        ensures
            r == self.spec_epoch_digest(),
    {
        match self {
            EpochStartConfiguration::V1(c) => c.epoch_digest(),
            EpochStartConfiguration::V2(c) => c.epoch_digest(),
            EpochStartConfiguration::V3(c) => c.epoch_digest(),
            EpochStartConfiguration::V4(c) => c.epoch_digest(),
            EpochStartConfiguration::V5(c) => c.epoch_digest(),
        }
    }

    fn epoch_start_state(&self) -> (r: &EpochStartSystemState)
        ensures
            *r == self.spec_system_state(),
    {
        match self {
            EpochStartConfiguration::V1(c) => c.epoch_start_state(),
            EpochStartConfiguration::V2(c) => c.epoch_start_state(),
            EpochStartConfiguration::V3(c) => c.epoch_start_state(),
            EpochStartConfiguration::V4(c) => c.epoch_start_state(),
            EpochStartConfiguration::V5(c) => c.epoch_start_state(),
        }
    }

    fn flags(&self) -> (r: &[EpochFlag])
        ensures
            r@ == self.spec_flags(),
    {
        match self {
            EpochStartConfiguration::V1(c) => c.flags(),
            EpochStartConfiguration::V2(c) => c.flags(),
            EpochStartConfiguration::V3(c) => c.flags(),
            EpochStartConfiguration::V4(c) => c.flags(),
            EpochStartConfiguration::V5(c) => c.flags(),
        }
    }

    fn authenticator_obj_initial_shared_version(&self) -> (r: Option<SequenceNumber>)
        ensures
            r == self.spec_authenticator_version(),
    {
        match self {
            EpochStartConfiguration::V1(c) => c.authenticator_obj_initial_shared_version(),
            EpochStartConfiguration::V2(c) => c.authenticator_obj_initial_shared_version(),
            EpochStartConfiguration::V3(c) => c.authenticator_obj_initial_shared_version(),
            EpochStartConfiguration::V4(c) => c.authenticator_obj_initial_shared_version(),
            EpochStartConfiguration::V5(c) => c.authenticator_obj_initial_shared_version(),
        }
    }

    fn randomness_obj_initial_shared_version(&self) -> (r: Option<SequenceNumber>)
        ensures
            r == self.spec_randomness_version(),
    {
        match self {
            EpochStartConfiguration::V1(c) => c.randomness_obj_initial_shared_version(),
            EpochStartConfiguration::V2(c) => c.randomness_obj_initial_shared_version(),
            EpochStartConfiguration::V3(c) => c.randomness_obj_initial_shared_version(),
            EpochStartConfiguration::V4(c) => c.randomness_obj_initial_shared_version(),
            EpochStartConfiguration::V5(c) => c.randomness_obj_initial_shared_version(),
        }
    }

    fn coin_deny_list_obj_initial_shared_version(&self) -> (r: Option<SequenceNumber>)
        ensures
            r == self.spec_coin_deny_list_version(),
    {
        match self {
            EpochStartConfiguration::V1(c) => c.coin_deny_list_obj_initial_shared_version(),
            EpochStartConfiguration::V2(c) => c.coin_deny_list_obj_initial_shared_version(),
            EpochStartConfiguration::V3(c) => c.coin_deny_list_obj_initial_shared_version(),
            EpochStartConfiguration::V4(c) => c.coin_deny_list_obj_initial_shared_version(),
            EpochStartConfiguration::V5(c) => c.coin_deny_list_obj_initial_shared_version(),
        }
    }
}

/// Each layout holds only the fields that it introduced and those of earlier
/// layouts: the first has no flags, and a system object version is present
/// only from the layout that added it.
pub proof fn lemma_layout_fields(c: EpochStartConfiguration)
    ensures
        c is V1 ==> c.spec_flags() == Seq::<EpochFlag>::empty(),
        (c is V1 || c is V2) ==> c.spec_authenticator_version() is None,
        (c is V1 || c is V2 || c is V3) ==> c.spec_randomness_version() is None,
        !(c is V5) ==> c.spec_coin_deny_list_version() is None,
{
}

} // verus!
