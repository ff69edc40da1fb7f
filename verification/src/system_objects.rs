//! The shared system objects: whether they exist and since which version
//! they are shared.
use vstd::prelude::*;

use crate::base_types::{
    low_bytes_seq, IotaAddress, iota_authenticator_state_object_id, iota_randomness_state_object_id,
    spec_authenticator_state_object_id, spec_randomness_state_object_id, SequenceNumber,
};
use crate::error::{IotaError, IotaResult};
use crate::file_format::{CompiledModule, SignatureToken};
use crate::text::str_eq;
use crate::object::{Object, ObjectView, Owner};
use crate::storage::{opt_view, possible_read, ObjectStore, StorageError};

verus! {

/// The version at which a stored object became shared, if it is stored and shared.
pub open spec fn shared_version_of(o: Option<ObjectView>) -> Option<SequenceNumber> {
    match o {
        Some(v) => match v.owner {
            Owner::Shared { initial_shared_version } => Some(initial_shared_version),
            _ => None,
        },
        None => None,
    }
}

/// The object, if stored, is shared (as every system object is).
pub open spec fn shared_or_absent(o: Option<ObjectView>) -> bool {
    o matches Some(v) ==> v.owner is Shared
}

/// The initial shared version of an object read from the store.
fn initial_shared_version(obj: Object) -> (r: SequenceNumber)
    requires
        obj.owner is Shared,
    ensures
        shared_version_of(Some(obj.view())) == Some(r),
{
    match obj.owner {
        Owner::Shared { initial_shared_version } => initial_shared_version,
        _ => {
            proof {
                assert(false);
            }
            SequenceNumber(0)
        },
    }
}

/// What a read of a system object gives: its storage error, or the version at
/// which the object, if stored, became shared.
pub open spec fn spec_shared_version_from_read(read: Result<Option<Object>, StorageError>) -> IotaResult<
    Option<SequenceNumber>,
> {
    match read {
        Ok(o) => Ok(shared_version_of(opt_view(o))),
        Err(e) => Err(IotaError::Storage(e)),
    }
}

/// Maps the result of reading a system object: a failed read is its storage
/// error, a missing object `None`, and a stored one the version at which it
/// became shared (a system object is always shared).
pub fn shared_version_from_read(read: Result<Option<Object>, StorageError>) -> (r: IotaResult<
    Option<SequenceNumber>,
>)
    requires
        read matches Ok(Some(o)) ==> o.owner is Shared,
    ensures
        r == spec_shared_version_from_read(read),
{
    match read {
        Ok(Some(obj)) => Ok(Some(initial_shared_version(obj))),
        Ok(None) => Ok(None),
        Err(e) => Err(IotaError::Storage(e)),
    }
}

/// Reads the initial shared version of the object under a system identifier.
fn system_obj_initial_shared_version<S: ObjectStore>(
    object_store: &S,
    id: &crate::base_types::ObjectID,
) -> (r: IotaResult<Option<SequenceNumber>>)
    requires
        shared_or_absent(object_store.stored_object(*id)),
    ensures
        exists|read: Result<Option<Object>, StorageError>|
            #[trigger] possible_read(object_store, *id, read) && r == spec_shared_version_from_read(
                read,
            ),
        r matches Ok(v) ==> v == shared_version_of(object_store.stored_object(*id)),
        r is Err ==> r matches Err(IotaError::Storage(_)),
        object_store.reads_never_fail() ==> r is Ok,
{
    let read = object_store.get_object(id);
    proof {
        assert(possible_read(object_store, *id, read));
    }
    shared_version_from_read(read)
}

/// The version at which the authenticator state object became shared, or
/// `None` when it does not exist.
pub fn get_authenticator_state_obj_initial_shared_version<S: ObjectStore>(object_store: &S) -> (r:
    IotaResult<Option<SequenceNumber>>)
    requires
        shared_or_absent(object_store.stored_object(spec_authenticator_state_object_id())),
    ensures
        exists|read: Result<Option<Object>, StorageError>|
            #[trigger] possible_read(object_store, spec_authenticator_state_object_id(), read) && r
                == spec_shared_version_from_read(read),
        r matches Ok(v) ==> v == shared_version_of(
            object_store.stored_object(spec_authenticator_state_object_id()),
        ),
        r is Err ==> r matches Err(IotaError::Storage(_)),
        object_store.reads_never_fail() ==> r is Ok,
{
    let id = iota_authenticator_state_object_id();
    system_obj_initial_shared_version(object_store, &id)
}

/// The version at which the randomness state object became shared, or `None`
/// when it does not exist.
pub fn get_randomness_state_obj_initial_shared_version<S: ObjectStore>(object_store: &S) -> (r:
    IotaResult<Option<SequenceNumber>>)
    requires
        shared_or_absent(object_store.stored_object(spec_randomness_state_object_id())),
    ensures
        exists|read: Result<Option<Object>, StorageError>|
            #[trigger] possible_read(object_store, spec_randomness_state_object_id(), read) && r
                == spec_shared_version_from_read(read),
        r matches Ok(v) ==> v == shared_version_of(
            object_store.stored_object(spec_randomness_state_object_id()),
        ),
        r is Err ==> r matches Err(IotaError::Storage(_)),
        object_store.reads_never_fail() ==> r is Ok,
{
    let id = iota_randomness_state_object_id();
    system_obj_initial_shared_version(object_store, &id)
}

/// The module of the randomness state struct.
pub const RANDOMNESS_MODULE_NAME: &'static str = "random";

/// The name of the randomness state struct.
pub const RANDOMNESS_STATE_STRUCT_NAME: &'static str = "Random";

/// The struct handle `idx`, its module handle, address and names are in the
/// module's tables.
pub open spec fn struct_resolvable(m: CompiledModule, idx: u16) -> bool {
    &&& (idx as int) < m.struct_handles@.len()
    &&& (m.struct_handles@[idx as int].module as int) < m.module_handles@.len()
    &&& (m.struct_handles@[idx as int].name as int) < m.identifiers@.len()
    &&& (m.module_handles@[m.struct_handles@[idx as int].module as int].address as int)
        < m.address_identifiers@.len()
    &&& (m.module_handles@[m.struct_handles@[idx as int].module as int].name as int)
        < m.identifiers@.len()
}

/// The struct handle `idx` names `0x2::random::Random`, the randomness state.
pub open spec fn is_randomness_state_struct(m: CompiledModule, idx: u16) -> bool {
    let sh = m.struct_handles@[idx as int];
    let mh = m.module_handles@[sh.module as int];
    &&& m.address_identifiers@[mh.address as int].0@ == low_bytes_seq(0, 2)
    &&& m.identifiers@[mh.name as int]@ == RANDOMNESS_MODULE_NAME@
    &&& m.identifiers@[sh.name as int]@ == RANDOMNESS_STATE_STRUCT_NAME@
}

/// The struct handles that `is_mutable_random` resolves are in the tables.
pub open spec fn random_check_resolvable(m: CompiledModule, s: SignatureToken) -> bool
    decreases s,
{
    match s {
        SignatureToken::MutableReference(inner) => random_check_resolvable(m, *inner),
        SignatureToken::Struct(idx) => struct_resolvable(m, idx),
        _ => true,
    }
}

/// The type is the randomness state, under any number of mutable references.
pub open spec fn spec_is_mutable_random(m: CompiledModule, s: SignatureToken) -> bool
    decreases s,
{
    match s {
        SignatureToken::MutableReference(inner) => spec_is_mutable_random(m, *inner),
        SignatureToken::Struct(idx) => is_randomness_state_struct(m, idx),
        _ => false,
    }
}

/// Whether the type is the randomness state, under any number of mutable
/// references.
pub fn is_mutable_random(view: &CompiledModule, s: &SignatureToken) -> (r: bool)
    requires
        random_check_resolvable(*view, *s),
    ensures
        r == spec_is_mutable_random(*view, *s),
    decreases s,
{
    if let SignatureToken::MutableReference(inner) = s {
        let t: &SignatureToken = &**inner;
        let r = is_mutable_random(view, t);
        assert(spec_is_mutable_random(*view, *s) == spec_is_mutable_random(*view, *t));
        return r;
    }
    match s {
        SignatureToken::Struct(idx) => {
            let sh = view.struct_handles[*idx as usize];
            let mh = view.module_handles[sh.module as usize];
            let address = view.address_identifiers[mh.address as usize];
            let framework = IotaAddress(crate::base_types::ObjectID::from_low_bytes(0, 2).0);
            proof {
                if address.0@ == framework.0@ {
                    assert forall|j: int| 0 <= j < 32 implies address.0[j] == framework.0[j] by {
                        assert(address.0@[j] == framework.0@[j]);
                    }
                    crate::base_types::lemma_arrays_eq(address.0, framework.0);
                }
            }
            address.equals(&framework) && str_eq(
                view.identifiers[mh.name as usize].as_str(),
                RANDOMNESS_MODULE_NAME,
            ) && str_eq(view.identifiers[sh.name as usize].as_str(), RANDOMNESS_STATE_STRUCT_NAME)
        },
        _ => false,
    }
}

} // verus!
