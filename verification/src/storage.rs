//! Reading objects from a store, and an in-memory store.
use vstd::prelude::*;

use crate::base_types::{IotaAddress, ObjectDigest, ObjectID, SequenceNumber};
use crate::error::{IotaError, IotaResult, UserInputError};
use crate::object::{Data, DataView, Object, ObjectView, Owner};

verus! {

/// A failure of the underlying storage.
#[derive(Debug, PartialEq, Eq)]
pub struct StorageError {
    pub message: String,
}

/// The view of an optional object.
pub open spec fn opt_view(o: Option<Object>) -> Option<ObjectView> {
    match o {
        Some(obj) => Some(obj.view()),
        None => None,
    }
}

/// A source of objects by identifier. A read may fail (the store may be
/// backed by a database); when it succeeds it gives the stored object.
pub trait ObjectStore {
    /// The latest object that the store holds under `id`.
    spec fn stored_object(&self, id: ObjectID) -> Option<ObjectView>;

    /// Reads from the store always succeed (as they do from memory).
    spec fn reads_never_fail(&self) -> bool;

    /// Reads the latest object under `object_id`.
    fn get_object(&self, object_id: &ObjectID) -> (r: Result<Option<Object>, StorageError>)
        ensures
            r matches Ok(o) ==> opt_view(o) == self.stored_object(*object_id),
            self.reads_never_fail() ==> r is Ok,
    ;
}

/// A result that a read of `id` from `store` may give: the stored object
/// when it succeeds, and never a failure from a store whose reads never fail.
pub open spec fn possible_read<S: ObjectStore>(
    store: &S,
    id: ObjectID,
    read: Result<Option<Object>, StorageError>,
) -> bool {
    &&& read matches Ok(o) ==> opt_view(o) == store.stored_object(id)
    &&& store.reads_never_fail() ==> read is Ok
}

/// A store that holds its objects in memory, keyed by identifier.
pub struct InMemoryObjectStore {
    objects: Vec<(ObjectID, Object)>,
}

/// The object under `id` in a list of keyed objects (the first one).
pub open spec fn lookup(entries: Seq<(ObjectID, Object)>, id: ObjectID) -> Option<ObjectView>
    decreases entries.len(),
{
    if entries.len() == 0 {
        None
    } else if entries[0].0 == id {
        Some(entries[0].1.view())
    } else {
        lookup(entries.drop_first(), id)
    }
}

/// No key occurs twice.
pub open spec fn keys_unique(entries: Seq<(ObjectID, Object)>) -> bool {
    forall|i: int, j: int| 0 <= i < j < entries.len() ==> entries[i].0 != entries[j].0
}

impl InMemoryObjectStore {
    /// The objects of the store, by key.
    pub closed spec fn entries(&self) -> Seq<(ObjectID, Object)> {
        self.objects@
    }

    /// The keys are those of a map: none occurs twice.
    pub closed spec fn wf(&self) -> bool {
        keys_unique(self.objects@)
    }

    /// A store holding the given objects, keyed as given.
    pub fn new(objects: Vec<(ObjectID, Object)>) -> (r: Self)
        requires
            keys_unique(objects@),
        ensures
            r.wf(),
            r.entries() == objects@,
    {
        InMemoryObjectStore { objects }
    }

    /// Reads the object under `object_id` and its version is `version`.
    pub fn get_object_by_key(&self, object_id: &ObjectID, version: SequenceNumber) -> (r: Result<
        Option<Object>,
        StorageError,
    >)
        ensures
            match r {
                Ok(o) => opt_view(o) == match lookup(self.entries(), *object_id) {
                    Some(v) => if v.version() == version { Some(v) } else { None },
                    None => None,
                },
                Err(_) => false,
            },
    {
        let o = self.find(object_id);
        match o {
            Some(obj) => if obj.version().0 == version.0 {
                Ok(Some(obj))
            } else {
                Ok(None)
            },
            None => Ok(None),
        }
    }

    /// Reads the child object `child` of `parent`, if its version is at most
    /// `child_version_upper_bound` and it is owned by `parent`.
    pub fn read_child_object(
        &self,
        parent: &ObjectID,
        child: &ObjectID,
        child_version_upper_bound: SequenceNumber,
    ) -> (r: Option<Object>)
        ensures
            opt_view(r) == match lookup(self.entries(), *child) {
                Some(v) => if v.version().0 <= child_version_upper_bound.0 && v.owner
                    == Owner::ObjectOwner(IotaAddress(parent.0)) {
                    Some(v)
                } else {
                    None
                },
                None => None,
            },
    {
        match self.find(child) {
            Some(obj) => {
                let owned_by_parent = match obj.owner {
                    Owner::ObjectOwner(a) => crate::base_types::bytes32_eq(&a.0, &parent.0),
                    _ => false,
                };
                if obj.version().0 <= child_version_upper_bound.0 && owned_by_parent {
                    Some(obj)
                } else {
                    None
                }
            },
            None => None,
        }
    }

    /// Finds the object under `id` and copies it.
    fn find(&self, id: &ObjectID) -> (r: Option<Object>)
        ensures
            opt_view(r) == lookup(self.entries(), *id),
    {
        let mut i: usize = 0;
        assert(self.objects@.skip(0) =~= self.objects@);
        while i < self.objects.len()
            invariant
                i <= self.objects@.len(),
                lookup(self.objects@, *id) == lookup(self.objects@.skip(i as int), *id),
            decreases self.objects@.len() - i,
        {
            let ghost rest = self.objects@.skip(i as int);
            assert(rest.drop_first() =~= self.objects@.skip(i + 1));
            if self.objects[i].0.equals(id) {
                return Some(self.objects[i].1.duplicate());
            }
            i = i + 1;
        }
        None
    }
}

/// How a transaction names one of its input objects.
#[derive(Clone, Copy, Debug, PartialEq, Eq)]
pub enum InputObjectKind {
    /// A package, by identifier.
    MovePackage(ObjectID),
    /// An immutable or owned object, at a given version.
    ImmOrOwnedMoveObject((ObjectID, SequenceNumber, ObjectDigest)),
    /// A shared object; its version is the one the transaction was assigned.
    SharedMoveObject { id: ObjectID, initial_shared_version: SequenceNumber, mutable: bool },
}

/// An input object read for execution.
#[derive(Debug, PartialEq, Eq)]
pub struct ObjectReadResult {
    pub input_object_kind: InputObjectKind,
    pub object: Object,
}

/// The version assigned to the shared object `id` by the locks: the last
/// entry for it.
pub open spec fn lock_version(locks: Seq<(ObjectID, SequenceNumber)>, id: ObjectID) -> Option<
    SequenceNumber,
>
    decreases locks.len(),
{
    if locks.len() == 0 {
        None
    } else if locks.last().0 == id {
        Some(locks.last().1)
    } else {
        lock_version(locks.drop_last(), id)
    }
}

/// The object stored under `id` at version `version`.
pub open spec fn at_version(entries: Seq<(ObjectID, Object)>, id: ObjectID, version: SequenceNumber) -> Option<
    ObjectView,
> {
    match lookup(entries, id) {
        Some(v) => if v.version() == version {
            Some(v)
        } else {
            None
        },
        None => None,
    }
}

/// What reading an input object gives: the object, or why it cannot be read.
pub open spec fn read_input(
    entries: Seq<(ObjectID, Object)>,
    locks: Seq<(ObjectID, SequenceNumber)>,
    kind: InputObjectKind,
) -> Result<ObjectView, UserInputError> {
    match kind {
        InputObjectKind::MovePackage(id) => match lookup(entries, id) {
            Some(v) => if v.data is Package {
                Ok(v)
            } else {
                Err(UserInputError::MoveObjectAsPackage { object_id: id })
            },
            None => Err(UserInputError::DependentPackageNotFound { package_id: id }),
        },
        InputObjectKind::ImmOrOwnedMoveObject((id, version, _)) => match at_version(
            entries,
            id,
            version,
        ) {
            Some(v) => Ok(v),
            None => Err(UserInputError::ObjectNotFound { object_id: id, version: Some(version) }),
        },
        InputObjectKind::SharedMoveObject { id, .. } => match at_version(
            entries,
            id,
            lock_version(locks, id)->0,
        ) {
            Some(v) => Ok(v),
            None => Err(UserInputError::ObjectNotFound { object_id: id, version: None }),
        },
    }
}

/// Every shared input has a lock.
pub open spec fn shared_inputs_locked(
    locks: Seq<(ObjectID, SequenceNumber)>,
    kinds: Seq<InputObjectKind>,
) -> bool {
    forall|i: int|
        0 <= i < kinds.len() ==> (#[trigger] kinds[i] matches InputObjectKind::SharedMoveObject {
            id,
            ..
        } ==> lock_version(locks, id) is Some)
}

/// The position of the first input that is a shared object, if any.
pub fn first_shared_input(kinds: &[InputObjectKind]) -> (r: Option<usize>)
    ensures
        r matches Some(i) ==> i < kinds@.len() && kinds@[i as int] is SharedMoveObject,
        forall|j: int|
            0 <= j < (match r {
                Some(i) => i as int,
                None => kinds@.len() as int,
            }) ==> !(#[trigger] kinds@[j] is SharedMoveObject),
{
    let mut i: usize = 0;
    while i < kinds.len()
        invariant
            i <= kinds@.len(),
            forall|j: int| 0 <= j < i ==> !(#[trigger] kinds@[j] is SharedMoveObject),
        decreases kinds@.len() - i,
    {
        if let InputObjectKind::SharedMoveObject { .. } = kinds[i] {
            return Some(i);
        }
        i = i + 1;
    }
    None
}

/// The position of the first shared input that the locks assign no version,
/// if any: `None` exactly when every shared input is locked.
pub fn first_unlocked_shared_input(
    locks: &Vec<(ObjectID, SequenceNumber)>,
    kinds: &[InputObjectKind],
) -> (r: Option<usize>)
    ensures
        r is None <==> shared_inputs_locked(locks@, kinds@),
        r matches Some(i) ==> i < kinds@.len() && (kinds@[i as int] matches InputObjectKind::SharedMoveObject { id, .. } && lock_version(locks@, id) is None)
            && shared_inputs_locked(locks@, kinds@.take(i as int)),
{
    let mut i: usize = 0;
    while i < kinds.len()
        invariant
            i <= kinds@.len(),
            shared_inputs_locked(locks@, kinds@.take(i as int)),
        decreases kinds@.len() - i,
    {
        if let InputObjectKind::SharedMoveObject { id, .. } = kinds[i] {
            if InMemoryObjectStore::find_lock(locks, &id).is_none() {
                return Some(i);
            }
        }
        proof {
            let t = kinds@.take(i + 1);
            assert forall|j: int| 0 <= j < t.len() implies (#[trigger] t[j] matches InputObjectKind::SharedMoveObject { id, .. } ==> lock_version(locks@, id) is Some) by {
                if j < i {
                    assert(t[j] == kinds@.take(i as int)[j]);
                }
            }
        }
        i = i + 1;
    }
    assert(kinds@.take(i as int) =~= kinds@);
    None
}

impl InMemoryObjectStore {
    /// The version assigned to a shared object by the locks (the last entry).
    fn find_lock(locks: &Vec<(ObjectID, SequenceNumber)>, id: &ObjectID) -> (r: Option<
        SequenceNumber,
    >)
        ensures
            r == lock_version(locks@, *id),
    {
        let mut i: usize = locks.len();
        assert(locks@.take(i as int) =~= locks@);
        while i > 0
            invariant
                i <= locks@.len(),
                lock_version(locks@, *id) == lock_version(locks@.take(i as int), *id),
            decreases i,
        {
            let ghost t = locks@.take(i as int);
            assert(t.drop_last() =~= locks@.take(i - 1));
            if locks[i - 1].0.equals(id) {
                return Some(locks[i - 1].1);
            }
            i = i - 1;
        }
        None
    }

    /// Reads the package `id`: missing, a package, or refused as a Move object.
    fn get_package_object(&self, id: &ObjectID) -> (r: Result<Option<Object>, UserInputError>)
        ensures
            match r {
                Ok(Some(o)) => lookup(self.entries(), *id) == Some(o.view()) && o.data is Package,
                Ok(None) => lookup(self.entries(), *id) is None,
                Err(e) => (lookup(self.entries(), *id) matches Some(v) && v.data is Move) && e
                    == UserInputError::MoveObjectAsPackage { object_id: *id },
            },
    {
        match self.find(id) {
            Some(o) => match &o.data {
                Data::Package(_) => Ok(Some(o)),
                Data::Move(_) => Err(UserInputError::MoveObjectAsPackage { object_id: *id }),
            },
            None => Ok(None),
        }
    }

    /// Reads one input object.
    fn read_input_object(&self, shared_locks: &Vec<(ObjectID, SequenceNumber)>, kind: InputObjectKind) -> (r:
        IotaResult<Object>)
        requires
            kind matches InputObjectKind::SharedMoveObject { id, .. } ==> lock_version(
                shared_locks@,
                id,
            ) is Some,
        ensures
            match read_input(self.entries(), shared_locks@, kind) {
                Ok(v) => r matches Ok(o) && o.view() == v,
                Err(u) => r == Err::<Object, IotaError>(IotaError::UserInput(u)),
            },
    {
        match kind {
            InputObjectKind::MovePackage(id) => match self.get_package_object(&id) {
                Ok(Some(o)) => Ok(o),
                Ok(None) => Err(
                    IotaError::UserInput(UserInputError::DependentPackageNotFound { package_id: id }),
                ),
                Err(e) => Err(IotaError::UserInput(e)),
            },
            InputObjectKind::ImmOrOwnedMoveObject((id, version, _)) => match self.find(&id) {
                Some(o) => if o.version().0 == version.0 {
                    Ok(o)
                } else {
                    Err(
                        IotaError::UserInput(
                            UserInputError::ObjectNotFound { object_id: id, version: Some(version) },
                        ),
                    )
                },
                None => Err(
                    IotaError::UserInput(
                        UserInputError::ObjectNotFound { object_id: id, version: Some(version) },
                    ),
                ),
            },
            InputObjectKind::SharedMoveObject { id, .. } => {
                let version = match Self::find_lock(shared_locks, &id) {
                    Some(v) => v,
                    None => {
                        proof {
                            assert(false);
                        }
                        return Err(
                            IotaError::UserInput(
                                UserInputError::ObjectNotFound { object_id: id, version: None },
                            ),
                        );
                    },
                };
                match self.find(&id) {
                    Some(o) => if o.version().0 == version.0 {
                        Ok(o)
                    } else {
                        Err(
                            IotaError::UserInput(
                                UserInputError::ObjectNotFound { object_id: id, version: None },
                            ),
                        )
                    },
                    None => Err(
                        IotaError::UserInput(
                            UserInputError::ObjectNotFound { object_id: id, version: None },
                        ),
                    ),
                }
            },
        }
    }

    /// Reads the input objects of a transaction, in order: packages, owned
    /// objects at their given versions, and shared objects at the versions
    /// their locks assign. The first input that cannot be read is the error.
    pub fn read_objects_for_execution(
        &self,
        shared_locks: &Vec<(ObjectID, SequenceNumber)>,
        input_object_kinds: &[InputObjectKind],
    ) -> (r: IotaResult<Vec<ObjectReadResult>>)
        requires
            shared_inputs_locked(shared_locks@, input_object_kinds@),
        ensures
            r is Ok <==> forall|i: int|
                0 <= i < input_object_kinds@.len() ==> (#[trigger] read_input(
                    self.entries(),
                    shared_locks@,
                    input_object_kinds@[i],
                )) is Ok,
            r matches Ok(v) ==> v@.len() == input_object_kinds@.len() && forall|i: int|
                0 <= i < v@.len() ==> (#[trigger] v@[i]).input_object_kind
                    == input_object_kinds@[i] && read_input(
                    self.entries(),
                    shared_locks@,
                    input_object_kinds@[i],
                ) == Ok::<ObjectView, UserInputError>(v@[i].object.view()),
            r matches Err(e) ==> exists|k: int|
                {
                    &&& 0 <= k < input_object_kinds@.len()
                    &&& forall|j: int|
                        0 <= j < k ==> (#[trigger] read_input(
                            self.entries(),
                            shared_locks@,
                            input_object_kinds@[j],
                        )) is Ok
                    &&& read_input(self.entries(), shared_locks@, input_object_kinds@[k]) is Err
                    &&& e == IotaError::UserInput(
                        read_input(self.entries(), shared_locks@, input_object_kinds@[k])->Err_0,
                    )
                },
    {
        let mut input_objects: Vec<ObjectReadResult> = Vec::new();
        let mut i: usize = 0;
        while i < input_object_kinds.len()
            invariant
                i <= input_object_kinds@.len(),
                shared_inputs_locked(shared_locks@, input_object_kinds@),
                input_objects@.len() == i,
                forall|j: int|
                    0 <= j < i ==> (#[trigger] input_objects@[j]).input_object_kind
                        == input_object_kinds@[j] && read_input(
                        self.entries(),
                        shared_locks@,
                        input_object_kinds@[j],
                    ) == Ok::<ObjectView, UserInputError>(input_objects@[j].object.view()),
            decreases input_object_kinds@.len() - i,
        {
            let kind = input_object_kinds[i];
            proof {
                assert(input_object_kinds@[i as int] == kind);
            }
            let object = match self.read_input_object(shared_locks, kind) {
                Ok(o) => o,
                Err(e) => {
                    proof {
                        assert forall|j: int| 0 <= j < i implies (#[trigger] read_input(
                            self.entries(),
                            shared_locks@,
                            input_object_kinds@[j],
                        )) is Ok by {
                            assert(input_objects@[j].input_object_kind == input_object_kinds@[j]);
                        }
                    }
                    return Err(e);
                },
            };
            input_objects.push(ObjectReadResult { input_object_kind: kind, object });
            i = i + 1;
        }
        proof {
            assert forall|j: int| 0 <= j < input_object_kinds@.len() implies (#[trigger] read_input(
                self.entries(),
                shared_locks@,
                input_object_kinds@[j],
            )) is Ok by {
                assert(input_objects@[j].input_object_kind == input_object_kinds@[j]);
            }
        }
        Ok(input_objects)
    }
}

impl ObjectStore for InMemoryObjectStore {
    open spec fn stored_object(&self, id: ObjectID) -> Option<ObjectView> {
        lookup(self.entries(), id)
    }

    open spec fn reads_never_fail(&self) -> bool {
        true
    }

    fn get_object(&self, object_id: &ObjectID) -> (r: Result<Option<Object>, StorageError>)
        ensures
            r is Ok,
    {
        Ok(self.find(object_id))
    }
}

} // verus!
