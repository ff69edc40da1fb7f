//! Objects: Move values and packages owned by addresses, objects or shared.
use vstd::prelude::*;

use crate::base_types::{lemma_arrays_eq, IotaAddress, ObjectID, SequenceNumber, TransactionDigest};
use crate::move_types::{StructTag, StructTagView};
use crate::migration::bytes_lt;
use vstd::utf8::encode_utf8;

verus! {

/// Who owns an object.
#[derive(Clone, Copy, Debug, PartialEq, Eq)]
pub enum Owner {
    /// Owned by an address.
    AddressOwner(IotaAddress),
    /// Owned by another object.
    ObjectOwner(IotaAddress),
    /// Shared, with the version at which it became shared.
    Shared { initial_shared_version: SequenceNumber },
    /// Frozen.
    Immutable,
}

/// A Move value stored as an object: its type and BCS contents, which start
/// with the 32 bytes of the object's identifier.
#[derive(Debug, PartialEq, Eq)]
pub struct MoveObject {
    pub type_: StructTag,
    pub has_public_transfer: bool,
    pub version: SequenceNumber,
    pub contents: Vec<u8>,
}

/// Where a struct or module of a package was first defined.
#[derive(Debug, PartialEq, Eq)]
pub struct TypeOrigin {
    pub module_name: String,
    pub datatype_name: String,
    pub package: ObjectID,
}

/// The version of a dependency that a package links against.
#[derive(Clone, Copy, Debug, PartialEq, Eq)]
pub struct UpgradeInfo {
    pub upgraded_id: ObjectID,
    pub upgraded_version: SequenceNumber,
}

/// A published Move package.
#[derive(Debug, PartialEq, Eq)]
pub struct MovePackage {
    pub id: ObjectID,
    pub version: SequenceNumber,
    /// Serialized modules, by module name.
    pub module_map: Vec<(String, Vec<u8>)>,
    pub type_origin_table: Vec<TypeOrigin>,
    /// For each dependency, the identifier it was first published under, and
    /// the upgrade in use.
    pub linkage_table: Vec<(ObjectID, UpgradeInfo)>,
}

/// The content of an object.
#[derive(Debug, PartialEq, Eq)]
pub enum Data {
    Move(MoveObject),
    Package(MovePackage),
}

/// An object of the store.
#[derive(Debug, PartialEq, Eq)]
pub struct Object {
    pub data: Data,
    pub owner: Owner,
    pub previous_transaction: TransactionDigest,
    pub storage_rebate: u64,
}

/// The mathematical value of a `MoveObject`.
pub struct MoveObjectView {
    pub type_: StructTagView,
    pub has_public_transfer: bool,
    pub version: SequenceNumber,
    pub contents: Seq<u8>,
}

/// The mathematical value of a `TypeOrigin`.
pub struct TypeOriginView {
    pub module_name: Seq<char>,
    pub datatype_name: Seq<char>,
    pub package: ObjectID,
}

/// The mathematical value of a `MovePackage`.
pub struct MovePackageView {
    pub id: ObjectID,
    pub version: SequenceNumber,
    pub module_map: Seq<(Seq<char>, Seq<u8>)>,
    pub type_origin_table: Seq<TypeOriginView>,
    pub linkage_table: Seq<(ObjectID, UpgradeInfo)>,
}

impl MovePackageView {
    /// The module map and the linkage table are maps, as the package holds
    /// them: each module name (by its bytes) and each dependency identifier
    /// once, in increasing order.
    pub open spec fn wf(self) -> bool {
        &&& forall|i: int, j: int|
            0 <= i < j < self.module_map.len() ==> bytes_lt(
                encode_utf8((#[trigger] self.module_map[i]).0),
                encode_utf8((#[trigger] self.module_map[j]).0),
            )
        &&& forall|i: int, j: int|
            0 <= i < j < self.linkage_table.len() ==> bytes_lt(
                (#[trigger] self.linkage_table[i]).0.0@,
                (#[trigger] self.linkage_table[j]).0.0@,
            )
    }
}

/// The mathematical value of `Data`.
pub enum DataView {
    Move(MoveObjectView),
    Package(MovePackageView),
}

/// The mathematical value of an `Object`.
pub struct ObjectView {
    pub data: DataView,
    pub owner: Owner,
    pub previous_transaction: TransactionDigest,
    pub storage_rebate: u64,
}

impl MoveObject {
    pub open spec fn view(&self) -> MoveObjectView {
        MoveObjectView {
            type_: self.type_.view(),
            has_public_transfer: self.has_public_transfer,
            version: self.version,
            contents: self.contents@,
        }
    }
}

impl TypeOrigin {
    pub open spec fn view(&self) -> TypeOriginView {
        TypeOriginView {
            module_name: self.module_name@,
            datatype_name: self.datatype_name@,
            package: self.package,
        }
    }

    /// A copy of the entry.
    pub fn duplicate(&self) -> (r: TypeOrigin)
        ensures
            r.view() == self.view(),
    {
        TypeOrigin {
            module_name: self.module_name.clone(),
            datatype_name: self.datatype_name.clone(),
            package: self.package,
        }
    }
}

impl MovePackage {
    pub open spec fn view(&self) -> MovePackageView {
        MovePackageView {
            id: self.id,
            version: self.version,
            module_map: self.module_map@.map_values(|e: (String, Vec<u8>)| (e.0@, e.1@)),
            type_origin_table: self.type_origin_table@.map_values(|t: TypeOrigin| t.view()),
            linkage_table: self.linkage_table@,
        }
    }
}

impl Data {
    pub open spec fn view(&self) -> DataView {
        match self {
            Data::Move(m) => DataView::Move(m.view()),
            Data::Package(p) => DataView::Package(p.view()),
        }
    }
}

impl ObjectView {
    /// The identifier: the first 32 bytes of a Move object's contents, or the
    /// package's own identifier.
    pub open spec fn id(self) -> ObjectID {
        match self.data {
            DataView::Move(m) => choose|id: ObjectID| id.0@ == m.contents.take(32),
            DataView::Package(p) => p.id,
        }
    }

    /// The version of the object.
    pub open spec fn version(self) -> SequenceNumber {
        match self.data {
            DataView::Move(m) => m.version,
            DataView::Package(p) => p.version,
        }
    }

    /// A Move object's contents hold at least its identifier; a package's
    /// tables are maps, each key once and in increasing order.
    pub open spec fn wf(self) -> bool {
        match self.data {
            DataView::Move(m) => m.contents.len() >= 32,
            DataView::Package(p) => p.wf(),
        }
    }
}

/// Copies the serialized modules of a package.
fn copy_module_map(m: &Vec<(String, Vec<u8>)>) -> (r: Vec<(String, Vec<u8>)>)
    ensures
        r@.map_values(|e: (String, Vec<u8>)| (e.0@, e.1@)) == m@.map_values(
            |e: (String, Vec<u8>)| (e.0@, e.1@),
        ),
{
    let mut r: Vec<(String, Vec<u8>)> = Vec::new();
    let mut i: usize = 0;
    while i < m.len()
        invariant
            i <= m@.len(),
            r@.len() == i,
            forall|j: int| 0 <= j < i ==> r@[j].0@ == m@[j].0@ && r@[j].1@ == m@[j].1@,
        decreases m@.len() - i,
    {
        let name = m[i].0.clone();
        let bytes = m[i].1.clone();
        r.push((name, bytes));
        i = i + 1;
    }
    assert(r@.map_values(|e: (String, Vec<u8>)| (e.0@, e.1@)) =~= m@.map_values(
        |e: (String, Vec<u8>)| (e.0@, e.1@),
    ));
    r
}

/// Copies a type origin table.
fn copy_type_origins(t: &Vec<TypeOrigin>) -> (r: Vec<TypeOrigin>)
    ensures
        r@.map_values(|o: TypeOrigin| o.view()) == t@.map_values(|o: TypeOrigin| o.view()),
{
    let mut r: Vec<TypeOrigin> = Vec::new();
    let mut i: usize = 0;
    while i < t.len()
        invariant
            i <= t@.len(),
            r@.len() == i,
            forall|j: int| 0 <= j < i ==> r@[j].view() == t@[j].view(),
        decreases t@.len() - i,
    {
        r.push(t[i].duplicate());
        i = i + 1;
    }
    assert(r@.map_values(|o: TypeOrigin| o.view()) =~= t@.map_values(|o: TypeOrigin| o.view()));
    r
}

/// Copies a linkage table.
fn copy_linkage(t: &Vec<(ObjectID, UpgradeInfo)>) -> (r: Vec<(ObjectID, UpgradeInfo)>)
    ensures
        r@ == t@,
{
    let mut r: Vec<(ObjectID, UpgradeInfo)> = Vec::new();
    let mut i: usize = 0;
    while i < t.len()
        invariant
            i <= t@.len(),
            r@ == t@.take(i as int),
        decreases t@.len() - i,
    {
        r.push(t[i]);
        i = i + 1;
        assert(r@ =~= t@.take(i as int));
    }
    assert(t@.take(t@.len() as int) =~= t@);
    r
}

impl MovePackage {
    /// The serialized modules, by module name.
    pub fn serialized_module_map(&self) -> (r: Vec<(String, Vec<u8>)>)
        ensures
            r@.map_values(|e: (String, Vec<u8>)| (e.0@, e.1@)) == self.view().module_map,
    {
        copy_module_map(&self.module_map)
    }

    /// The type origin table.
    pub fn type_origin_table(&self) -> (r: Vec<TypeOrigin>)
        ensures
            r@.map_values(|o: TypeOrigin| o.view()) == self.view().type_origin_table,
    {
        copy_type_origins(&self.type_origin_table)
    }

    /// The linkage table.
    pub fn linkage_table(&self) -> (r: Vec<(ObjectID, UpgradeInfo)>)
        ensures
            r@ == self.view().linkage_table,
    {
        copy_linkage(&self.linkage_table)
    }

    /// A copy of the package.
    pub fn duplicate(&self) -> (r: MovePackage)
        ensures
            r.view() == self.view(),
    {
        MovePackage {
            id: self.id,
            version: self.version,
            module_map: self.serialized_module_map(),
            type_origin_table: self.type_origin_table(),
            linkage_table: self.linkage_table(),
        }
    }
}

impl MoveObject {
    /// A copy of the Move object.
    pub fn duplicate(&self) -> (r: MoveObject)
        ensures
            r.view() == self.view(),
    {
        MoveObject {
            type_: self.type_.duplicate(),
            has_public_transfer: self.has_public_transfer,
            version: self.version,
            contents: self.contents.clone(),
        }
    }
}

impl Object {
    /// The mathematical value of the object.
    pub open spec fn view(&self) -> ObjectView {
        ObjectView {
            data: self.data.view(),
            owner: self.owner,
            previous_transaction: self.previous_transaction,
            storage_rebate: self.storage_rebate,
        }
    }

    /// A copy of the object.
    pub fn duplicate(&self) -> (r: Object)
        ensures
            r.view() == self.view(),
    {
        let data = match &self.data {
            Data::Move(m) => Data::Move(m.duplicate()),
            Data::Package(p) => Data::Package(p.duplicate()),
        };
        Object {
            data,
            owner: self.owner,
            previous_transaction: self.previous_transaction,
            storage_rebate: self.storage_rebate,
        }
    }

    /// The identifier of the object.
    pub fn id(&self) -> (r: ObjectID)
        requires
            self.view().wf(),
        ensures
            r == self.view().id(),
    {
        match &self.data {
            Data::Move(m) => {
                let mut b = [0u8; 32];
                let mut i: usize = 0;
                while i < 32
                    invariant
                        i <= 32,
                        m.contents@.len() >= 32,
                        forall|j: int| 0 <= j < i ==> b@[j] == m.contents@[j],
                    decreases 32 - i,
                {
                    b[i] = m.contents[i];
                    i = i + 1;
                }
                let r = ObjectID(b);
                proof {
                    assert(r.0@ =~= m.contents@.take(32));
                    let c = self.view().id();
                    assert(c.0@ == m.contents@.take(32));
                    assert forall|j: int| 0 <= j < 32 implies r.0[j] == c.0[j] by {
                        assert(r.0@[j] == c.0@[j]);
                    }
                    lemma_arrays_eq(r.0, c.0);
                }
                r
            },
            Data::Package(p) => p.id,
        }
    }

    /// The version of the object.
    pub fn version(&self) -> (r: SequenceNumber)
        ensures
            r == self.view().version(),
    {
        match &self.data {
            Data::Move(m) => m.version,
            Data::Package(p) => p.version,
        }
    }
}

} // verus!
