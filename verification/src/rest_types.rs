//! The JSON form in which the REST interface gives out objects.
use vstd::prelude::*;

use crate::base_types::{ObjectDigest, ObjectID, TransactionDigest};
use crate::move_types::{StructTag, StructTagView};
use crate::object::{
    Data, DataView, Object, ObjectView, Owner, TypeOrigin, TypeOriginView, UpgradeInfo,
};

verus! {

/// Name of the header that carries the chain identifier.
pub const X_IOTA_CHAIN_ID: &'static str = "x-iota-chain-id";

/// Name of the header that carries the current checkpoint height.
pub const X_IOTA_CHECKPOINT_HEIGHT: &'static str = "x-iota-checkpoint-height";

/// Name of the header that carries the oldest checkpoint not pruned.
pub const X_IOTA_OLDEST_CHECKPOINT_HEIGHT: &'static str = "x-iota-oldest-checkpoint-height";

/// Name of the header that carries the current epoch.
pub const X_IOTA_EPOCH: &'static str = "x-iota-epoch";

/// Name of the header that carries the cursor of the next page of a listing.
pub const X_IOTA_CURSOR: &'static str = "x-iota-cursor";

/// Name of the header that carries the chain's time, in milliseconds since
/// the Unix epoch.
pub const X_IOTA_TIMESTAMP_MS: &'static str = "x-iota-timestamp-ms";

/// The type of an object: a package, or a Move struct.
#[derive(Debug, PartialEq, Eq)]
pub enum ObjectType {
    Package,
    Struct(StructTag),
}

/// The mathematical value of an `ObjectType`.
pub enum ObjectTypeView {
    Package,
    Struct(StructTagView),
}

impl ObjectType {
    pub open spec fn view(&self) -> ObjectTypeView {
        match self {
            ObjectType::Package => ObjectTypeView::Package,
            ObjectType::Struct(t) => ObjectTypeView::Struct(t.view()),
        }
    }
}

/// A package as given out: its modules by name, where its types were first
/// defined, and the versions of its dependencies.
#[derive(Debug, PartialEq, Eq)]
pub struct JsonPackage {
    pub module_map: Vec<(String, Vec<u8>)>,
    pub type_origin_table: Vec<TypeOrigin>,
    pub linkage_table: Vec<(ObjectID, UpgradeInfo)>,
}

/// A Move object as given out: its serialized contents.
#[derive(Debug, PartialEq, Eq)]
pub struct JsonMoveObject {
    pub has_public_transfer: bool,
    pub content: Vec<u8>,
}

/// The content of an object as given out.
#[derive(Debug, PartialEq, Eq)]
pub enum JsonObjectData {
    Move(JsonMoveObject),
    Package(JsonPackage),
}

/// An object as given out.
#[derive(Debug, PartialEq, Eq)]
pub struct JsonObject {
    pub object_id: ObjectID,
    pub version: u64,
    pub digest: ObjectDigest,
    pub owner: Owner,
    pub previous_transaction: TransactionDigest,
    pub storage_rebate: u64,
    pub type_: ObjectType,
    pub data: JsonObjectData,
}

/// The mathematical value of a `JsonPackage`.
pub struct JsonPackageView {
    pub module_map: Seq<(Seq<char>, Seq<u8>)>,
    pub type_origin_table: Seq<TypeOriginView>,
    pub linkage_table: Seq<(ObjectID, UpgradeInfo)>,
}

/// The mathematical value of `JsonObjectData`.
pub enum JsonObjectDataView {
    Move { has_public_transfer: bool, content: Seq<u8> },
    Package(JsonPackageView),
}

/// The mathematical value of a `JsonObject`.
pub struct JsonObjectView {
    pub object_id: ObjectID,
    pub version: u64,
    pub digest: ObjectDigest,
    pub owner: Owner,
    pub previous_transaction: TransactionDigest,
    pub storage_rebate: u64,
    pub type_: ObjectTypeView,
    pub data: JsonObjectDataView,
}

impl JsonObject {
    pub open spec fn view(&self) -> JsonObjectView {
        JsonObjectView {
            object_id: self.object_id,
            version: self.version,
            digest: self.digest,
            owner: self.owner,
            previous_transaction: self.previous_transaction,
            storage_rebate: self.storage_rebate,
            type_: self.type_.view(),
            data: match &self.data {
                JsonObjectData::Move(m) => JsonObjectDataView::Move {
                    has_public_transfer: m.has_public_transfer,
                    content: m.content@,
                },
                JsonObjectData::Package(p) => JsonObjectDataView::Package(
                    JsonPackageView {
                        module_map: p.module_map@.map_values(
                            |e: (String, Vec<u8>)| (e.0@, e.1@),
                        ),
                        type_origin_table: p.type_origin_table@.map_values(
                            |o: TypeOrigin| o.view(),
                        ),
                        linkage_table: p.linkage_table@,
                    },
                ),
            },
        }
    }
}

/// The JSON form of an object whose digest is `digest`.
pub open spec fn json_of(o: ObjectView, digest: ObjectDigest) -> JsonObjectView {
    JsonObjectView {
        object_id: o.id(),
        version: o.version().0,
        digest,
        owner: o.owner,
        previous_transaction: o.previous_transaction,
        storage_rebate: o.storage_rebate,
        type_: match o.data {
            DataView::Move(m) => ObjectTypeView::Struct(m.type_),
            DataView::Package(_) => ObjectTypeView::Package,
        },
        data: match o.data {
            DataView::Move(m) => JsonObjectDataView::Move {
                has_public_transfer: m.has_public_transfer,
                content: m.contents,
            },
            DataView::Package(p) => JsonObjectDataView::Package(
                JsonPackageView {
                    module_map: p.module_map,
                    type_origin_table: p.type_origin_table,
                    linkage_table: p.linkage_table,
                },
            ),
        },
    }
}

impl JsonObject {
    /// The JSON form of `object`. Its digest, which is computed over the
    /// object's serialized form, is given by the caller.
    pub fn from_object(object: &Object, digest: ObjectDigest) -> (r: JsonObject)
        requires
            object.view().wf(),
        ensures
            r.view() == json_of(object.view(), digest),
    {
        let (type_, data) = match &object.data {
            Data::Move(m) => (
                ObjectType::Struct(m.type_.duplicate()),
                JsonObjectData::Move(
                    JsonMoveObject {
                        has_public_transfer: m.has_public_transfer,
                        content: m.contents.clone(),
                    },
                ),
            ),
            Data::Package(p) => (
                ObjectType::Package,
                JsonObjectData::Package(
                    JsonPackage {
                        module_map: p.serialized_module_map(),
                        type_origin_table: p.type_origin_table(),
                        linkage_table: p.linkage_table(),
                    },
                ),
            ),
        };
        let version = object.version().0;
        let object_id = object.id();
        JsonObject {
            object_id,
            version,
            digest,
            owner: object.owner,
            previous_transaction: object.previous_transaction,
            storage_rebate: object.storage_rebate,
            type_,
            data,
        }
    }
}

} // verus!
