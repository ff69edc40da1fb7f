//! Errors of the library.
use vstd::prelude::*;

use crate::base_types::{IotaAddress, ObjectID, SequenceNumber};
use crate::storage::StorageError;

verus! {

/// Errors of node operations.
#[derive(Debug, PartialEq, Eq)]
pub enum IotaError {
    /// The store could not be read.
    Storage(StorageError),
    /// A dynamic field is missing, is not a Move object, or does not decode.
    DynamicFieldRead,
    /// The input of a transaction is refused.
    UserInput(UserInputError),
}

/// Errors in the input of a transaction.
#[derive(Debug, PartialEq, Eq)]
pub enum UserInputError {
    /// The address is on the deny list of the coin type.
    AddressDeniedForCoin { address: IotaAddress, coin_type: String },
    /// An input object is missing (at the version given, if one is).
    ObjectNotFound { object_id: ObjectID, version: Option<SequenceNumber> },
    /// A package that the transaction depends on is missing.
    DependentPackageNotFound { package_id: ObjectID },
    /// A Move object was given where a package was expected.
    MoveObjectAsPackage { object_id: ObjectID },
}

/// The result of node operations.
pub type IotaResult<T> = Result<T, IotaError>;

/// The result of checking the input of a transaction.
pub type UserInputResult = Result<(), UserInputError>;

} // verus!
