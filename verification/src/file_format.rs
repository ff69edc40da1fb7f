//! The parts of the Move binary format that the verifier passes read:
//! instructions, function bodies, handles, signature types and the tables of
//! a compiled module.
use vstd::prelude::*;

use crate::annotated_visitor::U256;
use crate::base_types::IotaAddress;

verus! {

/// A Move bytecode instruction, with its operands (indices into the module's
/// tables, offsets, locals and constants).
#[derive(Clone, Copy, Debug, PartialEq, Eq)]
pub enum Bytecode {
    Pop,
    Ret,
    BrTrue(u16),
    BrFalse(u16),
    Branch(u16),
    LdU8(u8),
    LdU16(u16),
    LdU32(u32),
    LdU64(u64),
    LdU128(u128),
    LdU256(U256),
    CastU8,
    CastU16,
    CastU32,
    CastU64,
    CastU128,
    CastU256,
    LdConst(u16),
    LdTrue,
    LdFalse,
    CopyLoc(u8),
    MoveLoc(u8),
    StLoc(u8),
    Call(u16),
    CallGeneric(u16),
    Pack(u16),
    PackGeneric(u16),
    Unpack(u16),
    UnpackGeneric(u16),
    ReadRef,
    WriteRef,
    FreezeRef,
    MutBorrowLoc(u8),
    ImmBorrowLoc(u8),
    MutBorrowField(u16),
    MutBorrowFieldGeneric(u16),
    ImmBorrowField(u16),
    ImmBorrowFieldGeneric(u16),
    Add,
    Sub,
    Mul,
    Mod,
    Div,
    BitOr,
    BitAnd,
    Xor,
    Shl,
    Shr,
    Or,
    And,
    Not,
    Eq,
    Neq,
    Lt,
    Gt,
    Le,
    Ge,
    Abort,
    Nop,
    VecPack(u16, u64),
    VecLen(u16),
    VecImmBorrow(u16),
    VecMutBorrow(u16),
    VecPushBack(u16),
    VecPopBack(u16),
    VecUnpack(u16, u64),
    VecSwap(u16),
    MoveFromDeprecated(u16),
    MoveFromGenericDeprecated(u16),
    MoveToDeprecated(u16),
    MoveToGenericDeprecated(u16),
    ImmBorrowGlobalDeprecated(u16),
    MutBorrowGlobalDeprecated(u16),
    ImmBorrowGlobalGenericDeprecated(u16),
    MutBorrowGlobalGenericDeprecated(u16),
    ExistsDeprecated(u16),
    ExistsGenericDeprecated(u16),
}

/// The body of a function.
#[derive(Debug, PartialEq, Eq)]
pub struct CodeUnit {
    pub code: Vec<Bytecode>,
}

/// A function defined in a module; native functions have no code.
#[derive(Debug, PartialEq, Eq)]
pub struct FunctionDefinition {
    /// Index of the function's handle.
    pub function: u16,
    pub code: Option<CodeUnit>,
}

/// How a function is referred to.
#[derive(Clone, Copy, Debug, PartialEq, Eq)]
pub struct FunctionHandle {
    /// Index of the function's name among the module's identifiers.
    pub name: u16,
}

/// How a struct is referred to: the module that defines it, and its name.
#[derive(Clone, Copy, Debug, PartialEq, Eq)]
pub struct StructHandle {
    /// Index of the defining module's handle.
    pub module: u16,
    /// Index of the struct's name among the module's identifiers.
    pub name: u16,
}

/// How a module is referred to: its address and name.
#[derive(Clone, Copy, Debug, PartialEq, Eq)]
pub struct ModuleHandle {
    /// Index of the module's address among the module's addresses.
    pub address: u16,
    /// Index of the module's name among the module's identifiers.
    pub name: u16,
}

/// The type of a value in a signature.
#[derive(Debug, PartialEq, Eq)]
pub enum SignatureToken {
    Bool,
    U8,
    U64,
    U128,
    Address,
    Signer,
    Vector(Box<SignatureToken>),
    /// A struct, by the index of its handle.
    Struct(u16),
    /// A generic struct with its type arguments.
    StructInstantiation(Box<(u16, Vec<SignatureToken>)>),
    Reference(Box<SignatureToken>),
    MutableReference(Box<SignatureToken>),
    TypeParameter(u16),
    U16,
    U32,
    U256,
}

/// The tables of a compiled module that are read here.
#[derive(Debug, PartialEq, Eq)]
pub struct CompiledModule {
    pub module_handles: Vec<ModuleHandle>,
    pub struct_handles: Vec<StructHandle>,
    pub function_handles: Vec<FunctionHandle>,
    pub identifiers: Vec<String>,
    pub address_identifiers: Vec<IotaAddress>,
    pub function_defs: Vec<FunctionDefinition>,
}

} // verus!
