//! Global storage is handled by the chain rather than within Move, so a
//! module whose functions access Move global storage is refused.
use vstd::prelude::*;

use crate::file_format::{Bytecode, CompiledModule, FunctionDefinition};

verus! {

/// Why a module was refused.
#[derive(Debug, PartialEq, Eq)]
pub enum ExecutionError {
    /// A function accesses Move global storage with these instructions.
    GlobalStorageAccess { function_name: String, invalid_bytecode: Vec<Bytecode> },
}

/// The instruction accesses Move global storage.
pub open spec fn is_global_storage_access(b: Bytecode) -> bool {
    ||| b is MoveFromDeprecated
    ||| b is MoveFromGenericDeprecated
    ||| b is MoveToDeprecated
    ||| b is MoveToGenericDeprecated
    ||| b is ImmBorrowGlobalDeprecated
    ||| b is MutBorrowGlobalDeprecated
    ||| b is ImmBorrowGlobalGenericDeprecated
    ||| b is MutBorrowGlobalGenericDeprecated
    ||| b is ExistsDeprecated
    ||| b is ExistsGenericDeprecated
}

/// The instructions of `code` that access global storage, in order.
pub open spec fn global_accesses(code: Seq<Bytecode>) -> Seq<Bytecode>
    decreases code.len(),
{
    if code.len() == 0 {
        Seq::empty()
    } else {
        let rest = global_accesses(code.drop_last());
        if is_global_storage_access(code.last()) {
            rest.push(code.last())
        } else {
            rest
        }
    }
}

/// The code of a function, empty for a native one.
pub open spec fn code_of(f: FunctionDefinition) -> Seq<Bytecode> {
    match f.code {
        Some(c) => c.code@,
        None => Seq::empty(),
    }
}

/// The function accesses global storage.
pub open spec fn accesses_global_storage(f: FunctionDefinition) -> bool {
    global_accesses(code_of(f)).len() > 0
}

/// The function at index `k` is the first one that accesses global storage.
pub open spec fn first_offender(defs: Seq<FunctionDefinition>, k: int) -> bool {
    &&& 0 <= k < defs.len()
    &&& accesses_global_storage(defs[k])
    &&& forall|j: int| 0 <= j < k ==> !accesses_global_storage(#[trigger] defs[j])
}

/// The function's handle and name are in the module's tables.
pub open spec fn name_resolves(m: CompiledModule, f: FunctionDefinition) -> bool {
    &&& (f.function as int) < m.function_handles.len()
    &&& (m.function_handles[f.function as int].name as int) < m.identifiers.len()
}

/// The name of a function whose handle resolves.
pub open spec fn name_of_function(m: CompiledModule, f: FunctionDefinition) -> Seq<char> {
    m.identifiers[m.function_handles[f.function as int].name as int]@
}

/// The global storage instructions of a function body, in order.
fn collect_global_accesses(code: &Vec<Bytecode>) -> (r: Vec<Bytecode>)
    ensures
        r@ == global_accesses(code@),
{
    let mut found: Vec<Bytecode> = Vec::new();
    let mut i: usize = 0;
    while i < code.len()
        invariant
            i <= code@.len(),
            found@ == global_accesses(code@.take(i as int)),
        decreases code@.len() - i,
    {
        let b = code[i];
        assert(code@.take(i + 1).drop_last() =~= code@.take(i as int));
        match b {
            Bytecode::MoveFromDeprecated(_)
            | Bytecode::MoveFromGenericDeprecated(_)
            | Bytecode::MoveToDeprecated(_)
            | Bytecode::MoveToGenericDeprecated(_)
            | Bytecode::ImmBorrowGlobalDeprecated(_)
            | Bytecode::MutBorrowGlobalDeprecated(_)
            | Bytecode::ImmBorrowGlobalGenericDeprecated(_)
            | Bytecode::MutBorrowGlobalGenericDeprecated(_)
            | Bytecode::ExistsDeprecated(_)
            | Bytecode::ExistsGenericDeprecated(_) => {
                found.push(b);
            },
            _ => {},
        }
        i = i + 1;
    }
    assert(code@.take(code@.len() as int) =~= code@);
    found
}

/// Refuses a module in which some function accesses Move global storage;
/// the error names the first such function and lists its offending
/// instructions in order.
pub fn verify_module(module: &CompiledModule) -> (r: Result<(), ExecutionError>)
    requires
        forall|k: int|
            first_offender(module.function_defs@, k) ==> name_resolves(
                *module,
                #[trigger] module.function_defs@[k],
            ),
    ensures
        r is Ok <==> forall|k: int|
            0 <= k < module.function_defs@.len() ==> !accesses_global_storage(
                #[trigger] module.function_defs@[k],
            ),
        r matches Err(ExecutionError::GlobalStorageAccess { function_name, invalid_bytecode })
            ==> exists|k: int|
            {
                &&& first_offender(module.function_defs@, k)
                &&& function_name@ == name_of_function(*module, module.function_defs@[k])
                &&& invalid_bytecode@ == global_accesses(code_of(module.function_defs@[k]))
            },
{
    verify_global_storage_access(module)
}

/// Checks every function body for instructions that access global storage.
fn verify_global_storage_access(module: &CompiledModule) -> (r: Result<(), ExecutionError>)
    requires
        forall|k: int|
            first_offender(module.function_defs@, k) ==> name_resolves(
                *module,
                #[trigger] module.function_defs@[k],
            ),
    ensures
        r is Ok <==> forall|k: int|
            0 <= k < module.function_defs@.len() ==> !accesses_global_storage(
                #[trigger] module.function_defs@[k],
            ),
        r matches Err(ExecutionError::GlobalStorageAccess { function_name, invalid_bytecode })
            ==> exists|k: int|
            {
                &&& first_offender(module.function_defs@, k)
                &&& function_name@ == name_of_function(*module, module.function_defs@[k])
                &&& invalid_bytecode@ == global_accesses(code_of(module.function_defs@[k]))
            },
{
    let defs = &module.function_defs;
    let mut i: usize = 0;
    while i < defs.len()
        invariant
            defs == &module.function_defs,
            i <= defs@.len(),
            forall|j: int| 0 <= j < i ==> !accesses_global_storage(#[trigger] defs@[j]),
            forall|k: int|
                first_offender(module.function_defs@, k) ==> name_resolves(
                    *module,
                    #[trigger] module.function_defs@[k],
                ),
        decreases defs@.len() - i,
    {
        let func_def = &defs[i];
        match &func_def.code {
            None => {
                assert(global_accesses(code_of(*func_def)) =~= Seq::<Bytecode>::empty());
            },
            Some(unit) => {
                let invalid_bytecode = collect_global_accesses(&unit.code);
                if invalid_bytecode.len() > 0 {
                    assert(first_offender(module.function_defs@, i as int));
                    let handle = module.function_handles[func_def.function as usize];
                    let function_name = module.identifiers[handle.name as usize].clone();
                    return Err(ExecutionError::GlobalStorageAccess { function_name, invalid_bytecode });
                }
            },
        }
        i = i + 1;
    }
    Ok(())
}

} // verus!
