use iota_logic::base_types::IotaAddress;
use iota_logic::file_format::{
    Bytecode, CodeUnit, CompiledModule, FunctionDefinition, FunctionHandle, ModuleHandle,
    SignatureToken, StructHandle,
};
use iota_logic::global_storage_access::{verify_module, ExecutionError};
use iota_logic::system_objects::is_mutable_random;

fn module(defs: Vec<FunctionDefinition>) -> CompiledModule {
    CompiledModule {
        module_handles: vec![],
        struct_handles: vec![],
        function_handles: vec![FunctionHandle { name: 0 }, FunctionHandle { name: 1 }, FunctionHandle { name: 2 }],
        identifiers: vec!["init".to_string(), "transfer".to_string(), "native_hash".to_string()],
        address_identifiers: vec![],
        function_defs: defs,
    }
}

#[test]
fn module_without_global_storage_passes() {
    let m = module(vec![
        FunctionDefinition {
            function: 0,
            code: Some(CodeUnit {
                code: vec![Bytecode::LdU64(1), Bytecode::StLoc(0), Bytecode::VecPack(3, 2), Bytecode::Ret],
            }),
        },
        FunctionDefinition { function: 2, code: None },
    ]);
    assert_eq!(verify_module(&m), Ok(()));
}

#[test]
fn first_offending_function_is_reported_with_its_instructions() {
    let m = module(vec![
        FunctionDefinition {
            function: 0,
            code: Some(CodeUnit { code: vec![Bytecode::Pop, Bytecode::Ret] }),
        },
        FunctionDefinition { function: 2, code: None },
        FunctionDefinition {
            function: 1,
            code: Some(CodeUnit {
                code: vec![
                    Bytecode::CopyLoc(0),
                    Bytecode::MoveToDeprecated(4),
                    Bytecode::Add,
                    Bytecode::ExistsGenericDeprecated(1),
                    Bytecode::Ret,
                ],
            }),
        },
        FunctionDefinition {
            function: 0,
            code: Some(CodeUnit { code: vec![Bytecode::MutBorrowGlobalDeprecated(9)] }),
        },
    ]);
    assert_eq!(
        verify_module(&m),
        Err(ExecutionError::GlobalStorageAccess {
            function_name: "transfer".to_string(),
            invalid_bytecode: vec![Bytecode::MoveToDeprecated(4), Bytecode::ExistsGenericDeprecated(1)],
        })
    );
}

#[test]
fn every_global_storage_instruction_is_refused() {
    let all = vec![
        Bytecode::MoveFromDeprecated(0),
        Bytecode::MoveFromGenericDeprecated(0),
        Bytecode::MoveToDeprecated(0),
        Bytecode::MoveToGenericDeprecated(0),
        Bytecode::ImmBorrowGlobalDeprecated(0),
        Bytecode::MutBorrowGlobalDeprecated(0),
        Bytecode::ImmBorrowGlobalGenericDeprecated(0),
        Bytecode::MutBorrowGlobalGenericDeprecated(0),
        Bytecode::ExistsDeprecated(0),
        Bytecode::ExistsGenericDeprecated(0),
    ];
    for b in all {
        let m = module(vec![FunctionDefinition {
            function: 2,
            code: Some(CodeUnit { code: vec![Bytecode::Nop, b] }),
        }]);
        assert_eq!(
            verify_module(&m),
            Err(ExecutionError::GlobalStorageAccess {
                function_name: "native_hash".to_string(),
                invalid_bytecode: vec![b],
            })
        );
    }
}

#[test]
fn empty_module_passes() {
    assert_eq!(verify_module(&module(vec![])), Ok(()));
}

fn framework() -> IotaAddress {
    let mut a = [0u8; 32];
    a[31] = 2;
    IotaAddress(a)
}

fn module_with_structs() -> CompiledModule {
    CompiledModule {
        module_handles: vec![
            ModuleHandle { address: 0, name: 0 },
            ModuleHandle { address: 1, name: 0 },
            ModuleHandle { address: 0, name: 2 },
        ],
        struct_handles: vec![
            StructHandle { module: 0, name: 1 },
            StructHandle { module: 1, name: 1 },
            StructHandle { module: 2, name: 1 },
            StructHandle { module: 0, name: 2 },
        ],
        function_handles: vec![],
        identifiers: vec!["random".to_string(), "Random".to_string(), "coin".to_string()],
        address_identifiers: vec![framework(), IotaAddress([7; 32])],
        function_defs: vec![],
    }
}

#[test]
fn randomness_state_is_recognized_through_mutable_references() {
    let m = module_with_structs();
    assert!(is_mutable_random(&m, &SignatureToken::Struct(0)));
    assert!(is_mutable_random(
        &m,
        &SignatureToken::MutableReference(Box::new(SignatureToken::Struct(0)))
    ));
    assert!(is_mutable_random(
        &m,
        &SignatureToken::MutableReference(Box::new(SignatureToken::MutableReference(Box::new(
            SignatureToken::Struct(0)
        ))))
    ));
}

#[test]
fn other_types_are_not_randomness_state() {
    let m = module_with_structs();
    assert!(!is_mutable_random(&m, &SignatureToken::Reference(Box::new(SignatureToken::Struct(0)))));
    assert!(!is_mutable_random(&m, &SignatureToken::Struct(1)));
    assert!(!is_mutable_random(&m, &SignatureToken::Struct(2)));
    assert!(!is_mutable_random(&m, &SignatureToken::Struct(3)));
    assert!(!is_mutable_random(&m, &SignatureToken::U64));
    assert!(!is_mutable_random(&m, &SignatureToken::Vector(Box::new(SignatureToken::Struct(0)))));
}
