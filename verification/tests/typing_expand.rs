use iota_logic::typing_expand::{
    exp, BuiltinTypeName, Exp, ExpList, Subst, Type, TypingDiag, Types, UnannotatedExp, Value, U256,
};

fn builtin(bt: BuiltinTypeName) -> Type {
    Type::Builtin(bt, Box::new(Types::Nil))
}

fn num(v: u128, tvar: u64) -> Exp {
    Exp { loc: 7, ty: Type::Var(tvar), exp: UnannotatedExp::Value(Value::InferredNum(U256 { hi: 0, lo: v })) }
}

fn subst_with(bt: BuiltinTypeName) -> Subst {
    Subst { solutions: vec![(1, builtin(bt))] }
}

#[test]
fn inferred_number_that_fits_becomes_typed_value() {
    let mut e = num(200, 1);
    let mut diags = vec![];
    exp(&subst_with(BuiltinTypeName::U8), &mut e, &mut diags);
    assert!(diags.is_empty());
    assert!(matches!(e.exp, UnannotatedExp::Value(Value::U8(200))));
    assert!(matches!(e.ty, Type::Builtin(BuiltinTypeName::U8, _)));
}

#[test]
fn inferred_number_too_large_is_invalid_with_fix() {
    let mut e = num(256, 1);
    let mut diags = vec![];
    exp(&subst_with(BuiltinTypeName::U8), &mut e, &mut diags);
    assert!(matches!(e.exp, UnannotatedExp::UnresolvedError));
    assert_eq!(
        diags,
        vec![TypingDiag::InvalidNum {
            loc: 7,
            expected: BuiltinTypeName::U8,
            value: U256 { hi: 0, lo: 256 },
            fix: BuiltinTypeName::U16,
        }]
    );
    let mut e = num(1u128 << 64, 1);
    let mut diags = vec![];
    exp(&subst_with(BuiltinTypeName::U64), &mut e, &mut diags);
    assert!(matches!(diags[0], TypingDiag::InvalidNum { fix: BuiltinTypeName::U128, .. }));
    let mut e = Exp {
        loc: 3,
        ty: Type::Var(1),
        exp: UnannotatedExp::Value(Value::InferredNum(U256 { hi: 1, lo: 0 })),
    };
    let mut diags = vec![];
    exp(&subst_with(BuiltinTypeName::U128), &mut e, &mut diags);
    assert!(matches!(diags[0], TypingDiag::InvalidNum { fix: BuiltinTypeName::U256, .. }));
    let mut e = Exp {
        loc: 3,
        ty: Type::Var(1),
        exp: UnannotatedExp::Value(Value::InferredNum(U256 { hi: 1, lo: 0 })),
    };
    let mut diags = vec![];
    exp(&subst_with(BuiltinTypeName::U256), &mut e, &mut diags);
    assert!(diags.is_empty());
    assert!(matches!(e.exp, UnannotatedExp::Value(Value::U256(U256 { hi: 1, lo: 0 }))));
}

#[test]
fn number_with_non_numeric_type_is_an_internal_error() {
    let mut e = num(1, 1);
    let mut diags = vec![];
    exp(&subst_with(BuiltinTypeName::Bool), &mut e, &mut diags);
    assert!(matches!(e.exp, UnannotatedExp::UnresolvedError));
    assert!(matches!(e.ty, Type::UnresolvedError));
    assert_eq!(diags, vec![TypingDiag::NumberTypeNotInferred { loc: 7 }]);
}


#[test]
fn unsolved_variable_is_uninferred() {
    let mut e = Exp { loc: 9, ty: Type::Var(5), exp: UnannotatedExp::Unit };
    let mut diags = vec![];
    exp(&subst_with(BuiltinTypeName::U8), &mut e, &mut diags);
    assert!(matches!(e.ty, Type::UnresolvedError));
    assert_eq!(diags, vec![TypingDiag::UninferredType { loc: 9 }]);
}

#[test]
fn uses_become_copies_or_moves() {
    let mut e = Exp { loc: 1, ty: Type::Var(1), exp: UnannotatedExp::Use(4) };
    let mut diags = vec![];
    exp(&subst_with(BuiltinTypeName::U64), &mut e, &mut diags);
    assert!(matches!(e.exp, UnannotatedExp::Copy { from_user: false, var: 4 }));
    let mut e = Exp { loc: 1, ty: Type::Var(1), exp: UnannotatedExp::Use(4) };
    exp(&subst_with(BuiltinTypeName::Signer), &mut e, &mut diags);
    assert!(matches!(e.exp, UnannotatedExp::Move { from_user: false, var: 4 }));
    let coin = Type::Struct { name: 1, copyable: false, args: Box::new(Types::Nil) };
    let mut e = Exp { loc: 1, ty: coin, exp: UnannotatedExp::Use(2) };
    exp(&subst_with(BuiltinTypeName::U8), &mut e, &mut diags);
    assert!(matches!(e.exp, UnannotatedExp::Move { .. }));
    assert!(diags.is_empty());
}

#[test]
fn return_keeps_no_type_and_nested_numbers_resolve() {
    let inner = num(5, 1);
    let mut e = Exp {
        loc: 2,
        ty: Type::Var(1),
        exp: UnannotatedExp::Return(Box::new(Exp {
            loc: 3,
            ty: Type::Unit,
            exp: UnannotatedExp::Block(Box::new(ExpList::Cons(Box::new(inner), Box::new(ExpList::Nil)))),
        })),
    };
    let mut diags = vec![];
    exp(&subst_with(BuiltinTypeName::U16), &mut e, &mut diags);
    assert!(matches!(e.ty, Type::Anything));
    match e.exp {
        UnannotatedExp::Return(b) => match b.exp {
            UnannotatedExp::Block(items) => match *items {
                ExpList::Cons(first, _) => {
                    assert!(matches!(first.exp, UnannotatedExp::Value(Value::U16(5))))
                }
                ExpList::Nil => panic!("empty block"),
            },
            _ => panic!("not a block"),
        },
        _ => panic!("not a return"),
    }
    assert!(diags.is_empty());
}
