use iota_logic::move_lexer::{parse_exp_string, parse_file_string, SyntaxError};
use iota_logic::move_parser::{
    BinOp, Definition, Definitions, Diag, Diags, Exp_, Expected, FunctionBody, Members, ModuleMember,
    Modules, StructFields, Tok, Type_, Use, Visibility,
};

fn defs_vec(d: &Definitions) -> Vec<&Definition> {
    let mut out = vec![];
    let mut cur = d;
    while let Definitions::Cons(x, rest) = cur {
        out.push(&**x);
        cur = &**rest;
    }
    out
}

fn diags_vec(d: &Diags) -> Vec<Diag> {
    let mut out = vec![];
    let mut cur = d;
    while let Diags::Cons(x, rest) = cur {
        out.push(*x);
        cur = &**rest;
    }
    out
}

fn members_vec(m: &Members) -> Vec<&ModuleMember> {
    let mut out = vec![];
    let mut cur = m;
    while let Members::Cons(x, rest) = cur {
        out.push(&**x);
        cur = &**rest;
    }
    out
}

#[test]
fn module_with_members_parses() {
    let src = "#[test_only] module 0x1::m {\n  use 0x1::vector as v;\n  friend 0x1::n;\n  const MAX: u64 = 10;\n  public struct S<phantom T> has copy, drop { x: u64 }\n  public(package) entry fun f<T: copy + drop>(mut a: u64, b: &vector<u8>): u64 acquires S { let x = a + 1; x }\n  native fun g();\n  spec f { ensures true; }\n}";
    let (defs, diags) = parse_file_string(src).unwrap();
    assert!(diags_vec(&diags).is_empty());
    let defs = defs_vec(&defs);
    assert_eq!(defs.len(), 1);
    match defs[0] {
        Definition::Module(m) => {
            assert!(m.address.is_some());
            assert!(!m.is_spec_module);
            let ms = members_vec(&m.members);
            assert_eq!(ms.len(), 7);
            assert!(matches!(ms[0], ModuleMember::Use(u) if matches!(u.use_, Use::ModuleUse(_, _))));
            assert!(matches!(ms[1], ModuleMember::Friend(_)));
            assert!(matches!(ms[2], ModuleMember::Constant(_)));
            match ms[3] {
                ModuleMember::Struct(s) => {
                    assert!(matches!(s.fields, StructFields::Named(_)));
                    assert!(matches!(s.modifiers.visibility, Some(Visibility::Public(_))));
                }
                _ => panic!("not a struct"),
            }
            match ms[4] {
                ModuleMember::Function(f) => {
                    assert!(matches!(f.modifiers.visibility, Some(Visibility::Package(_))));
                    assert!(f.modifiers.entry.is_some());
                    assert!(f.return_type.is_some());
                    assert!(matches!(f.body, FunctionBody::Defined(_)));
                }
                _ => panic!("not a function"),
            }
            assert!(matches!(ms[5], ModuleMember::Function(f) if matches!(f.body, FunctionBody::Native)));
            assert!(matches!(ms[6], ModuleMember::Spec(_)));
        }
        Definition::Address(_) => panic!("not a module"),
    }
}

#[test]
fn address_blocks_hold_modules_and_are_reported_deprecated() {
    let src = "address 0x42 { module a { } module b { fun f() {} } }";
    let (defs, diags) = parse_file_string(src).unwrap();
    let defs = defs_vec(&defs);
    match defs[0] {
        Definition::Address(a) => {
            let mut n = 0;
            let mut cur = &a.modules;
            while let Modules::Cons(_, rest) = cur {
                n += 1;
                cur = &**rest;
            }
            assert_eq!(n, 2);
            assert_eq!((a.start, a.end), (8, 12));
        }
        _ => panic!("not an address block"),
    }
    assert!(matches!(diags_vec(&diags)[..], [Diag::DeprecatedAddressBlock(_)]));
}

#[test]
fn member_errors_are_reported_and_parsing_resumes() {
    let src = "module 0x1::m {\n  fun f( { }\n  fun g() { }\n}\nmodule 0x1::n { }";
    let (defs, diags) = parse_file_string(src).unwrap();
    let d = diags_vec(&diags);
    assert_eq!(d.len(), 1);
    let defs = defs_vec(&defs);
    assert_eq!(defs.len(), 2);
    match defs[0] {
        Definition::Module(m) => assert_eq!(members_vec(&m.members).len(), 1),
        _ => panic!("not a module"),
    }
}

#[test]
fn bad_code_units_are_reported_and_skipped() {
    let src = "script { } module 0x1::m { }";
    let (defs, diags) = parse_file_string(src).unwrap();
    match diags_vec(&diags)[..] {
        [Diag::Syntax(e)] => {
            assert_eq!(e.expected, Expected::CodeUnit);
            assert_eq!(e.found, Tok::Identifier);
        }
        ref other => panic!("unexpected reports: {:?}", other),
    }
    assert_eq!(defs_vec(&defs).len(), 1);
    assert!(matches!(parse_file_string("module 0x1::m { } $"), Err(SyntaxError::Lex(_))));
}

#[test]
fn restored_expression_forms() {
    let e = parse_exp_string(b"x as u64 + 1").unwrap();
    match &e.exp {
        Exp_::BinopExp(l, BinOp::Add, _) => assert!(matches!(l.exp, Exp_::Cast(_, _))),
        other => panic!("{:?}", other),
    }
    let e = parse_exp_string(b"a.b.c(1)[0]").unwrap();
    match &e.exp {
        Exp_::Index(inner, _) => assert!(matches!(inner.exp, Exp_::DotCall(_, _, false, None, _))),
        other => panic!("{:?}", other),
    }
    assert!(matches!(parse_exp_string(b"0x1::m::f<u8>(x, y)").unwrap().exp, Exp_::Call(_, false, Some(_), _)));
    assert!(matches!(parse_exp_string(b"assert!(x)").unwrap().exp, Exp_::Call(_, true, None, _)));
    assert!(matches!(parse_exp_string(b"S { x: 1, y }").unwrap().exp, Exp_::Pack(_, None, _)));
    assert!(matches!(parse_exp_string(b"vector<u8>[1, 2]").unwrap().exp, Exp_::Vector(_, Some(_), _)));
    assert!(matches!(parse_exp_string(b"(x: u64)").unwrap().exp, Exp_::Annotate(_, _)));
    assert!(matches!(parse_exp_string(b"|x, y| x + y").unwrap().exp, Exp_::Lambda(_, None, _)));
    assert!(matches!(parse_exp_string(b"|x| -> u64 { x }").unwrap().exp, Exp_::Lambda(_, Some(_), _)));
    assert!(matches!(parse_exp_string(b"@0x1").unwrap().exp, Exp_::Value(_)));
    assert!(matches!(parse_exp_string(b"b\"hi\\\"\"").unwrap().exp, Exp_::Value(_)));
    // `x < y` with a space is a comparison, `f<u8>` without one is a type argument
    assert!(matches!(parse_exp_string(b"x < y").unwrap().exp, Exp_::BinopExp(_, BinOp::Lt, _)));
    let e = parse_exp_string(b"{ let (a, mut b): (u8, u8) = (1, 2); let S { x } = s; a }").unwrap();
    assert!(matches!(e.exp, Exp_::Block(_)));
}

#[test]
fn function_types_parse() {
    let src = "module m { fun f(g: |u64| -> bool, h: ||) {} }";
    let (defs, diags) = parse_file_string(src).unwrap();
    assert!(diags_vec(&diags).is_empty());
    match defs_vec(&defs)[0] {
        Definition::Module(m) => match members_vec(&m.members)[0] {
            ModuleMember::Function(f) => match &f.parameters {
                iota_logic::move_parser::Items::Cons(first, _) => match &**first {
                    iota_logic::move_parser::Item::Param(false, _, t) => assert!(matches!(t.ty, Type_::Fun(_, _))),
                    other => panic!("{:?}", other),
                },
                _ => panic!("no parameters"),
            },
            _ => panic!("not a function"),
        },
        _ => panic!("not a module"),
    }
}
