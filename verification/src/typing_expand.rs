//! The expansion pass that ends type checking of a Move function body.
//!
//! After inference, every type in the typed body is replaced by its solution
//! in the substitution; uses of locals become copies or moves according to
//! the abilities of their type; and each number literal whose type was left
//! to inference is fixed to the type that was inferred for it, or refused as
//! too large for it.
//!
//! The typed syntax tree here holds what the pass reads and writes: types
//! with their inference variables, the expression forms, and one location per
//! expression. Lists of expressions and of types are linked lists of boxes.
use vstd::prelude::*;

verus! {

/// The builtin type names of Move.
#[derive(Clone, Copy, Debug, PartialEq, Eq, Structural)]
pub enum BuiltinTypeName {
    Address,
    Signer,
    U8,
    U16,
    U32,
    U64,
    U128,
    U256,
    Vector,
    Bool,
}

/// A type of the typed syntax tree.
#[derive(Debug)]
pub enum Type {
    Unit,
    /// The type of an expression that does not return (`return`, `abort`).
    Anything,
    UnresolvedError,
    /// A type parameter, with whether its constraints give it `copy`.
    Param { id: u64, copyable: bool },
    /// An inference variable.
    Var(u64),
    Ref(bool, Box<Type>),
    Builtin(BuiltinTypeName, Box<Types>),
    /// A struct type: its name, whether it was declared with `copy`, and its
    /// type arguments.
    Struct { name: u64, copyable: bool, args: Box<Types> },
}

/// A list of types.
#[derive(Debug)]
pub enum Types {
    Nil,
    Cons(Box<Type>, Box<Types>),
}

/// A 256-bit unsigned number, in two halves.
#[derive(Clone, Copy, Debug, PartialEq, Eq, Structural)]
pub struct U256 {
    pub hi: u128,
    pub lo: u128,
}

/// A literal value.
#[derive(Clone, Copy, Debug, PartialEq, Eq, Structural)]
pub enum Value {
    Bool(bool),
    U8(u8),
    U16(u16),
    U32(u32),
    U64(u64),
    U128(u128),
    U256(U256),
    /// A number literal whose type is left to inference.
    InferredNum(U256),
}

/// An expression: where it stands, its type and its form.
#[derive(Debug)]
pub struct Exp {
    pub loc: u64,
    pub ty: Type,
    pub exp: UnannotatedExp,
}

/// The forms of a typed expression.
#[derive(Debug)]
pub enum UnannotatedExp {
    Unit,
    Value(Value),
    Constant(u64),
    /// A use of a local whose copy or move is not decided yet.
    Use(u64),
    Copy { from_user: bool, var: u64 },
    Move { from_user: bool, var: u64 },
    BorrowLocal(bool, u64),
    ModuleCall { type_arguments: Box<Types>, arguments: Box<ExpList> },
    Vector(Box<Type>, Box<ExpList>),
    IfElse(Box<Exp>, Box<Exp>, Box<Exp>),
    While(Box<Exp>, Box<Exp>),
    Loop { has_break: bool, body: Box<Exp> },
    Block(Box<ExpList>),
    Return(Box<Exp>),
    Abort(Box<Exp>),
    /// A value given to the block with this label.
    Give(u64, Box<Exp>),
    Continue(u64),
    Dereference(Box<Exp>),
    UnaryExp(u8, Box<Exp>),
    Mutate(Box<Exp>, Box<Exp>),
    BinopExp(Box<Exp>, u8, Box<Type>, Box<Exp>),
    Borrow(bool, Box<Exp>, u64),
    TempBorrow(bool, Box<Exp>),
    Cast(Box<Exp>, Box<Type>),
    Annotate(Box<Exp>, Box<Type>),
    UnresolvedError,
}

/// A list of expressions (a block's items or a call's arguments).
#[derive(Debug)]
pub enum ExpList {
    Nil,
    Cons(Box<Exp>, Box<ExpList>),
}

/// What the pass reports.
#[derive(Clone, Copy, Debug, PartialEq, Eq, Structural)]
pub enum TypingDiag {
    /// No type could be inferred for the type at this location.
    UninferredType { loc: u64 },
    /// A number literal is too large for the type inferred for it; `fix` is
    /// the smallest type that holds it.
    InvalidNum { loc: u64, expected: BuiltinTypeName, value: U256, fix: BuiltinTypeName },
    /// A number literal's type was not numeric: an internal error.
    NumberTypeNotInferred { loc: u64 },
}

/// The solved substitution: each inference variable with its solution.
/// Solutions hold no inference variables themselves.
pub struct Subst {
    pub solutions: Vec<(u64, Type)>,
}

/// Whether a type holds no inference variable.
pub open spec fn var_free(t: Type) -> bool
    decreases t,
{
    match t {
        Type::Var(_) => false,
        Type::Ref(_, b) => var_free(*b),
        Type::Builtin(_, args) => var_free_list(*args),
        Type::Struct { args, .. } => var_free_list(*args),
        _ => true,
    }
}

pub open spec fn var_free_list(ts: Types) -> bool
    decreases ts,
{
    match ts {
        Types::Nil => true,
        Types::Cons(t, rest) => var_free(*t) && var_free_list(*rest),
    }
}

impl Subst {
    /// Every solution is free of inference variables.
    pub open spec fn wf(&self) -> bool {
        forall|i: int| 0 <= i < self.solutions@.len() ==> var_free(#[trigger] self.solutions@[i].1)
    }

    /// The solution of a variable: that of its first entry.
    pub open spec fn lookup(&self, v: u64) -> Option<Type> {
        lookup_from(self.solutions@, v)
    }
}

pub open spec fn lookup_from(s: Seq<(u64, Type)>, v: u64) -> Option<Type>
    decreases s.len(),
{
    if s.len() == 0 {
        None
    } else if s[0].0 == v {
        Some(s[0].1)
    } else {
        lookup_from(s.drop_first(), v)
    }
}

/// The outermost form of a type after its variable, if it is one, is
/// replaced by its solution; an unsolved variable stands for `Anything`.
pub open spec fn unfold_type(subst: Subst, t: Type) -> Type {
    match t {
        Type::Var(v) => match subst.lookup(v) {
            Some(s) => s,
            None => Type::Anything,
        },
        _ => t,
    }
}

/// The type with every inference variable replaced by its solution, and the
/// reports made on the way (in the order of a left-to-right walk).
pub open spec fn expand_type(subst: Subst, t: Type, loc: u64) -> (Type, Seq<TypingDiag>)
    decreases t,
{
    match t {
        Type::Var(v) => match subst.lookup(v) {
            Some(Type::Anything) | None => (
                Type::UnresolvedError,
                seq![TypingDiag::UninferredType { loc }],
            ),
            Some(s) => (s, Seq::empty()),
        },
        Type::Ref(m, b) => {
            let (nb, d) = expand_type(subst, *b, loc);
            (Type::Ref(m, Box::new(nb)), d)
        },
        Type::Builtin(n, args) => {
            let (nargs, d) = expand_types(subst, *args, loc);
            (Type::Builtin(n, Box::new(nargs)), d)
        },
        Type::Struct { name, copyable, args } => {
            let (nargs, d) = expand_types(subst, *args, loc);
            (Type::Struct { name, copyable, args: Box::new(nargs) }, d)
        },
        _ => (t, Seq::empty()),
    }
}

pub open spec fn expand_types(subst: Subst, ts: Types, loc: u64) -> (Types, Seq<TypingDiag>)
    decreases ts,
{
    match ts {
        Types::Nil => (Types::Nil, Seq::empty()),
        Types::Cons(t, rest) => {
            let (nt, d1) = expand_type(subst, *t, loc);
            let (nrest, d2) = expand_types(subst, *rest, loc);
            (Types::Cons(Box::new(nt), Box::new(nrest)), d1 + d2)
        },
    }
}

/// Whether values of a (fully expanded) type can be copied.
pub open spec fn has_copy(t: Type) -> bool
    decreases t,
{
    match t {
        Type::Param { copyable, .. } => copyable,
        Type::Builtin(BuiltinTypeName::Signer, _) => false,
        Type::Builtin(_, args) => all_copy(*args),
        Type::Struct { copyable, args, .. } => copyable && all_copy(*args),
        _ => true,
    }
}

pub open spec fn all_copy(ts: Types) -> bool
    decreases ts,
{
    match ts {
        Types::Nil => true,
        Types::Cons(t, rest) => has_copy(*t) && all_copy(*rest),
    }
}

pub open spec fn two_pow_128() -> nat {
    0x1_0000_0000_0000_0000_0000_0000_0000_0000nat
}

/// The number a 256-bit value stands for.
pub open spec fn u256_value(v: U256) -> nat {
    v.hi as nat * two_pow_128() + v.lo as nat
}

pub open spec fn is_numeric(bt: BuiltinTypeName) -> bool {
    match bt {
        BuiltinTypeName::U8 | BuiltinTypeName::U16 | BuiltinTypeName::U32 | BuiltinTypeName::U64
        | BuiltinTypeName::U128 | BuiltinTypeName::U256 => true,
        _ => false,
    }
}

/// The largest value of a numeric type.
pub open spec fn max_of(bt: BuiltinTypeName) -> nat {
    match bt {
        BuiltinTypeName::U8 => 0xff,
        BuiltinTypeName::U16 => 0xffff,
        BuiltinTypeName::U32 => 0xffff_ffff,
        BuiltinTypeName::U64 => 0xffff_ffff_ffff_ffff,
        BuiltinTypeName::U128 => 0xffff_ffff_ffff_ffff_ffff_ffff_ffff_ffff,
        _ => (two_pow_128() * two_pow_128() - 1) as nat,
    }
}

/// The smallest numeric type that holds a value too large for `u8`.
pub open spec fn fitting_type(v: nat) -> BuiltinTypeName {
    if v > max_of(BuiltinTypeName::U128) {
        BuiltinTypeName::U256
    } else if v > max_of(BuiltinTypeName::U64) {
        BuiltinTypeName::U128
    } else if v > max_of(BuiltinTypeName::U32) {
        BuiltinTypeName::U64
    } else if v > max_of(BuiltinTypeName::U16) {
        BuiltinTypeName::U32
    } else {
        BuiltinTypeName::U16
    }
}

/// A number of a numeric type that holds it, as a value of that type.
pub open spec fn typed_value(v: U256, bt: BuiltinTypeName) -> Value {
    match bt {
        BuiltinTypeName::U8 => Value::U8(v.lo as u8),
        BuiltinTypeName::U16 => Value::U16(v.lo as u16),
        BuiltinTypeName::U32 => Value::U32(v.lo as u32),
        BuiltinTypeName::U64 => Value::U64(v.lo as u64),
        BuiltinTypeName::U128 => Value::U128(v.lo),
        _ => Value::U256(v),
    }
}

/// How an inferred number literal is resolved against its expanded type:
/// the new form of the expression, whether its type becomes an error, and
/// the reports.
pub open spec fn resolve_number(v: U256, ty: Type, loc: u64) -> (UnannotatedExp, bool, Seq<TypingDiag>) {
    match ty {
        Type::Builtin(bt, _) => if !is_numeric(bt) {
            (UnannotatedExp::UnresolvedError, true, seq![TypingDiag::NumberTypeNotInferred { loc }])
        } else if u256_value(v) > max_of(bt) {
            (
                UnannotatedExp::UnresolvedError,
                false,
                seq![
                    TypingDiag::InvalidNum {
                        loc,
                        expected: bt,
                        value: v,
                        fix: fitting_type(u256_value(v)),
                    },
                ],
            )
        } else {
            (UnannotatedExp::Value(typed_value(v, bt)), false, Seq::empty())
        },
        _ => (UnannotatedExp::UnresolvedError, true, seq![TypingDiag::NumberTypeNotInferred { loc }]),
    }
}

/// Whether an expression keeps no type of its own after the pass (it does not
/// return normally).
pub open spec fn drops_type(e: UnannotatedExp) -> bool {
    match e {
        UnannotatedExp::Give(_, _) | UnannotatedExp::Continue(_) | UnannotatedExp::Return(_)
        | UnannotatedExp::Abort(_) => true,
        UnannotatedExp::Loop { has_break, .. } => !has_break,
        _ => false,
    }
}

/// The expression's type after the pass, and the reports its type gives.
pub open spec fn expand_exp_type(subst: Subst, e: Exp) -> (Type, Seq<TypingDiag>) {
    expand_type_of(subst, e.ty, e.loc, drops_type(e.exp))
}

/// A type after the pass; an expression that does not return keeps
/// `Anything` as its type, with the reports of its unfolded type.
pub open spec fn expand_type_of(subst: Subst, ty: Type, loc: u64, drops: bool) -> (Type, Seq<TypingDiag>) {
    if drops {
        match unfold_type(subst, ty) {
            Type::Anything => (Type::Anything, Seq::empty()),
            u => (Type::Anything, expand_type(subst, u, loc).1),
        }
    } else {
        expand_type(subst, ty, loc)
    }
}

/// The expression after the pass, and the reports, in order.
pub open spec fn expand_exp(subst: Subst, e: Exp) -> (Exp, Seq<TypingDiag>)
    decreases e,
{
    let (ty, dt) = expand_exp_type(subst, e);
    let loc = e.loc;
    match e.exp {
        UnannotatedExp::Use(var) => (
            Exp {
                loc,
                ty,
                exp: if has_copy(ty) {
                    UnannotatedExp::Copy { from_user: false, var }
                } else {
                    UnannotatedExp::Move { from_user: false, var }
                },
            },
            dt,
        ),
        UnannotatedExp::Value(Value::InferredNum(v)) => {
            let (ne, err_ty, dn) = resolve_number(v, ty, loc);
            (Exp { loc, ty: if err_ty { Type::UnresolvedError } else { ty }, exp: ne }, dt + dn)
        },
        UnannotatedExp::ModuleCall { type_arguments, arguments } => {
            let (targs, d1) = expand_types(subst, *type_arguments, loc);
            let (args, d2) = expand_list(subst, *arguments);
            (
                Exp {
                    loc,
                    ty,
                    exp: UnannotatedExp::ModuleCall {
                        type_arguments: Box::new(targs),
                        arguments: Box::new(args),
                    },
                },
                dt + d1 + d2,
            )
        },
        UnannotatedExp::Vector(elem_ty, args) => {
            let (nt, d1) = expand_type(subst, *elem_ty, loc);
            let (nargs, d2) = expand_list(subst, *args);
            (
                Exp { loc, ty, exp: UnannotatedExp::Vector(Box::new(nt), Box::new(nargs)) },
                dt + d1 + d2,
            )
        },
        UnannotatedExp::IfElse(b, t, f) => {
            let (nb, d1) = expand_exp(subst, *b);
            let (nt, d2) = expand_exp(subst, *t);
            let (nf, d3) = expand_exp(subst, *f);
            (
                Exp {
                    loc,
                    ty,
                    exp: UnannotatedExp::IfElse(Box::new(nb), Box::new(nt), Box::new(nf)),
                },
                dt + d1 + d2 + d3,
            )
        },
        UnannotatedExp::While(b, body) => {
            let (nb, d1) = expand_exp(subst, *b);
            let (nbody, d2) = expand_exp(subst, *body);
            (
                Exp { loc, ty, exp: UnannotatedExp::While(Box::new(nb), Box::new(nbody)) },
                dt + d1 + d2,
            )
        },
        UnannotatedExp::Loop { has_break, body } => {
            let (nbody, d1) = expand_exp(subst, *body);
            (Exp { loc, ty, exp: UnannotatedExp::Loop { has_break, body: Box::new(nbody) } }, dt + d1)
        },
        UnannotatedExp::Block(items) => {
            let (nitems, d1) = expand_list(subst, *items);
            (Exp { loc, ty, exp: UnannotatedExp::Block(Box::new(nitems)) }, dt + d1)
        },
        UnannotatedExp::Return(x) => {
            let (nx, d1) = expand_exp(subst, *x);
            (Exp { loc, ty, exp: UnannotatedExp::Return(Box::new(nx)) }, dt + d1)
        },
        UnannotatedExp::Abort(x) => {
            let (nx, d1) = expand_exp(subst, *x);
            (Exp { loc, ty, exp: UnannotatedExp::Abort(Box::new(nx)) }, dt + d1)
        },
        UnannotatedExp::Give(label, x) => {
            let (nx, d1) = expand_exp(subst, *x);
            (Exp { loc, ty, exp: UnannotatedExp::Give(label, Box::new(nx)) }, dt + d1)
        },
        UnannotatedExp::Dereference(x) => {
            let (nx, d1) = expand_exp(subst, *x);
            (Exp { loc, ty, exp: UnannotatedExp::Dereference(Box::new(nx)) }, dt + d1)
        },
        UnannotatedExp::UnaryExp(op, x) => {
            let (nx, d1) = expand_exp(subst, *x);
            (Exp { loc, ty, exp: UnannotatedExp::UnaryExp(op, Box::new(nx)) }, dt + d1)
        },
        UnannotatedExp::Borrow(m, x, f) => {
            let (nx, d1) = expand_exp(subst, *x);
            (Exp { loc, ty, exp: UnannotatedExp::Borrow(m, Box::new(nx), f) }, dt + d1)
        },
        UnannotatedExp::TempBorrow(m, x) => {
            let (nx, d1) = expand_exp(subst, *x);
            (Exp { loc, ty, exp: UnannotatedExp::TempBorrow(m, Box::new(nx)) }, dt + d1)
        },
        UnannotatedExp::Mutate(l, r) => {
            let (nl, d1) = expand_exp(subst, *l);
            let (nr, d2) = expand_exp(subst, *r);
            (Exp { loc, ty, exp: UnannotatedExp::Mutate(Box::new(nl), Box::new(nr)) }, dt + d1 + d2)
        },
        UnannotatedExp::BinopExp(l, op, operand_ty, r) => {
            let (nl, d1) = expand_exp(subst, *l);
            let (nr, d2) = expand_exp(subst, *r);
            let (nty, d3) = expand_type(subst, *operand_ty, loc);
            (
                Exp {
                    loc,
                    ty,
                    exp: UnannotatedExp::BinopExp(Box::new(nl), op, Box::new(nty), Box::new(nr)),
                },
                dt + d1 + d2 + d3,
            )
        },
        UnannotatedExp::Cast(x, t) => {
            let (nx, d1) = expand_exp(subst, *x);
            let (nt, d2) = expand_type(subst, *t, loc);
            (Exp { loc, ty, exp: UnannotatedExp::Cast(Box::new(nx), Box::new(nt)) }, dt + d1 + d2)
        },
        UnannotatedExp::Annotate(x, t) => {
            let (nx, d1) = expand_exp(subst, *x);
            let (nt, d2) = expand_type(subst, *t, loc);
            (
                Exp { loc, ty, exp: UnannotatedExp::Annotate(Box::new(nx), Box::new(nt)) },
                dt + d1 + d2,
            )
        },
        other => (Exp { loc, ty, exp: other }, dt),
    }
}

pub open spec fn expand_list(subst: Subst, es: ExpList) -> (ExpList, Seq<TypingDiag>)
    decreases es,
{
    match es {
        ExpList::Nil => (ExpList::Nil, Seq::empty()),
        ExpList::Cons(e, rest) => {
            let (ne, d1) = expand_exp(subst, *e);
            let (nrest, d2) = expand_list(subst, *rest);
            (ExpList::Cons(Box::new(ne), Box::new(nrest)), d1 + d2)
        },
    }
}

/// The number a numeric value stands for.
pub open spec fn value_number(v: Value) -> nat {
    match v {
        Value::U8(x) => x as nat,
        Value::U16(x) => x as nat,
        Value::U32(x) => x as nat,
        Value::U64(x) => x as nat,
        Value::U128(x) => x as nat,
        Value::U256(x) => u256_value(x),
        Value::InferredNum(x) => u256_value(x),
        Value::Bool(_) => 0,
    }
}

/// An inferred number literal whose expanded type is numeric becomes a value
/// of that type holding the same number when the number fits the type;
/// otherwise it becomes an error, and the last report says that it is too
/// large and which type would hold it.
pub proof fn inferred_number_resolution(subst: Subst, e: Exp, v: U256)
    requires
        e.exp == UnannotatedExp::Value(Value::InferredNum(v)),
        expand_exp_type(subst, e).0 is Builtin,
        is_numeric(expand_exp_type(subst, e).0->Builtin_0),
    ensures
        ({
            let bt = expand_exp_type(subst, e).0->Builtin_0;
            let (r, d) = expand_exp(subst, e);
            &&& r.ty == expand_exp_type(subst, e).0
            &&& u256_value(v) <= max_of(bt) ==> {
                &&& r.exp matches UnannotatedExp::Value(x)
                &&& value_number(x) == u256_value(v)
                &&& d == expand_exp_type(subst, e).1
            }
            &&& u256_value(v) > max_of(bt) ==> {
                &&& r.exp == UnannotatedExp::UnresolvedError
                &&& d.len() > 0
                &&& d.last() == (TypingDiag::InvalidNum {
                    loc: e.loc,
                    expected: bt,
                    value: v,
                    fix: fitting_type(u256_value(v)),
                })
                &&& max_of(bt) < max_of(fitting_type(u256_value(v)))
                &&& u256_value(v) <= max_of(fitting_type(u256_value(v)))
            }
        }),
{
    let bt = expand_exp_type(subst, e).0->Builtin_0;
    assert(u256_value(v) <= max_of(BuiltinTypeName::U256)) by (nonlinear_arith)
        requires
            v.hi < two_pow_128(),
            v.lo < two_pow_128(),
            u256_value(v) == v.hi as nat * two_pow_128() + v.lo as nat,
            max_of(BuiltinTypeName::U256) == two_pow_128() * two_pow_128() - 1,
    ;
    if u256_value(v) <= max_of(bt) && bt != BuiltinTypeName::U256 {
        assert(v.hi == 0) by (nonlinear_arith)
            requires
                u256_value(v) == v.hi as nat * two_pow_128() + v.lo as nat,
                u256_value(v) < two_pow_128(),
        ;
    }
    let d = expand_exp(subst, e).1;
    assert(d == expand_exp_type(subst, e).1 + resolve_number(v, expand_exp_type(subst, e).0, e.loc).2);
    if u256_value(v) <= max_of(bt) {
        assert(d =~= expand_exp_type(subst, e).1);
    }
}

/// With a substitution whose solutions hold no inference variable, an
/// expanded type holds none either.
pub proof fn expanded_type_is_var_free(subst: Subst, t: Type, loc: u64)
    requires
        subst.wf(),
    ensures
        var_free(expand_type(subst, t, loc).0),
    decreases t,
{
    match t {
        Type::Var(v) => {
            lemma_lookup_solution(subst.solutions@, v);
        },
        Type::Ref(_, b) => expanded_type_is_var_free(subst, *b, loc),
        Type::Builtin(_, args) => expanded_types_are_var_free(subst, *args, loc),
        Type::Struct { args, .. } => expanded_types_are_var_free(subst, *args, loc),
        _ => {},
    }
}

/// The list form of `expanded_type_is_var_free`.
pub proof fn expanded_types_are_var_free(subst: Subst, ts: Types, loc: u64)
    requires
        subst.wf(),
    ensures
        var_free_list(expand_types(subst, ts, loc).0),
    decreases ts,
{
    match ts {
        Types::Nil => {},
        Types::Cons(t, rest) => {
            expanded_type_is_var_free(subst, *t, loc);
            expanded_types_are_var_free(subst, *rest, loc);
        },
    }
}

proof fn lemma_lookup_solution(s: Seq<(u64, Type)>, v: u64)
    requires
        forall|i: int| 0 <= i < s.len() ==> var_free(#[trigger] s[i].1),
    ensures
        lookup_from(s, v) matches Some(t) ==> var_free(t),
    decreases s.len(),
{
    if s.len() > 0 && s[0].0 != v {
        assert forall|i: int| 0 <= i < s.drop_first().len() implies var_free(
            #[trigger] s.drop_first()[i].1,
        ) by {
            assert(s.drop_first()[i] == s[i + 1]);
        }
        lemma_lookup_solution(s.drop_first(), v);
    }
}

/// A copy of a type.
pub fn copy_type(t: &Type) -> (r: Type)
    ensures
        r == *t,
    decreases t,
{
    match t {
        Type::Unit => Type::Unit,
        Type::Anything => Type::Anything,
        Type::UnresolvedError => Type::UnresolvedError,
        Type::Param { id, copyable } => Type::Param { id: *id, copyable: *copyable },
        Type::Var(v) => Type::Var(*v),
        Type::Ref(m, b) => Type::Ref(*m, Box::new(copy_type(b))),
        Type::Builtin(n, args) => Type::Builtin(*n, Box::new(copy_types(args))),
        Type::Struct { name, copyable, args } => Type::Struct {
            name: *name,
            copyable: *copyable,
            args: Box::new(copy_types(args)),
        },
    }
}

/// A copy of a list of types.
pub fn copy_types(ts: &Types) -> (r: Types)
    ensures
        r == *ts,
    decreases ts,
{
    match ts {
        Types::Nil => Types::Nil,
        Types::Cons(t, rest) => Types::Cons(Box::new(copy_type(t)), Box::new(copy_types(rest))),
    }
}

proof fn lemma_lookup_step(s: Seq<(u64, Type)>, i: int, v: u64)
    requires
        0 <= i < s.len(),
        s[i].0 != v,
    ensures
        lookup_from(s.skip(i), v) == lookup_from(s.skip(i + 1), v),
{
    assert(s.skip(i).drop_first() =~= s.skip(i + 1));
}

impl Subst {
    /// The solution of a variable, if it has one.
    pub fn solution(&self, v: u64) -> (r: Option<Type>)
        ensures
            r == self.lookup(v),
    {
        let mut i: usize = 0;
        proof {
            assert(self.solutions@.skip(0) =~= self.solutions@);
        }
        while i < self.solutions.len()
            invariant
                i <= self.solutions@.len(),
                lookup_from(self.solutions@.skip(i as int), v) == self.lookup(v),
            decreases self.solutions@.len() - i,
        {
            if self.solutions[i].0 == v {
                return Some(copy_type(&self.solutions[i].1));
            }
            proof {
                lemma_lookup_step(self.solutions@, i as int, v);
            }
            i = i + 1;
        }
        None
    }
}

/// Expands a type, appending the reports it gives.
pub fn expand_type_exec(subst: &Subst, t: Type, loc: u64, diags: &mut Vec<TypingDiag>) -> (r: Type)
    ensures
        r == expand_type(*subst, t, loc).0,
        final(diags)@ == old(diags)@ + expand_type(*subst, t, loc).1,
    decreases t,
{
    match t {
        Type::Var(v) => match subst.solution(v) {
            Some(Type::Anything) | None => {
                diags.push(TypingDiag::UninferredType { loc });
                Type::UnresolvedError
            },
            Some(s) => {
                proof {
                    assert(old(diags)@ + Seq::<TypingDiag>::empty() =~= old(diags)@);
                }
                s
            },
        },
        Type::Ref(m, b) => Type::Ref(m, Box::new(expand_type_exec(subst, *b, loc, diags))),
        Type::Builtin(n, args) => Type::Builtin(
            n,
            Box::new(expand_types_exec(subst, *args, loc, diags)),
        ),
        Type::Struct { name, copyable, args } => Type::Struct {
            name,
            copyable,
            args: Box::new(expand_types_exec(subst, *args, loc, diags)),
        },
        other => {
            proof {
                assert(old(diags)@ + Seq::<TypingDiag>::empty() =~= old(diags)@);
            }
            other
        },
    }
}

/// Expands a list of types, appending the reports they give.
pub fn expand_types_exec(subst: &Subst, ts: Types, loc: u64, diags: &mut Vec<TypingDiag>) -> (r: Types)
    ensures
        r == expand_types(*subst, ts, loc).0,
        final(diags)@ == old(diags)@ + expand_types(*subst, ts, loc).1,
    decreases ts,
{
    match ts {
        Types::Nil => {
            proof {
                assert(old(diags)@ + Seq::<TypingDiag>::empty() =~= old(diags)@);
            }
            Types::Nil
        },
        Types::Cons(t, rest) => {
            let ghost d0 = diags@;
            let nt = expand_type_exec(subst, *t, loc, diags);
            let nrest = expand_types_exec(subst, *rest, loc, diags);
            proof {
                assert(diags@ =~= d0 + expand_types(*subst, Types::Cons(t, rest), loc).1);
            }
            Types::Cons(Box::new(nt), Box::new(nrest))
        },
    }
}

/// Whether values of a type can be copied.
pub fn type_has_copy(t: &Type) -> (r: bool)
    ensures
        r == has_copy(*t),
    decreases t,
{
    match t {
        Type::Param { copyable, .. } => *copyable,
        Type::Builtin(BuiltinTypeName::Signer, _) => false,
        Type::Builtin(_, args) => types_have_copy(args),
        Type::Struct { copyable, args, .. } => *copyable && types_have_copy(args),
        _ => true,
    }
}

/// Whether values of every type of a list can be copied.
pub fn types_have_copy(ts: &Types) -> (r: bool)
    ensures
        r == all_copy(*ts),
    decreases ts,
{
    match ts {
        Types::Nil => true,
        Types::Cons(t, rest) => type_has_copy(t) && types_have_copy(rest),
    }
}

/// Whether a number fits a numeric type.
pub fn fits_type(v: U256, bt: BuiltinTypeName) -> (r: bool)
    requires
        is_numeric(bt),
    ensures
        r == (u256_value(v) <= max_of(bt)),
{
    let max_lo: u128 = match bt {
        BuiltinTypeName::U8 => 0xff,
        BuiltinTypeName::U16 => 0xffff,
        BuiltinTypeName::U32 => 0xffff_ffff,
        BuiltinTypeName::U64 => 0xffff_ffff_ffff_ffff,
        BuiltinTypeName::U128 => 0xffff_ffff_ffff_ffff_ffff_ffff_ffff_ffff,
        _ => {
            proof {
                assert(v.hi as nat * two_pow_128() <= (two_pow_128() - 1) * two_pow_128())
                    by (nonlinear_arith)
                    requires
                        v.hi < two_pow_128(),
                ;
            }
            return true;
        },
    };
    proof {
        if v.hi > 0 {
            assert(v.hi as nat * two_pow_128() >= two_pow_128()) by (nonlinear_arith)
                requires
                    v.hi >= 1,
            ;
        }
    }
    v.hi == 0 && v.lo <= max_lo
}

/// The smallest numeric type above `u8` that holds a number.
pub fn fitting_type_exec(v: U256) -> (r: BuiltinTypeName)
    ensures
        r == fitting_type(u256_value(v)),
{
    proof {
        if v.hi > 0 {
            assert(v.hi as nat * two_pow_128() >= two_pow_128()) by (nonlinear_arith)
                requires
                    v.hi >= 1,
            ;
        }
    }
    if v.hi > 0 {
        BuiltinTypeName::U256
    } else if v.lo > 0xffff_ffff_ffff_ffff {
        BuiltinTypeName::U128
    } else if v.lo > 0xffff_ffff {
        BuiltinTypeName::U64
    } else if v.lo > 0xffff {
        BuiltinTypeName::U32
    } else {
        BuiltinTypeName::U16
    }
}

fn builtin_numeric(ty: &Type) -> (r: Option<BuiltinTypeName>)
    ensures
        r == (match *ty {
            Type::Builtin(bt, _) => if is_numeric(bt) { Some(bt) } else { None },
            _ => None,
        }),
{
    match ty {
        Type::Builtin(bt, _) => match bt {
            BuiltinTypeName::U8 | BuiltinTypeName::U16 | BuiltinTypeName::U32 | BuiltinTypeName::U64
            | BuiltinTypeName::U128 | BuiltinTypeName::U256 => Some(*bt),
            _ => None,
        },
        _ => None,
    }
}

/// Resolves an inferred number literal against its expanded type.
pub fn resolve_number_exec(v: U256, ty: &Type, loc: u64, diags: &mut Vec<TypingDiag>) -> (r: (
    UnannotatedExp,
    bool,
))
    ensures
        r.0 == resolve_number(v, *ty, loc).0,
        r.1 == resolve_number(v, *ty, loc).1,
        final(diags)@ == old(diags)@ + resolve_number(v, *ty, loc).2,
{
    match builtin_numeric(ty) {
        None => {
            diags.push(TypingDiag::NumberTypeNotInferred { loc });
            (UnannotatedExp::UnresolvedError, true)
        },
        Some(bt) => {
            if !fits_type(v, bt) {
                let fix = fitting_type_exec(v);
                diags.push(TypingDiag::InvalidNum { loc, expected: bt, value: v, fix });
                (UnannotatedExp::UnresolvedError, false)
            } else {
                proof {
                    assert(old(diags)@ + Seq::<TypingDiag>::empty() =~= old(diags)@);
                }
                let value = match bt {
                    BuiltinTypeName::U8 => Value::U8(v.lo as u8),
                    BuiltinTypeName::U16 => Value::U16(v.lo as u16),
                    BuiltinTypeName::U32 => Value::U32(v.lo as u32),
                    BuiltinTypeName::U64 => Value::U64(v.lo as u64),
                    BuiltinTypeName::U128 => Value::U128(v.lo),
                    _ => Value::U256(v),
                };
                (UnannotatedExp::Value(value), false)
            }
        },
    }
}

fn drops_type_exec(e: &UnannotatedExp) -> (r: bool)
    ensures
        r == drops_type(*e),
{
    match e {
        UnannotatedExp::Give(_, _) | UnannotatedExp::Continue(_) | UnannotatedExp::Return(_)
        | UnannotatedExp::Abort(_) => true,
        UnannotatedExp::Loop { has_break, .. } => !*has_break,
        _ => false,
    }
}

fn expand_type_of_exec(subst: &Subst, ty: Type, loc: u64, drops: bool, diags: &mut Vec<TypingDiag>) -> (r: Type)
    ensures
        r == expand_type_of(*subst, ty, loc, drops).0,
        final(diags)@ == old(diags)@ + expand_type_of(*subst, ty, loc, drops).1,
{
    if drops {
        let unfolded = match ty {
            Type::Var(v) => match subst.solution(v) {
                Some(s) => s,
                None => Type::Anything,
            },
            other => other,
        };
        match unfolded {
            Type::Anything => {
                proof {
                    assert(old(diags)@ + Seq::<TypingDiag>::empty() =~= old(diags)@);
                }
            },
            u => {
                let _ = expand_type_exec(subst, u, loc, diags);
            },
        }
        Type::Anything
    } else {
        expand_type_exec(subst, ty, loc, diags)
    }
}

/// Expands an expression, appending the reports it gives.
pub fn expand_exp_exec(subst: &Subst, e: Exp, diags: &mut Vec<TypingDiag>) -> (r: Exp)
    ensures
        r == expand_exp(*subst, e).0,
        final(diags)@ == old(diags)@ + expand_exp(*subst, e).1,
    decreases e,
{
    let ghost e0 = e;
    let ghost d0 = diags@;
    let drops = drops_type_exec(&e.exp);
    let Exp { loc, ty, exp } = e;
    let ty = expand_type_of_exec(subst, ty, loc, drops, diags);
    let ghost dt = diags@;
    let r = match exp {
        UnannotatedExp::Use(var) => {
            let c = type_has_copy(&ty);
            Exp {
                loc,
                ty,
                exp: if c {
                    UnannotatedExp::Copy { from_user: false, var }
                } else {
                    UnannotatedExp::Move { from_user: false, var }
                },
            }
        },
        UnannotatedExp::Value(Value::InferredNum(v)) => {
            let (ne, err_ty) = resolve_number_exec(v, &ty, loc, diags);
            Exp { loc, ty: if err_ty { Type::UnresolvedError } else { ty }, exp: ne }
        },
        UnannotatedExp::ModuleCall { type_arguments, arguments } => {
            let targs = expand_types_exec(subst, *type_arguments, loc, diags);
            let args = expand_list_exec(subst, *arguments, diags);
            Exp {
                loc,
                ty,
                exp: UnannotatedExp::ModuleCall {
                    type_arguments: Box::new(targs),
                    arguments: Box::new(args),
                },
            }
        },
        UnannotatedExp::Vector(elem_ty, args) => {
            let nt = expand_type_exec(subst, *elem_ty, loc, diags);
            let nargs = expand_list_exec(subst, *args, diags);
            Exp { loc, ty, exp: UnannotatedExp::Vector(Box::new(nt), Box::new(nargs)) }
        },
        UnannotatedExp::IfElse(b, t, f) => {
            let nb = expand_exp_exec(subst, *b, diags);
            let nt = expand_exp_exec(subst, *t, diags);
            let nf = expand_exp_exec(subst, *f, diags);
            Exp { loc, ty, exp: UnannotatedExp::IfElse(Box::new(nb), Box::new(nt), Box::new(nf)) }
        },
        UnannotatedExp::While(b, body) => {
            let nb = expand_exp_exec(subst, *b, diags);
            let nbody = expand_exp_exec(subst, *body, diags);
            Exp { loc, ty, exp: UnannotatedExp::While(Box::new(nb), Box::new(nbody)) }
        },
        UnannotatedExp::Loop { has_break, body } => {
            let nbody = expand_exp_exec(subst, *body, diags);
            Exp { loc, ty, exp: UnannotatedExp::Loop { has_break, body: Box::new(nbody) } }
        },
        UnannotatedExp::Block(items) => {
            let nitems = expand_list_exec(subst, *items, diags);
            Exp { loc, ty, exp: UnannotatedExp::Block(Box::new(nitems)) }
        },
        UnannotatedExp::Return(x) => {
            let nx = expand_exp_exec(subst, *x, diags);
            Exp { loc, ty, exp: UnannotatedExp::Return(Box::new(nx)) }
        },
        UnannotatedExp::Abort(x) => {
            let nx = expand_exp_exec(subst, *x, diags);
            Exp { loc, ty, exp: UnannotatedExp::Abort(Box::new(nx)) }
        },
        UnannotatedExp::Give(label, x) => {
            let nx = expand_exp_exec(subst, *x, diags);
            Exp { loc, ty, exp: UnannotatedExp::Give(label, Box::new(nx)) }
        },
        UnannotatedExp::Dereference(x) => {
            let nx = expand_exp_exec(subst, *x, diags);
            Exp { loc, ty, exp: UnannotatedExp::Dereference(Box::new(nx)) }
        },
        UnannotatedExp::UnaryExp(op, x) => {
            let nx = expand_exp_exec(subst, *x, diags);
            Exp { loc, ty, exp: UnannotatedExp::UnaryExp(op, Box::new(nx)) }
        },
        UnannotatedExp::Borrow(m, x, f) => {
            let nx = expand_exp_exec(subst, *x, diags);
            Exp { loc, ty, exp: UnannotatedExp::Borrow(m, Box::new(nx), f) }
        },
        UnannotatedExp::TempBorrow(m, x) => {
            let nx = expand_exp_exec(subst, *x, diags);
            Exp { loc, ty, exp: UnannotatedExp::TempBorrow(m, Box::new(nx)) }
        },
        UnannotatedExp::Mutate(l, r) => {
            let nl = expand_exp_exec(subst, *l, diags);
            let nr = expand_exp_exec(subst, *r, diags);
            Exp { loc, ty, exp: UnannotatedExp::Mutate(Box::new(nl), Box::new(nr)) }
        },
        UnannotatedExp::BinopExp(l, op, operand_ty, r) => {
            let nl = expand_exp_exec(subst, *l, diags);
            let nr = expand_exp_exec(subst, *r, diags);
            let nty = expand_type_exec(subst, *operand_ty, loc, diags);
            Exp {
                loc,
                ty,
                exp: UnannotatedExp::BinopExp(Box::new(nl), op, Box::new(nty), Box::new(nr)),
            }
        },
        UnannotatedExp::Cast(x, t) => {
            let nx = expand_exp_exec(subst, *x, diags);
            let nt = expand_type_exec(subst, *t, loc, diags);
            Exp { loc, ty, exp: UnannotatedExp::Cast(Box::new(nx), Box::new(nt)) }
        },
        UnannotatedExp::Annotate(x, t) => {
            let nx = expand_exp_exec(subst, *x, diags);
            let nt = expand_type_exec(subst, *t, loc, diags);
            Exp { loc, ty, exp: UnannotatedExp::Annotate(Box::new(nx), Box::new(nt)) }
        },
        other => {
            proof {
                assert(dt + Seq::<TypingDiag>::empty() =~= dt);
            }
            Exp { loc, ty, exp: other }
        },
    };
    proof {
        assert(diags@ =~= d0 + expand_exp(*subst, e0).1);
    }
    r
}

/// Expands a list of expressions, appending the reports they give.
pub fn expand_list_exec(subst: &Subst, es: ExpList, diags: &mut Vec<TypingDiag>) -> (r: ExpList)
    ensures
        r == expand_list(*subst, es).0,
        final(diags)@ == old(diags)@ + expand_list(*subst, es).1,
    decreases es,
{
    match es {
        ExpList::Nil => {
            proof {
                assert(old(diags)@ + Seq::<TypingDiag>::empty() =~= old(diags)@);
            }
            ExpList::Nil
        },
        ExpList::Cons(e, rest) => {
            let ghost d0 = diags@;
            let ne = expand_exp_exec(subst, *e, diags);
            let nrest = expand_list_exec(subst, *rest, diags);
            proof {
                assert(diags@ =~= d0 + expand_list(*subst, ExpList::Cons(e, rest)).1);
            }
            ExpList::Cons(Box::new(ne), Box::new(nrest))
        },
    }
}

/// The expansion pass on one expression of a typed body: every type is
/// replaced by its solution, each use of a local becomes a copy when its
/// type can be copied and a move otherwise, and each inferred number literal
/// becomes a value of its inferred type when it fits, or an error with an
/// invalid-number report naming the smallest type that holds it.
pub fn exp(subst: &Subst, e: &mut Exp, diags: &mut Vec<TypingDiag>)
    requires
        subst.wf(),
    ensures
        *final(e) == expand_exp(*subst, *old(e)).0,
        final(diags)@ == old(diags)@ + expand_exp(*subst, *old(e)).1,
{
    let mut taken = Exp { loc: 0, ty: Type::Unit, exp: UnannotatedExp::Unit };
    core::mem::swap(&mut taken, e);
    *e = expand_exp_exec(subst, taken, diags);
}
} // verus!
