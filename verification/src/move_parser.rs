//! The Move source parser, over a token stream: files, address blocks,
//! modules and their members (with attributes and modifiers), types,
//! bindings, expressions and spec quantifiers.
//!
//! A token carries its kind and its byte span in the source; names, numbers,
//! labels and access chains in the syntax tree are spans of the source. Each
//! grammar rule is a spec function from a position in the stream to a result
//! and the position after it, and the parser computes exactly that.
//!
//! The parser reads the Move 2024 edition. A control expression that ends in
//! a block ends the expression unless a binary operator follows; the words
//! `forall`, `exists`, `choose`, `min`, `where`, `in` and the words a
//! declaration reads by their text (`entry`, `has`, `address`, ...) are
//! identifiers wherever they play no other part. A file definition that
//! fails is reported and parsing resumes at the next `module` or `spec`; a
//! module member that fails is reported and parsing resumes at the next
//! member or module.
use vstd::prelude::*;

verus! {

/// The kinds of tokens the grammar reads.
#[derive(Clone, Copy, Debug, PartialEq, Eq, Structural)]
pub enum Tok {
    EOF,
    NumValue,
    NumTypedValue,
    Identifier,
    True,
    False,
    Copy,
    Move,
    Mut,
    Let,
    If,
    Else,
    While,
    Loop,
    Return,
    Abort,
    Break,
    Continue,
    BlockLabel,
    LParen,
    RParen,
    LBrace,
    RBrace,
    Comma,
    Colon,
    Semicolon,
    Equal,
    Exclaim,
    Amp,
    AmpMut,
    Star,
    Plus,
    Minus,
    Slash,
    Percent,
    EqualEqual,
    ExclaimEqual,
    Less,
    Greater,
    LessEqual,
    GreaterEqual,
    AmpAmp,
    PipePipe,
    Pipe,
    Caret,
    LessLess,
    GreaterGreater,
    EqualEqualGreater,
    LessEqualEqualGreater,
    PeriodPeriod,
    ColonColon,
    /// The words that start or shape spec quantifiers; elsewhere they are
    /// identifiers.
    Forall,
    Exists,
    Choose,
    Min,
    Where,
    In,
    LBracket,
    RBracket,
    NumSign,
    AtSign,
    Period,
    MinusGreater,
    ByteStringValue,
    As,
    Module,
    Spec,
    Fun,
    Const,
    Struct,
    Use,
    Friend,
    Public,
    Native,
    Invariant,
    Acquires,
    For,
    Enum,
    Match,
    Type,
    /// Words that a declaration reads by their text; elsewhere they are
    /// identifiers.
    Entry,
    Macro,
    Has,
    Phantom,
    Address,
    Drop,
    Store,
    Key,
    Package,
    Vector,
}

/// A token: its kind and the byte span it covers in the source.
#[derive(Clone, Copy, Debug, PartialEq, Eq, Structural)]
pub struct Token {
    pub tok: Tok,
    pub start: usize,
    pub end: usize,
}

/// A span of the source (a name, a number, a block label).
#[derive(Clone, Copy, Debug, PartialEq, Eq, Structural)]
pub struct Span {
    pub start: usize,
    pub end: usize,
}

#[derive(Clone, Copy, Debug, PartialEq, Eq, Structural)]
pub enum BinOp {
    Eq,
    Neq,
    Lt,
    Gt,
    Le,
    Ge,
    Or,
    And,
    Xor,
    BitOr,
    BitAnd,
    Shl,
    Shr,
    Add,
    Sub,
    Mul,
    Div,
    Mod,
    Range,
    Implies,
    Iff,
}

/// A literal value.
#[derive(Clone, Copy, Debug, PartialEq, Eq, Structural)]
pub enum ParsedValue {
    Num(Span),
    TypedNum(Span),
    Bool(bool),
    /// `@` and an address or a named address (its span).
    Address(Span),
    /// A `b"..."` or `x"..."` literal (its span).
    ByteString(Span),
}

/// An expression with the span it covers.
#[derive(Debug)]
pub struct Exp {
    pub start: usize,
    pub end: usize,
    pub exp: Exp_,
}

/// The forms of expressions.
#[derive(Debug)]
pub enum Exp_ {
    Value(ParsedValue),
    /// A name access chain (its span) with optional type arguments.
    Name(Span, Option<Box<TypeList>>),
    /// A call of a named function, whether it is a macro call, its type
    /// arguments and its arguments.
    Call(Span, bool, Option<Box<TypeList>>, Box<ExpList>),
    /// A struct literal: the struct's name, type arguments and fields.
    Pack(Span, Option<Box<TypeList>>, Box<Items>),
    /// `vector<T>[...]`: the span of `vector`, the type arguments, the elements.
    Vector(Span, Option<Box<TypeList>>, Box<ExpList>),
    Dot(Box<Exp>, Span),
    DotCall(Box<Exp>, Span, bool, Option<Box<TypeList>>, Box<ExpList>),
    Index(Box<Exp>, Box<ExpList>),
    Cast(Box<Exp>, Box<Type>),
    Annotate(Box<Exp>, Box<Type>),
    /// A lambda: its bindings, optional return type and body.
    Lambda(Box<Items>, Option<Box<Type>>, Box<Exp>),
    /// A spec block (its span).
    Spec(Span),
    Unit,
    Parens(Box<Exp>),
    ExpList(Box<ExpList>),
    Block(Box<Sequence>),
    IfElse(Box<Exp>, Box<Exp>, Option<Box<Exp>>),
    While(Box<Exp>, Box<Exp>),
    Loop(Box<Exp>),
    Return(Option<Span>, Option<Box<Exp>>),
    Abort(Box<Exp>),
    Break(Option<Span>, Option<Box<Exp>>),
    Continue(Option<Span>),
    Labeled(Span, Box<Exp>),
    Assign(Box<Exp>, Box<Exp>),
    BinopExp(Box<Exp>, BinOp, Box<Exp>),
    Not(Box<Exp>),
    Borrow(bool, Box<Exp>),
    Dereference(Box<Exp>),
    Move(Box<Exp>),
    Copy(Box<Exp>),
    /// A spec quantifier: its kind, bindings, triggers, condition and body.
    Quant(QuantKind, Box<QuantBindings>, Box<Triggers>, Option<Box<Exp>>, Box<Exp>),
}

/// A type with the span it covers.
#[derive(Debug)]
pub struct Type {
    pub start: usize,
    pub end: usize,
    pub ty: Type_,
}

/// The forms of types.
#[derive(Debug)]
pub enum Type_ {
    Unit,
    /// A tuple of two or more types.
    Multiple(Box<TypeList>),
    Ref(bool, Box<Type>),
    /// A named type (its access chain's span) with its type arguments.
    Apply(Span, Box<TypeList>),
    /// A function type: argument types and result type.
    Fun(Box<TypeList>, Box<Type>),
}

/// A list of types.
#[derive(Debug)]
pub enum TypeList {
    Nil,
    Cons(Box<Type>, Box<TypeList>),
}

#[derive(Clone, Copy, Debug, PartialEq, Eq, Structural)]
pub enum QuantKind {
    Forall,
    Exists,
    Choose,
    ChooseMin,
}

/// What a quantified variable ranges over.
#[derive(Debug)]
pub enum QuantRange {
    /// All values of a type.
    Domain(Box<Type>),
    /// The elements of a value (a vector or a range).
    In(Box<Exp>),
}

/// A quantified variable and its range, with the span they cover.
#[derive(Debug)]
pub struct QuantBinding {
    pub start: usize,
    pub end: usize,
    pub var: Span,
    pub range: QuantRange,
}

#[derive(Debug)]
pub enum QuantBindings {
    Nil,
    Cons(Box<QuantBinding>, Box<QuantBindings>),
}

/// The trigger lists of a quantifier, each `{ e, ... }`.
#[derive(Debug)]
pub enum Triggers {
    Nil,
    Cons(Box<ExpList>, Box<Triggers>),
}

/// A list of expressions.
#[derive(Debug)]
pub enum ExpList {
    Nil,
    Cons(Box<Exp>, Box<ExpList>),
}

/// An item of a block.
#[derive(Debug)]
pub enum SequenceItem {
    Expr(Box<Exp>),
    /// `let` bindings with an optional type and no value.
    Declare(Box<Items>, Option<Box<Type>>),
    /// `let` bindings with an optional type and a value.
    Bind(Box<Items>, Option<Box<Type>>, Box<Exp>),
}

/// The items of a block, in order.
#[derive(Debug)]
pub enum SequenceItems {
    Nil,
    Cons(Box<SequenceItem>, Box<SequenceItems>),
}

/// A block: its items, each ended by `;`, and the final expression, if any.
#[derive(Debug)]
pub struct Sequence {
    pub uses: UseDecls,
    pub items: SequenceItems,
    pub last: Option<Box<Exp>>,
}

/// A binding with the span it covers.
#[derive(Debug)]
pub struct Bind {
    pub start: usize,
    pub end: usize,
    pub bind: Bind_,
}

#[derive(Debug)]
pub enum Bind_ {
    /// A variable, and whether it is declared `mut`.
    Var(bool, Span),
    /// An unpacking of a struct: its name, type arguments, field bindings,
    /// and whether they are positional.
    Unpack(Span, Option<Box<TypeList>>, Box<Items>, bool),
}

/// The kinds of comma-separated lists, by what their items are.
#[derive(Clone, Copy, Debug, PartialEq, Eq, Structural)]
pub enum ListKind {
    ExpField,
    Bind,
    BindField,
    LambdaBind,
    Attribute,
    Param,
    FieldAnnot,
    PosField,
    TypeParam,
    StructTypeParam,
    UseModule,
    UseMember,
}

/// An item of a comma-separated list.
#[derive(Debug)]
pub enum Item {
    /// A field of a struct literal and its value.
    ExpField(Span, Box<Exp>),
    Bind(Box<Bind>),
    /// A field of an unpacking and its binding.
    BindField(Span, Box<Bind>),
    /// The bindings of a lambda parameter and its optional type.
    LambdaBind(Box<Items>, Option<Box<Type>>),
    Attribute(Box<Attribute>),
    /// A function parameter: whether it is `mut`, its name and type.
    Param(bool, Span, Box<Type>),
    /// A named struct field and its type.
    FieldAnnot(Span, Box<Type>),
    /// A positional struct field's type.
    PosField(Box<Type>),
    /// A type parameter: whether it is phantom, its name, its constraints.
    TypeParam(bool, Span, Box<Abilities>),
    UseModule(Box<UseModule>),
    /// A member of a module in a `use`, with its alias.
    UseMember(Span, Option<Span>),
}

#[derive(Debug)]
pub enum Items {
    Nil,
    Cons(Box<Item>, Box<Items>),
}

#[derive(Clone, Copy, Debug, PartialEq, Eq, Structural)]
pub enum Ability {
    Copy,
    Drop,
    Store,
    Key,
}

#[derive(Debug)]
pub enum Abilities {
    Nil,
    Cons(Ability, Span, Box<Abilities>),
}

/// An attribute with the span it covers.
#[derive(Debug)]
pub struct Attribute {
    pub start: usize,
    pub end: usize,
    pub attr: Attribute_,
}

#[derive(Debug)]
pub enum Attribute_ {
    Name(Span),
    Assigned(Span, AttributeValue),
    Parameterized(Span, Box<Items>),
}

#[derive(Debug)]
pub enum AttributeValue {
    Value(ParsedValue),
    ModuleAccess(Span),
}

/// The attribute groups `#[...]` before a declaration, each with its span.
#[derive(Debug)]
pub enum AttrGroups {
    Nil,
    Cons(Span, Box<Items>, Box<AttrGroups>),
}

#[derive(Clone, Copy, Debug, PartialEq, Eq, Structural)]
pub enum Visibility {
    Public(Span),
    Friend(Span),
    Package(Span),
}

/// The modifiers before a module member.
#[derive(Clone, Copy, Debug, PartialEq, Eq, Structural)]
pub struct Modifiers {
    pub visibility: Option<Visibility>,
    pub entry: Option<Span>,
    pub native: Option<Span>,
    pub macro_: Option<Span>,
}

/// A list of name access chains.
#[derive(Debug)]
pub enum Names {
    Nil,
    Cons(Span, Box<Names>),
}

#[derive(Debug)]
pub enum FunctionBody {
    Native,
    Defined(Box<Sequence>),
}

#[derive(Debug)]
pub struct Function {
    pub attributes: AttrGroups,
    pub start: usize,
    pub end: usize,
    pub modifiers: Modifiers,
    pub name: Span,
    pub type_parameters: Items,
    pub parameters: Items,
    pub return_type: Option<Box<Type>>,
    pub acquires: Names,
    pub body: FunctionBody,
}

#[derive(Debug)]
pub enum StructFields {
    Native,
    Named(Box<Items>),
    Positional(Box<Items>),
}

#[derive(Debug)]
pub struct StructDecl {
    pub attributes: AttrGroups,
    pub start: usize,
    pub end: usize,
    pub modifiers: Modifiers,
    pub name: Span,
    pub type_parameters: Items,
    pub abilities: Abilities,
    pub fields: StructFields,
}

#[derive(Debug)]
pub struct Constant {
    pub attributes: AttrGroups,
    pub start: usize,
    pub end: usize,
    pub name: Span,
    pub signature: Box<Type>,
    pub value: Box<Exp>,
}

#[derive(Debug)]
pub struct FriendDecl {
    pub attributes: AttrGroups,
    pub start: usize,
    pub end: usize,
    pub friend: Span,
}

/// What a `use` of a module brings in.
#[derive(Debug)]
pub enum ModuleUse {
    /// The module itself, with an optional alias.
    Module(Option<Span>),
    /// Members of the module, with their aliases.
    Members(Box<Items>),
}

#[derive(Debug)]
pub struct UseModule {
    pub name: Span,
    pub use_: ModuleUse,
}

#[derive(Debug)]
pub enum Use {
    /// `use fun f as T.m`: the visibility, function, type and method name.
    Fun(Option<Visibility>, Span, Span, Span),
    /// A module of an address.
    ModuleUse(Span, Box<UseModule>),
    /// Several modules of an address.
    NestedModuleUses(Span, Box<Items>),
}

#[derive(Debug)]
pub struct UseDecl {
    pub attributes: AttrGroups,
    pub start: usize,
    pub end: usize,
    pub use_: Use,
}

#[derive(Debug)]
pub enum UseDecls {
    Nil,
    Cons(Box<UseDecl>, Box<UseDecls>),
}

#[derive(Debug)]
pub enum ModuleMember {
    Function(Box<Function>),
    Struct(Box<StructDecl>),
    Constant(Box<Constant>),
    Use(Box<UseDecl>),
    Friend(Box<FriendDecl>),
    /// A spec block or invariant (its span).
    Spec(Span),
}

/// What parsing a module member gives: the member, or the start of the
/// next module (reached while recovering), with the attributes already read
/// for it and the error reported.
#[derive(Debug)]
pub enum MemberOut {
    Member(Box<ModuleMember>),
    ContinueToModule(AttrGroups, ParseError),
}

#[derive(Debug)]
pub enum Members {
    Nil,
    Cons(Box<ModuleMember>, Box<Members>),
}

#[derive(Debug)]
pub struct ModuleDefinition {
    pub attributes: AttrGroups,
    pub start: usize,
    pub end: usize,
    pub address: Option<Span>,
    pub name: Span,
    pub is_spec_module: bool,
    pub members: Members,
}

#[derive(Debug)]
pub enum Modules {
    Nil,
    Cons(Box<ModuleDefinition>, Box<Modules>),
}

#[derive(Debug)]
pub struct AddressDefinition {
    pub attributes: AttrGroups,
    pub start: usize,
    pub end: usize,
    pub addr: Span,
    pub modules: Modules,
}

#[derive(Debug)]
pub enum Definition {
    Module(Box<ModuleDefinition>),
    Address(Box<AddressDefinition>),
}

#[derive(Debug)]
pub enum Definitions {
    Nil,
    Cons(Box<Definition>, Box<Definitions>),
}

/// A report recorded while parsing goes on.
#[derive(Clone, Copy, Debug, PartialEq, Eq, Structural)]
pub enum Diag {
    Syntax(ParseError),
    /// An `address` block (the span of the word `address`); such blocks are
    /// deprecated.
    DeprecatedAddressBlock(Span),
}

#[derive(Debug, PartialEq, Eq)]
pub enum Diags {
    Nil,
    Cons(Diag, Box<Diags>),
}

/// What the parsing of a module member list gives: the members, the
/// attributes of the next module if recovery reached one, the reports, and
/// whether parsing of the module stopped before its closing brace.
#[derive(Debug)]
pub struct MembersOut {
    pub members: Members,
    pub next: Option<Box<AttrGroups>>,
    pub diags: Diags,
    pub stop: bool,
}

/// A module: its definition, the attributes of the module that follows
/// when recovery reached one, and the reports.
#[derive(Debug)]
pub struct ModuleOut {
    pub def: ModuleDefinition,
    pub next: Option<Box<AttrGroups>>,
    pub diags: Diags,
}

/// An error that ends a file definition, with the reports made before it.
#[derive(Debug)]
pub struct Failed {
    pub error: ParseError,
    pub diags: Diags,
}

/// What the parser expected where it stopped.
#[derive(Clone, Copy, Debug, PartialEq, Eq, Structural)]
pub enum Expected {
    Token(Tok),
    ExpressionTerm,
    Identifier,
    /// An item of a comma-separated list.
    ListItem,
    AddressOrIdentifier,
    /// A module member: `spec`, `use`, `friend`, `const`, `fun` or `struct`.
    ModuleMember,
    /// A spec block `spec { ... }`.
    SpecBlock,
    /// `copy`, `drop`, `store` or `key`.
    Ability,
    /// A separator or end of an ability list.
    AbilityListContinuation,
    /// `public`, `public(friend)` or `public(package)`.
    Visibility,
    /// A type annotation on a constant.
    TypeAnnotation,
    /// `address` or `module` at the top of a file.
    CodeUnit,
    /// `spec` without `fun` before a function spec block.
    SpecWithoutFun,
}

/// A syntax error: the span and kind of the token found, and what was
/// expected there.
#[derive(Clone, Copy, Debug, PartialEq, Eq, Structural)]
pub struct ParseError {
    pub start: usize,
    pub end: usize,
    pub found: Tok,
    pub expected: Expected,
}

// ---------------------------------------------------------------------------
// The token stream
// ---------------------------------------------------------------------------

/// The kind of the token at `p`; the last token of the stream, and any
/// position past it, read as end of file.
pub open spec fn peek(s: Seq<Token>, p: int) -> Tok {
    if 0 <= p < s.len() - 1 {
        s[p].tok
    } else {
        Tok::EOF
    }
}

/// The position after the token at `p`; end of file is never passed.
pub open spec fn adv(s: Seq<Token>, p: int) -> int {
    if 0 <= p < s.len() - 1 {
        p + 1
    } else {
        p
    }
}

pub open spec fn start_at(s: Seq<Token>, p: int) -> usize {
    if 0 <= p < s.len() {
        s[p].start
    } else {
        0
    }
}

/// The end of the last token consumed before `p`.
pub open spec fn prev_end(s: Seq<Token>, p: int) -> usize {
    if 1 <= p <= s.len() {
        s[p - 1].end
    } else {
        0
    }
}

pub open spec fn span_at(s: Seq<Token>, p: int) -> Span {
    if 0 <= p < s.len() {
        Span { start: s[p].start, end: s[p].end }
    } else {
        Span { start: 0, end: 0 }
    }
}

/// The error for an unexpected token at `p`.
pub open spec fn unexpected(s: Seq<Token>, p: int, expected: Expected) -> ParseError {
    ParseError {
        start: start_at(s, p),
        end: span_at(s, p).end,
        found: peek(s, p),
        expected,
    }
}

/// The error for a list that holds an empty item at `p`.
pub open spec fn missing_item(s: Seq<Token>, p: int) -> ParseError {
    ParseError {
        start: start_at(s, p),
        end: start_at(s, p),
        found: peek(s, p),
        expected: Expected::ListItem,
    }
}

/// The measure that the mutually recursive parsing functions decrease: the
/// tokens left, then the function's place in the grammar.
pub open spec fn measure(len: int, p: int, rank: int) -> int {
    (if p < len {
        len - p
    } else {
        0
    }) * 32 + rank
}

/// A position no earlier than `p`.
pub open spec fn no_earlier(q: int, p: int) -> int {
    if q < p {
        p
    } else {
        q
    }
}

/// A position later than `p`.
pub open spec fn later(q: int, p: int) -> int {
    if q <= p {
        p + 1
    } else {
        q
    }
}

/// The tokens that stand for an identifier.
pub open spec fn is_identifier(t: Tok) -> bool {
    matches!(t, Tok::Identifier | Tok::Forall | Tok::Exists | Tok::Choose | Tok::Min | Tok::Where | Tok::In | Tok::Entry | Tok::Macro | Tok::Has | Tok::Phantom | Tok::Address | Tok::Drop | Tok::Store | Tok::Key | Tok::Package | Tok::Vector)
}

/// Whether a quantifier starts at `p`: its word, then a variable, then `:`
/// or another identifier.
pub open spec fn is_quant(s: Seq<Token>, p: int) -> bool {
    &&& matches!(peek(s, p), Tok::Forall | Tok::Exists | Tok::Choose)
    &&& is_identifier(peek(s, p + 1))
    &&& (peek(s, p + 2) == Tok::Colon || is_identifier(peek(s, p + 2)))
}

pub open spec fn is_control_exp(t: Tok) -> bool {
    matches!(
        t,
        Tok::Break | Tok::Continue | Tok::If | Tok::While | Tok::Loop | Tok::Return | Tok::Abort
            | Tok::BlockLabel
    )
}

/// The tokens that may follow an expression.
pub open spec fn at_end_of_exp(t: Tok) -> bool {
    matches!(t, Tok::Else | Tok::RBrace | Tok::RParen | Tok::Comma | Tok::Colon | Tok::Semicolon)
}

/// The tokens an expression may start with.
pub open spec fn at_start_of_exp(t: Tok) -> bool {
    matches!(
        t,
        Tok::NumValue | Tok::NumTypedValue | Tok::ByteStringValue | Tok::AtSign | Tok::Identifier | Tok::Forall | Tok::Exists | Tok::Choose | Tok::Min | Tok::Where | Tok::In | Tok::Entry | Tok::Macro | Tok::Has | Tok::Phantom | Tok::Address | Tok::Drop | Tok::Store | Tok::Key | Tok::Package | Tok::Vector | Tok::Copy | Tok::Move | Tok::False
            | Tok::True | Tok::Amp | Tok::AmpMut | Tok::Star | Tok::Exclaim | Tok::LParen
            | Tok::LBrace | Tok::Abort | Tok::Break | Tok::Continue | Tok::If | Tok::Loop
            | Tok::Return | Tok::While | Tok::BlockLabel
    )
}

/// The precedence of a binary operator, 0 for any other token.
pub open spec fn precedence(t: Tok) -> u32 {
    match t {
        Tok::EqualEqualGreater | Tok::LessEqualEqualGreater => 2,
        Tok::PipePipe => 3,
        Tok::AmpAmp => 4,
        Tok::EqualEqual | Tok::ExclaimEqual | Tok::Less | Tok::Greater | Tok::LessEqual
        | Tok::GreaterEqual => 5,
        Tok::As => 6,
        Tok::PeriodPeriod => 7,
        Tok::Pipe => 8,
        Tok::Caret => 9,
        Tok::Amp => 10,
        Tok::LessLess | Tok::GreaterGreater => 11,
        Tok::Plus | Tok::Minus => 12,
        Tok::Star | Tok::Slash | Tok::Percent => 13,
        _ => 0,
    }
}

/// How Move source writes a binary operator, as ASCII bytes.
pub open spec fn binop_symbol(op: BinOp) -> Seq<u8> {
    match op {
        BinOp::Eq => seq![61u8, 61u8],
        BinOp::Neq => seq![33u8, 61u8],
        BinOp::Lt => seq![60u8],
        BinOp::Gt => seq![62u8],
        BinOp::Le => seq![60u8, 61u8],
        BinOp::Ge => seq![62u8, 61u8],
        BinOp::Or => seq![124u8, 124u8],
        BinOp::And => seq![38u8, 38u8],
        BinOp::Xor => seq![94u8],
        BinOp::BitOr => seq![124u8],
        BinOp::BitAnd => seq![38u8],
        BinOp::Shl => seq![60u8, 60u8],
        BinOp::Shr => seq![62u8, 62u8],
        BinOp::Add => seq![43u8],
        BinOp::Sub => seq![45u8],
        BinOp::Mul => seq![42u8],
        BinOp::Div => seq![47u8],
        BinOp::Mod => seq![37u8],
        BinOp::Range => seq![46u8, 46u8],
        BinOp::Implies => seq![61u8, 61u8, 62u8],
        BinOp::Iff => seq![60u8, 61u8, 61u8, 62u8],
    }
}

/// A token that the expression grammar reads as a binary operator.
pub open spec fn is_binop_token(t: Tok) -> bool {
    precedence(t) != 0 && t != Tok::As
}

/// The operator a binary-operator token stands for.
pub open spec fn binop_of(t: Tok) -> BinOp {
    match t {
        Tok::EqualEqual => BinOp::Eq,
        Tok::ExclaimEqual => BinOp::Neq,
        Tok::Less => BinOp::Lt,
        Tok::Greater => BinOp::Gt,
        Tok::LessEqual => BinOp::Le,
        Tok::GreaterEqual => BinOp::Ge,
        Tok::PipePipe => BinOp::Or,
        Tok::AmpAmp => BinOp::And,
        Tok::Caret => BinOp::Xor,
        Tok::Pipe => BinOp::BitOr,
        Tok::Amp => BinOp::BitAnd,
        Tok::LessLess => BinOp::Shl,
        Tok::GreaterGreater => BinOp::Shr,
        Tok::Plus => BinOp::Add,
        Tok::Minus => BinOp::Sub,
        Tok::Star => BinOp::Mul,
        Tok::Slash => BinOp::Div,
        Tok::Percent => BinOp::Mod,
        Tok::PeriodPeriod => BinOp::Range,
        Tok::EqualEqualGreater => BinOp::Implies,
        _ => BinOp::Iff,
    }
}

// ---------------------------------------------------------------------------
// The grammar, as spec functions from a position to a result and the
// position after it
// ---------------------------------------------------------------------------

/// Consumes a token of the given kind, or fails on what stands there.
pub open spec fn spec_consume(s: Seq<Token>, p: int, t: Tok) -> Result<int, ParseError> {
    if peek(s, p) == t {
        Ok(adv(s, p))
    } else {
        Err(unexpected(s, p, Expected::Token(t)))
    }
}

/// The label after `return`, `break` or `continue`, if one stands there.
pub open spec fn opt_label(s: Seq<Token>, p: int) -> (Option<Span>, int) {
    if peek(s, p) == Tok::BlockLabel {
        (Some(span_at(s, p)), adv(s, p))
    } else {
        (None, p)
    }
}

/// The type a parenthesized list of types stands for: a single type is that
/// type, more are a tuple.
pub open spec fn tuple_type(ts: TypeList) -> Type_ {
    match ts {
        TypeList::Cons(t1, rest) => match *rest {
            TypeList::Nil => t1.ty,
            _ => Type_::Multiple(Box::new(ts)),
        },
        TypeList::Nil => Type_::Unit,
    }
}

/// The kind of a quantifier at `p`, and the position after its words.
pub open spec fn quant_kind(s: Seq<Token>, p: int) -> (QuantKind, int) {
    let t = peek(s, p);
    let p1 = adv(s, p);
    if t == Tok::Forall {
        (QuantKind::Forall, p1)
    } else if t == Tok::Exists {
        (QuantKind::Exists, p1)
    } else if peek(s, p1) == Tok::Min {
        (QuantKind::ChooseMin, adv(s, p1))
    } else {
        (QuantKind::Choose, p1)
    }
}






/// No modifiers.
pub open spec fn empty_modifiers() -> Modifiers {
    Modifiers { visibility: None, entry: None, native: None, macro_: None }
}

/// The ability a token names.
pub open spec fn ability_of(t: Tok) -> Option<Ability> {
    match t {
        Tok::Copy => Some(Ability::Copy),
        Tok::Drop => Some(Ability::Drop),
        Tok::Store => Some(Ability::Store),
        Tok::Key => Some(Ability::Key),
        _ => None,
    }
}

/// Whether recovery stops at a token: with `mode` 0 at the start of a
/// member or module, otherwise at `spec` or `module`.
pub open spec fn recovery_stop(t: Tok, mode: u8) -> bool {
    if mode == 0 {
        matches!(
            t,
            Tok::Invariant | Tok::Spec | Tok::Friend | Tok::Public | Tok::Native | Tok::Const
                | Tok::Fun | Tok::Struct | Tok::Use | Tok::Module | Tok::NumSign | Tok::Entry
        )
    } else {
        matches!(t, Tok::Spec | Tok::Module)
    }
}

/// The position of the first token from `p` on where recovery stops, or of
/// the end of file.
pub open spec fn skip_to(s: Seq<Token>, p: int, mode: u8) -> int
    decreases s.len() - p,
{
    if peek(s, p) == Tok::EOF || recovery_stop(peek(s, p), mode) || p < 0 {
        p
    } else {
        skip_to(s, adv(s, p), mode)
    }
}

/// The position of the first `{` from `p` on, or of the end of file.
pub open spec fn skip_to_lbrace(s: Seq<Token>, p: int) -> int
    decreases s.len() - p,
{
    if peek(s, p) == Tok::EOF || peek(s, p) == Tok::LBrace || p < 0 {
        p
    } else {
        skip_to_lbrace(s, adv(s, p))
    }
}

/// The position after the `}` that closes `depth` open braces, from `p` on;
/// `None` when the file ends first.
pub open spec fn skip_braces(s: Seq<Token>, p: int, depth: nat) -> Option<int>
    decreases s.len() - p,
{
    let t = peek(s, p);
    if t == Tok::EOF || p < 0 {
        None
    } else {
        let d: int = if t == Tok::LBrace {
            depth + 1int
        } else if t == Tok::RBrace {
            depth - 1int
        } else {
            depth as int
        };
        if d <= 0 {
            Some(adv(s, p))
        } else {
            skip_braces(s, adv(s, p), d as nat)
        }
    }
}

/// The reports of `a`, then those of `b`.
pub open spec fn diags_append(a: Diags, b: Diags) -> Diags
    decreases a,
{
    match a {
        Diags::Nil => b,
        Diags::Cons(d, rest) => Diags::Cons(d, Box::new(diags_append(*rest, b))),
    }
}

/// The definitions of `a`, then those of `b`.
pub open spec fn defs_append(a: Definitions, b: Definitions) -> Definitions
    decreases a,
{
    match a {
        Definitions::Nil => b,
        Definitions::Cons(d, rest) => Definitions::Cons(d, Box::new(defs_append(*rest, b))),
    }
}

/// `Exp = <LambdaBindList> <Exp> | <LambdaBindList> "->" <Type> "{" <Sequence>
///      | <Quantifier> | <UnaryExp> "=" <Exp> | <BinOpExp>`
pub open spec fn spec_exp(s: Seq<Token>, p: int) -> (Result<Exp, ParseError>, int)
    decreases measure(s.len() as int, p, 10),
{
    let t = peek(s, p);
    if t == Tok::PipePipe || t == Tok::Pipe {
        spec_lambda(s, p)
    } else if is_quant(s, p) {
        spec_quant(s, p)
    } else {
        spec_assign_or_binop(s, p)
    }
}

/// A lambda: its bindings between `|`s (or `||`), then an optional return
/// type with a (possibly labeled) block, or an expression.
pub open spec fn spec_lambda(s: Seq<Token>, p: int) -> (Result<Exp, ParseError>, int)
    decreases measure(s.len() as int, p, 9),
{
    let t = peek(s, p);
    let p1 = adv(s, p);
    if t != Tok::PipePipe && t != Tok::Pipe {
        (Err(unexpected(s, p, Expected::ExpressionTerm)), p)
    } else {
    let (binds, p2): (Result<Items, ParseError>, int) = if t == Tok::PipePipe {
        (Ok(Items::Nil), p1)
    } else {
        spec_list_after_start(s, p1, Tok::Pipe, ListKind::LambdaBind)
    };
    match binds {
        Err(e) => (Err(e), p2),
        Ok(binds) => {
            let p2 = no_earlier(p2, p1);
            let (r, p3): (Result<(Option<Box<Type>>, Exp), ParseError>, int) = if peek(s, p2) == Tok::MinusGreater {
                let (ty, q) = spec_type(s, adv(s, p2), false);
                match ty {
                    Err(e) => (Err(e), q),
                    Ok(ty) => {
                        let q = no_earlier(q, p2);
                        let (label, q1): (Result<Option<(usize, Span)>, ParseError>, int) = if peek(s, q) == Tok::BlockLabel {
                            match spec_consume(s, adv(s, q), Tok::Colon) {
                                Err(e) => (Err(e), adv(s, q)),
                                Ok(q2) => (Ok(Some((start_at(s, q), span_at(s, q)))), q2),
                            }
                        } else {
                            (Ok(None), q)
                        };
                        match label {
                            Err(e) => (Err(e), q1),
                            Ok(label) => {
                                let q1 = no_earlier(q1, q);
                                match spec_consume(s, q1, Tok::LBrace) {
                                    Err(e) => (Err(e), q1),
                                    Ok(q2) => {
                                        let (sq, q3) = spec_sequence(s, q2);
                                        match sq {
                                            Err(e) => (Err(e), q3),
                                            Ok(sq) => {
                                                let block = Exp {
                                                    start: start_at(s, q1),
                                                    end: prev_end(s, q3),
                                                    exp: Exp_::Block(Box::new(sq)),
                                                };
                                                let body = match label {
                                                    Some((ls, l)) => Exp {
                                                        start: ls,
                                                        end: prev_end(s, q3),
                                                        exp: Exp_::Labeled(l, Box::new(block)),
                                                    },
                                                    None => block,
                                                };
                                                (Ok((Some(Box::new(ty)), body)), q3)
                                            },
                                        }
                                    },
                                }
                            },
                        }
                    },
                }
            } else {
                let (e, q) = spec_exp(s, p2);
                match e {
                    Err(err) => (Err(err), q),
                    Ok(e) => (Ok((None, e)), q),
                }
            };
            match r {
                Err(e) => (Err(e), p3),
                Ok((ret, body)) => (
                    Ok(
                        Exp {
                            start: start_at(s, p),
                            end: prev_end(s, p3),
                            exp: Exp_::Lambda(Box::new(binds), ret, Box::new(body)),
                        },
                    ),
                    p3,
                ),
            }
        },
    }
    }
}

/// `<UnaryExp> "=" <Exp> | <BinOpExp>`
pub open spec fn spec_assign_or_binop(s: Seq<Token>, p: int) -> (Result<Exp, ParseError>, int)
    decreases measure(s.len() as int, p, 8),
{
    let (lhs, p1) = spec_unary(s, p);
    match lhs {
        Err(e) => (Err(e), p1),
        Ok(l) => {
            let p1 = no_earlier(p1, p);
            if peek(s, p1) == Tok::Equal {
                let (rhs, p3) = spec_exp(s, adv(s, p1));
                match rhs {
                    Err(e) => (Err(e), p3),
                    Ok(r) => (
                        Ok(
                            Exp {
                                start: start_at(s, p),
                                end: prev_end(s, p3),
                                exp: Exp_::Assign(Box::new(l), Box::new(r)),
                            },
                        ),
                        p3,
                    ),
                }
            } else {
                spec_binop(s, p1, l, 1)
            }
        },
    }
}

/// Binary operators of precedence at least `min_prec`, after `lhs`; `as`
/// casts the expression so far to a type.
pub open spec fn spec_binop(s: Seq<Token>, p: int, lhs: Exp, min_prec: u32) -> (Result<Exp, ParseError>, int)
    decreases measure(s.len() as int, p, 7),
{
    let op_tok = peek(s, p);
    let prec = precedence(op_tok);
    if prec >= min_prec && prec > 0 {
        let p1 = adv(s, p);
        if op_tok == Tok::As {
            let (ty, p2) = spec_type(s, p1, true);
            match ty {
                Err(e) => (Err(e), p2),
                Ok(ty) => {
                    let p2 = no_earlier(p2, p1);
                    let e = Exp {
                        start: lhs.start,
                        end: prev_end(s, p2),
                        exp: Exp_::Cast(Box::new(lhs), Box::new(ty)),
                    };
                    spec_binop(s, p2, e, min_prec)
                },
            }
        } else {
            let (rhs, p2) = spec_unary(s, p1);
            match rhs {
                Err(e) => (Err(e), p2),
                Ok(r) => {
                    let p2 = no_earlier(p2, p1);
                    let (rhs2, p3) = if prec < precedence(peek(s, p2)) {
                        spec_binop(s, p2, r, (prec + 1) as u32)
                    } else {
                        (Ok(r), p2)
                    };
                    match rhs2 {
                        Err(e) => (Err(e), p3),
                        Ok(r2) => {
                            let p3 = no_earlier(p3, p2);
                            let e = Exp {
                                start: lhs.start,
                                end: prev_end(s, p3),
                                exp: Exp_::BinopExp(Box::new(lhs), binop_of(op_tok), Box::new(r2)),
                            };
                            spec_binop(s, p3, e, min_prec)
                        },
                    }
                },
            }
        }
    } else {
        (Ok(lhs), p)
    }
}

/// `UnaryExp`
pub open spec fn spec_unary(s: Seq<Token>, p: int) -> (Result<Exp, ParseError>, int)
    decreases measure(s.len() as int, p, 6),
{
    let t = peek(s, p);
    if t == Tok::Exclaim || t == Tok::AmpMut || t == Tok::Amp || t == Tok::Star || t == Tok::Move
        || t == Tok::Copy {
        let p1 = adv(s, p);
        let is_mut = t == Tok::Amp && peek(s, p1) == Tok::Mut;
        let p1 = if is_mut {
            adv(s, p1)
        } else {
            p1
        };
        let (e, p2) = spec_unary(s, p1);
        match e {
            Err(err) => (Err(err), p2),
            Ok(e) => {
                let b = Box::new(e);
                let form = if t == Tok::Exclaim {
                    Exp_::Not(b)
                } else if t == Tok::AmpMut {
                    Exp_::Borrow(true, b)
                } else if t == Tok::Amp {
                    Exp_::Borrow(is_mut, b)
                } else if t == Tok::Star {
                    Exp_::Dereference(b)
                } else if t == Tok::Move {
                    Exp_::Move(b)
                } else {
                    Exp_::Copy(b)
                };
                (Ok(Exp { start: start_at(s, p), end: prev_end(s, p2), exp: form }), p2)
            },
        }
    } else {
        spec_dot_chain(s, p)
    }
}

/// A term followed by field accesses, method calls and index accesses.
pub open spec fn spec_dot_chain(s: Seq<Token>, p: int) -> (Result<Exp, ParseError>, int)
    decreases measure(s.len() as int, p, 5),
{
    let (lhs, p1) = spec_term(s, p);
    match lhs {
        Err(e) => (Err(e), p1),
        Ok(lhs) => spec_dot_rest(s, no_earlier(p1, p), lhs, start_at(s, p)),
    }
}

/// The accesses after `lhs`, which started at byte `start`.
pub open spec fn spec_dot_rest(s: Seq<Token>, p: int, lhs: Exp, start: usize) -> (Result<Exp, ParseError>, int)
    decreases measure(s.len() as int, p, 4),
{
    let t = peek(s, p);
    if t == Tok::Period {
        let p1 = adv(s, p);
        let t1 = peek(s, p1);
        let (form, p2): (Result<Exp_, ParseError>, int) = if t1 == Tok::NumValue || t1
            == Tok::NumTypedValue {
            (Ok(Exp_::Dot(Box::new(lhs), span_at(s, p1))), adv(s, p1))
        } else if !is_identifier(t1) {
            (Err(unexpected(s, p1, Expected::Identifier)), p1)
        } else {
            let n = span_at(s, p1);
            let q = adv(s, p1);
            let tq = peek(s, q);
            if (tq == Tok::Less && n.end == start_at(s, q)) || tq == Tok::LParen || tq
                == Tok::Exclaim {
                let is_macro = tq == Tok::Exclaim;
                let q1 = if is_macro {
                    adv(s, q)
                } else {
                    q
                };
                let (tys, q2): (Result<Option<Box<TypeList>>, ParseError>, int) = if peek(s, q1) == Tok::Less && n.end == start_at(s, q) {
                    let (ts, q3) = spec_type_list_after(s, adv(s, q1), Tok::Greater);
                    match ts {
                        Err(e) => (Err(e), q3),
                        Ok(ts) => (Ok(Some(Box::new(ts))), q3),
                    }
                } else {
                    (Ok(None), q1)
                };
                match tys {
                    Err(e) => (Err(e), q2),
                    Ok(tys) => {
                        let q2 = no_earlier(q2, q1);
                        match spec_consume(s, q2, Tok::LParen) {
                            Err(e) => (Err(e), q2),
                            Ok(q3) => {
                                let (args, q4) = spec_exp_list_after(s, q3, Tok::RParen);
                                match args {
                                    Err(e) => (Err(e), q4),
                                    Ok(args) => (
                                        Ok(
                                            Exp_::DotCall(
                                                Box::new(lhs),
                                                n,
                                                is_macro,
                                                tys,
                                                Box::new(args),
                                            ),
                                        ),
                                        q4,
                                    ),
                                }
                            },
                        }
                    },
                }
            } else {
                (Ok(Exp_::Dot(Box::new(lhs), n)), q)
            }
        };
        match form {
            Err(e) => (Err(e), p2),
            Ok(form) => {
                let p2 = no_earlier(p2, p1);
                spec_dot_rest(s, p2, Exp { start, end: prev_end(s, p2), exp: form }, start)
            },
        }
    } else if t == Tok::LBracket {
        let p1 = adv(s, p);
        let (args, p2) = spec_exp_list_after(s, p1, Tok::RBracket);
        match args {
            Err(e) => (Err(e), p2),
            Ok(args) => {
                let p2 = no_earlier(p2, p1);
                spec_dot_rest(
                    s,
                    p2,
                    Exp {
                        start,
                        end: prev_end(s, p2),
                        exp: Exp_::Index(Box::new(lhs), Box::new(args)),
                    },
                    start,
                )
            },
        }
    } else {
        (Ok(lhs), p)
    }
}

/// `Term`
#[verifier::rlimit(60)]
pub open spec fn spec_term(s: Seq<Token>, p: int) -> (Result<Exp, ParseError>, int)
    decreases measure(s.len() as int, p, 3),
{
    let t = peek(s, p);
    if is_control_exp(t) {
        let (r, p1) = spec_control(s, p);
        match r {
            Err(e) => (Err(e), p1),
            Ok((ce, ends_in_block)) => if !ends_in_block || at_end_of_exp(peek(s, p1)) {
                (Ok(ce), p1)
            } else {
                spec_binop(s, later(p1, p), ce, 1)
            },
        }
    } else if t == Tok::Vector && (peek(s, p + 1) == Tok::Less || peek(s, p + 1) == Tok::LBracket) {
        let vec_span = span_at(s, p);
        let p1 = adv(s, p);
        let (tys, p2): (Result<Option<Box<TypeList>>, ParseError>, int) = if peek(s, p1) == Tok::Less {
            let (ts, q) = spec_type_list_after(s, adv(s, p1), Tok::Greater);
            match ts {
                Err(e) => (Err(e), q),
                Ok(ts) => (Ok(Some(Box::new(ts))), q),
            }
        } else {
            (Ok(None), p1)
        };
        match tys {
            Err(e) => (Err(e), p2),
            Ok(tys) => {
                let p2 = no_earlier(p2, p1);
                match spec_consume(s, p2, Tok::LBracket) {
                    Err(e) => (Err(e), p2),
                    Ok(p3) => {
                        let (args, p4) = spec_exp_list_after(s, p3, Tok::RBracket);
                        match args {
                            Err(e) => (Err(e), p4),
                            Ok(args) => (
                                Ok(
                                    Exp {
                                        start: start_at(s, p),
                                        end: prev_end(s, p4),
                                        exp: Exp_::Vector(vec_span, tys, Box::new(args)),
                                    },
                                ),
                                p4,
                            ),
                        }
                    },
                }
            },
        }
    } else if t == Tok::ColonColon && !is_identifier(peek(s, p + 1)) {
        (Err(unexpected(s, p, Expected::Identifier)), p)
    } else if t == Tok::ColonColon || is_identifier(t) || (t == Tok::NumValue && peek(s, p + 1) == Tok::ColonColon) {
        spec_name_exp(s, p)
    } else if t == Tok::NumValue || t == Tok::AtSign || t == Tok::True || t == Tok::False || t == Tok::NumTypedValue || t == Tok::ByteStringValue {
        let (v, p1) = spec_value(s, p);
        match v {
            Err(e) => (Err(e), p1),
            Ok(Some(v)) => (Ok(Exp { start: start_at(s, p), end: prev_end(s, p1), exp: Exp_::Value(v) }), p1),
            Ok(None) => (Err(unexpected(s, p, Expected::ExpressionTerm)), p1),
        }
    } else if t == Tok::Spec {
        let (sp, p1) = spec_spec_block(s, p);
        match sp {
            Err(e) => (Err(e), p1),
            Ok(sp) => (Ok(Exp { start: start_at(s, p), end: prev_end(s, p1), exp: Exp_::Spec(sp) }), p1),
        }
    } else {
        let (form, p_end): (Result<Exp_, ParseError>, int) = match t {
            Tok::LParen => {
                let p1 = adv(s, p);
                if peek(s, p1) == Tok::RParen {
                    (Ok(Exp_::Unit), adv(s, p1))
                } else {
                    let (e, p2) = spec_exp(s, p1);
                    match e {
                        Err(err) => (Err(err), p2),
                        Ok(e) => {
                            let p2 = no_earlier(p2, p1);
                            if peek(s, p2) == Tok::Colon {
                                let (ty, q) = spec_type(s, adv(s, p2), false);
                                match ty {
                                    Err(err) => (Err(err), q),
                                    Ok(ty) => {
                                        let q = no_earlier(q, p2);
                                        match spec_consume(s, q, Tok::RParen) {
                                            Err(err) => (Err(err), q),
                                            Ok(q1) => (Ok(Exp_::Annotate(Box::new(e), Box::new(ty))), q1),
                                        }
                                    },
                                }
                            } else if peek(s, p2) == Tok::RParen {
                                (Ok(Exp_::Parens(Box::new(e))), adv(s, p2))
                            } else if peek(s, p2) != Tok::Comma {
                                (Err(unexpected(s, p2, Expected::Token(Tok::Comma))), p2)
                            } else {
                                let p3 = adv(s, p2);
                                if peek(s, p3) == Tok::RParen {
                                    (Ok(Exp_::Parens(Box::new(e))), adv(s, p3))
                                } else {
                                    let (rest, p4) = spec_exp_items(s, p3, Tok::RParen);
                                    match rest {
                                        Err(err) => (Err(err), p4),
                                        Ok(rest) => (Ok(Exp_::ExpList(Box::new(ExpList::Cons(Box::new(e), Box::new(rest))))), p4),
                                    }
                                }
                            }
                        },
                    }
                }
            },
            Tok::LBrace => {
                let (sq, p2) = spec_sequence(s, adv(s, p));
                match sq {
                    Err(err) => (Err(err), p2),
                    Ok(sq) => (Ok(Exp_::Block(Box::new(sq))), p2),
                }
            },
            _ => (Err(unexpected(s, p, Expected::ExpressionTerm)), p),
        };
        match form {
            Err(e) => (Err(e), p_end),
            Ok(form) => (Ok(Exp { start: start_at(s, p), end: prev_end(s, p_end), exp: form }), p_end),
        }
    }
}

/// A name followed by a macro `!`, type arguments, a struct literal or call
/// arguments.
pub open spec fn spec_name_exp(s: Seq<Token>, p: int) -> (Result<Exp, ParseError>, int)
    decreases measure(s.len() as int, p, 2),
{
    let (name, p1) = spec_name_chain(s, p);
    match name {
        Err(e) => (Err(e), p1),
        Ok(name) => {
            let p1 = no_earlier(p1, p);
            let is_macro = peek(s, p1) == Tok::Exclaim;
            let p2 = if is_macro {
                adv(s, p1)
            } else {
                p1
            };
            let (tys, p3): (Result<Option<Box<TypeList>>, ParseError>, int) = if peek(s, p2) == Tok::Less && (name.end == start_at(s, p2) || is_macro) {
                let (ts, q) = spec_type_list_after(s, adv(s, p2), Tok::Greater);
                match ts {
                    Err(e) => (Err(e), q),
                    Ok(ts) => (Ok(Some(Box::new(ts))), q),
                }
            } else {
                (Ok(None), p2)
            };
            match tys {
                Err(e) => (Err(e), p3),
                Ok(tys) => {
                    let p3 = no_earlier(p3, p2);
                    let (form, p4): (Result<Exp_, ParseError>, int) = if is_macro || peek(s, p3) == Tok::LParen {
                        match spec_consume(s, p3, Tok::LParen) {
                            Err(e) => (Err(e), p3),
                            Ok(q) => {
                                let (args, q1) = spec_exp_list_after(s, q, Tok::RParen);
                                match args {
                                    Err(e) => (Err(e), q1),
                                    Ok(args) => (Ok(Exp_::Call(name, is_macro, tys, Box::new(args))), q1),
                                }
                            },
                        }
                    } else if peek(s, p3) == Tok::LBrace {
                        let (fs, q1) = spec_list_after_start(s, adv(s, p3), Tok::RBrace, ListKind::ExpField);
                        match fs {
                            Err(e) => (Err(e), q1),
                            Ok(fs) => (Ok(Exp_::Pack(name, tys, Box::new(fs))), q1),
                        }
                    } else {
                        (Ok(Exp_::Name(name, tys)), p3)
                    };
                    match form {
                        Err(e) => (Err(e), p4),
                        Ok(form) => (Ok(Exp { start: start_at(s, p), end: prev_end(s, p4), exp: form }), p4),
                    }
                },
            }
        },
    }
}

/// `Value = "@" <LeadingNameAccess> | "true" | "false" | <Number> | <NumberTyped>
///        | <ByteString>`; `None` when no value starts here (a number followed by
/// `::` starts an address access).
pub open spec fn spec_value(s: Seq<Token>, p: int) -> (Result<Option<ParsedValue>, ParseError>, int)
{
    let t = peek(s, p);
    if t == Tok::AtSign {
        let (a, p1) = spec_leading_name(s, adv(s, p));
        match a {
            Err(e) => (Err(e), p1),
            Ok(a) => (Ok(Some(ParsedValue::Address(a))), p1),
        }
    } else if t == Tok::True {
        (Ok(Some(ParsedValue::Bool(true))), adv(s, p))
    } else if t == Tok::False {
        (Ok(Some(ParsedValue::Bool(false))), adv(s, p))
    } else if t == Tok::NumValue {
        if peek(s, p + 1) == Tok::ColonColon {
            (Ok(None), p)
        } else {
            (Ok(Some(ParsedValue::Num(span_at(s, p)))), adv(s, p))
        }
    } else if t == Tok::NumTypedValue {
        (Ok(Some(ParsedValue::TypedNum(span_at(s, p)))), adv(s, p))
    } else if t == Tok::ByteStringValue {
        (Ok(Some(ParsedValue::ByteString(span_at(s, p)))), adv(s, p))
    } else {
        (Ok(None), p)
    }
}

/// `LeadingNameAccess = <NumericalAddress> | <Identifier>` (its span).
pub open spec fn spec_leading_name(s: Seq<Token>, p: int) -> (Result<Span, ParseError>, int)
{
    let t = peek(s, p);
    if is_identifier(t) || t == Tok::NumValue {
        (Ok(span_at(s, p)), adv(s, p))
    } else {
        (Err(unexpected(s, p, Expected::AddressOrIdentifier)), p)
    }
}

/// An identifier (its span).
pub open spec fn spec_identifier(s: Seq<Token>, p: int) -> (Result<Span, ParseError>, int)
{
    if is_identifier(peek(s, p)) {
        (Ok(span_at(s, p)), adv(s, p))
    } else {
        (Err(unexpected(s, p, Expected::Identifier)), p)
    }
}

/// `NameAccessChain = "::"? <LeadingNameAccess> ("::" <Identifier> ("::" <Identifier>)?)?`
/// (its span); an address, or a chain that starts with `::`, must be
/// followed by `::`.
pub open spec fn spec_name_chain(s: Seq<Token>, p: int) -> (Result<Span, ParseError>, int)
{
    let global = peek(s, p) == Tok::ColonColon;
    let p0 = if global {
        adv(s, p)
    } else {
        p
    };
    let t = peek(s, p0);
    let (ln, p1) = spec_leading_name(s, p0);
    match ln {
        Err(e) => (Err(e), p1),
        Ok(_) => if peek(s, p1) != Tok::ColonColon {
            if t == Tok::NumValue || global {
                (Err(unexpected(s, p1, Expected::Token(Tok::ColonColon))), p1)
            } else {
                (Ok(Span { start: start_at(s, p), end: prev_end(s, p1) }), p1)
            }
        } else {
            let (n2, p2) = spec_identifier(s, adv(s, p1));
            match n2 {
                Err(e) => (Err(e), p2),
                Ok(_) => if peek(s, p2) != Tok::ColonColon {
                    (Ok(Span { start: start_at(s, p), end: prev_end(s, p2) }), p2)
                } else {
                    let (n3, p3) = spec_identifier(s, adv(s, p2));
                    match n3 {
                        Err(e) => (Err(e), p3),
                        Ok(_) => (Ok(Span { start: start_at(s, p), end: prev_end(s, p3) }), p3),
                    }
                },
            }
        },
    }
}

/// A spec block: the tokens up to the first `{`, then through its matching
/// `}` (its span).
pub open spec fn spec_spec_block(s: Seq<Token>, p: int) -> (Result<Span, ParseError>, int)
{
    let q = skip_to_lbrace(s, p);
    if peek(s, q) != Tok::LBrace {
        (Err(unexpected(s, q, Expected::SpecBlock)), q)
    } else {
        match skip_braces(s, adv(s, q), 1) {
            None => (Err(unexpected(s, s.len() - 1, Expected::Token(Tok::RBrace))), s.len() - 1),
            Some(e) => (Ok(Span { start: start_at(s, p), end: prev_end(s, e) }), e),
        }
    }
}

/// The items of a comma-separated list of expressions, through the closing
/// token `close`.
pub open spec fn spec_exp_items(s: Seq<Token>, p: int, close: Tok) -> (Result<ExpList, ParseError>, int)
    decreases measure(s.len() as int, p, 11),
{
    if peek(s, p) == Tok::Comma {
        (Err(missing_item(s, p)), p)
    } else {
        let (e, p1) = spec_exp(s, p);
        match e {
            Err(err) => (Err(err), p1),
            Ok(e) => {
                let p1 = no_earlier(p1, p);
                if peek(s, p1) == close {
                    (Ok(ExpList::Cons(Box::new(e), Box::new(ExpList::Nil))), adv(s, p1))
                } else if peek(s, p1) != Tok::Comma {
                    (Err(unexpected(s, p1, Expected::Token(close))), p1)
                } else {
                    let p2 = adv(s, p1);
                    if peek(s, p2) == close {
                        (Ok(ExpList::Cons(Box::new(e), Box::new(ExpList::Nil))), adv(s, p2))
                    } else {
                        let (rest, p3) = spec_exp_items(s, p2, close);
                        match rest {
                            Err(err) => (Err(err), p3),
                            Ok(rest) => (Ok(ExpList::Cons(Box::new(e), Box::new(rest))), p3),
                        }
                    }
                }
            },
        }
    }
}

/// A block, a labeled block, or an expression; and whether it ends in a
/// block.
pub open spec fn spec_exp_or_sequence(s: Seq<Token>, p: int) -> (Result<(Exp, bool), ParseError>, int)
    decreases measure(s.len() as int, p, 14),
{
    let t = peek(s, p);
    if t == Tok::LBrace {
        let (sq, p2) = spec_sequence(s, adv(s, p));
        match sq {
            Err(e) => (Err(e), p2),
            Ok(sq) => (
                Ok(
                    (
                        Exp {
                            start: start_at(s, p),
                            end: prev_end(s, p2),
                            exp: Exp_::Block(Box::new(sq)),
                        },
                        true,
                    ),
                ),
                p2,
            ),
        }
    } else if t == Tok::BlockLabel {
        let label = span_at(s, p);
        match spec_consume(s, adv(s, p), Tok::Colon) {
            Err(e) => (Err(e), adv(s, p)),
            Ok(p2) => {
                let (r, p3) = spec_exp_or_sequence(s, p2);
                match r {
                    Err(e) => (Err(e), p3),
                    Ok((e, eib)) => (
                        Ok(
                            (
                                Exp {
                                    start: start_at(s, p),
                                    end: prev_end(s, p3),
                                    exp: Exp_::Labeled(label, Box::new(e)),
                                },
                                eib,
                            ),
                        ),
                        p3,
                    ),
                }
            },
        }
    } else {
        let (e, p1) = spec_exp(s, p);
        match e {
            Err(err) => (Err(err), p1),
            Ok(e) => (Ok((e, false)), p1),
        }
    }
}

/// `ControlExp`, and whether it ends in a block.
pub open spec fn spec_control(s: Seq<Token>, p: int) -> (Result<(Exp, bool), ParseError>, int)
    decreases measure(s.len() as int, p, 1),
{
    let t = peek(s, p);
    let p1 = adv(s, p);
    let (r, pe): (Result<(Exp_, bool), ParseError>, int) = if t == Tok::If || t == Tok::While {
        match spec_consume(s, p1, Tok::LParen) {
            Err(e) => (Err(e), p1),
            Ok(p2) => {
                let (c, p3) = spec_exp(s, p2);
                match c {
                    Err(e) => (Err(e), p3),
                    Ok(c) => {
                        let p3 = no_earlier(p3, p2);
                        match spec_consume(s, p3, Tok::RParen) {
                            Err(e) => (Err(e), p3),
                            Ok(p4) => {
                                let (body, p5) = spec_exp_or_sequence(s, p4);
                                match body {
                                    Err(e) => (Err(e), p5),
                                    Ok((body, eib)) => if t == Tok::While {
                                        (Ok((Exp_::While(Box::new(c), Box::new(body)), eib)), p5)
                                    } else {
                                        let p5 = no_earlier(p5, p4);
                                        if peek(s, p5) == Tok::Else {
                                            let (f, p6) = spec_exp_or_sequence(s, adv(s, p5));
                                            match f {
                                                Err(e) => (Err(e), p6),
                                                Ok((f, eib2)) => (
                                                    Ok(
                                                        (
                                                            Exp_::IfElse(
                                                                Box::new(c),
                                                                Box::new(body),
                                                                Some(Box::new(f)),
                                                            ),
                                                            eib2,
                                                        ),
                                                    ),
                                                    p6,
                                                ),
                                            }
                                        } else {
                                            (
                                                Ok(
                                                    (
                                                        Exp_::IfElse(
                                                            Box::new(c),
                                                            Box::new(body),
                                                            None,
                                                        ),
                                                        eib,
                                                    ),
                                                ),
                                                p5,
                                            )
                                        }
                                    },
                                }
                            },
                        }
                    },
                }
            },
        }
    } else if t == Tok::Loop || t == Tok::Abort {
        let (body, p2) = spec_exp_or_sequence(s, p1);
        match body {
            Err(e) => (Err(e), p2),
            Ok((body, eib)) => (
                Ok(
                    (
                        if t == Tok::Loop {
                            Exp_::Loop(Box::new(body))
                        } else {
                            Exp_::Abort(Box::new(body))
                        },
                        eib,
                    ),
                ),
                p2,
            ),
        }
    } else if t == Tok::Return || t == Tok::Break {
        let (label, p2) = opt_label(s, p1);
        if !at_start_of_exp(peek(s, p2)) {
            (
                Ok(
                    (
                        if t == Tok::Return {
                            Exp_::Return(label, None)
                        } else {
                            Exp_::Break(label, None)
                        },
                        false,
                    ),
                ),
                p2,
            )
        } else {
            let (e, p3) = spec_exp_or_sequence(s, p2);
            match e {
                Err(err) => (Err(err), p3),
                Ok((e, eib)) => (
                    Ok(
                        (
                            if t == Tok::Return {
                                Exp_::Return(label, Some(Box::new(e)))
                            } else {
                                Exp_::Break(label, Some(Box::new(e)))
                            },
                            eib,
                        ),
                    ),
                    p3,
                ),
            }
        }
    } else if t == Tok::Continue {
        let (label, p2) = opt_label(s, p1);
        (Ok((Exp_::Continue(label), false)), p2)
    } else {
        // a block label
        let label = span_at(s, p);
        match spec_consume(s, p1, Tok::Colon) {
            Err(e) => (Err(e), p1),
            Ok(p2) => {
                let (e, p3) = if is_control_exp(peek(s, p2)) {
                    spec_control(s, p2)
                } else {
                    spec_exp_or_sequence(s, p2)
                };
                match e {
                    Err(err) => (Err(err), p3),
                    Ok((e, eib)) => (Ok((Exp_::Labeled(label, Box::new(e)), eib)), p3),
                }
            },
        }
    };
    match r {
        Err(e) => (Err(e), pe),
        Ok((form, eib)) => (
            Ok((Exp { start: start_at(s, p), end: prev_end(s, pe), exp: form }, eib)),
            pe,
        ),
    }
}

/// `QuantifierBind = <Identifier> ":" <Type> | <Identifier> "in" <Exp>`
pub open spec fn spec_quant_binding(s: Seq<Token>, p: int) -> (Result<QuantBinding, ParseError>, int)
    decreases measure(s.len() as int, p, 2),
{
    if !is_identifier(peek(s, p)) {
        (Err(unexpected(s, p, Expected::Identifier)), p)
    } else {
        let var = span_at(s, p);
        let p1 = adv(s, p);
        let (range, p2): (Result<QuantRange, ParseError>, int) = if peek(s, p1) == Tok::Colon {
            let (ty, q) = spec_type(s, adv(s, p1), false);
            match ty {
                Err(e) => (Err(e), q),
                Ok(ty) => (Ok(QuantRange::Domain(Box::new(ty))), q),
            }
        } else if peek(s, p1) != Tok::In {
            (Err(unexpected(s, p1, Expected::Token(Tok::In))), p1)
        } else {
            let (e, q) = spec_exp(s, adv(s, p1));
            match e {
                Err(err) => (Err(err), q),
                Ok(e) => (Ok(QuantRange::In(Box::new(e))), q),
            }
        };
        match range {
            Err(e) => (Err(e), p2),
            Ok(range) => (
                Ok(QuantBinding { start: start_at(s, p), end: prev_end(s, p2), var, range }),
                p2,
            ),
        }
    }
}

/// `QuantifierBindings = <QuantifierBind> ("," <QuantifierBind>)*`
pub open spec fn spec_quant_bindings(s: Seq<Token>, p: int) -> (Result<QuantBindings, ParseError>, int)
    decreases measure(s.len() as int, p, 3),
{
    let (b, p1) = spec_quant_binding(s, p);
    match b {
        Err(e) => (Err(e), p1),
        Ok(b) => {
            let p1 = no_earlier(p1, p);
            if peek(s, p1) == Tok::Comma {
                let (rest, p2) = spec_quant_bindings(s, adv(s, p1));
                match rest {
                    Err(e) => (Err(e), p2),
                    Ok(rest) => (Ok(QuantBindings::Cons(Box::new(b), Box::new(rest))), p2),
                }
            } else {
                (Ok(QuantBindings::Cons(Box::new(b), Box::new(QuantBindings::Nil))), p1)
            }
        },
    }
}

/// The trigger lists `{ e, ... }` that follow the bindings, if any.
pub open spec fn spec_triggers(s: Seq<Token>, p: int) -> (Result<Triggers, ParseError>, int)
    decreases measure(s.len() as int, p, 1),
{
    if peek(s, p) == Tok::LBrace {
        let p1 = adv(s, p);
        let (items, p2): (Result<ExpList, ParseError>, int) = if peek(s, p1) == Tok::RBrace {
            (Ok(ExpList::Nil), adv(s, p1))
        } else {
            spec_exp_items(s, p1, Tok::RBrace)
        };
        match items {
            Err(e) => (Err(e), p2),
            Ok(items) => {
                let p2 = no_earlier(p2, p1);
                let (rest, p3) = spec_triggers(s, p2);
                match rest {
                    Err(e) => (Err(e), p3),
                    Ok(rest) => (Ok(Triggers::Cons(Box::new(items), Box::new(rest))), p3),
                }
            },
        }
    } else {
        (Ok(Triggers::Nil), p)
    }
}

/// `Quantifier = ("forall" | "exists") <QuantifierBindings> ("{" Comma<Exp> "}")*
///     ("where" <Exp>)? ":" <Exp> | "choose" "min"? <QuantifierBind> "where" <Exp>`
pub open spec fn spec_quant(s: Seq<Token>, p: int) -> (Result<Exp, ParseError>, int)
    decreases measure(s.len() as int, p, 9),
{
    let (kind, p1) = quant_kind(s, p);
    let (r, pe): (Result<Exp_, ParseError>, int) = if kind == QuantKind::Choose || kind
        == QuantKind::ChooseMin {
        let (b, p2) = spec_quant_binding(s, p1);
        match b {
            Err(e) => (Err(e), p2),
            Ok(b) => {
                let p2 = no_earlier(p2, p1);
                if peek(s, p2) != Tok::Where {
                    (Err(unexpected(s, p2, Expected::Token(Tok::Where))), p2)
                } else {
                    let (body, p3) = spec_exp(s, adv(s, p2));
                    match body {
                        Err(e) => (Err(e), p3),
                        Ok(body) => (
                            Ok(
                                Exp_::Quant(
                                    kind,
                                    Box::new(
                                        QuantBindings::Cons(
                                            Box::new(b),
                                            Box::new(QuantBindings::Nil),
                                        ),
                                    ),
                                    Box::new(Triggers::Nil),
                                    None,
                                    Box::new(body),
                                ),
                            ),
                            p3,
                        ),
                    }
                }
            },
        }
    } else {
        let (bs, p2) = spec_quant_bindings(s, p1);
        match bs {
            Err(e) => (Err(e), p2),
            Ok(bs) => {
                let p2 = no_earlier(p2, p1);
                let (trs, p3) = spec_triggers(s, p2);
                match trs {
                    Err(e) => (Err(e), p3),
                    Ok(trs) => {
                        let p3 = no_earlier(p3, p2);
                        let (cond, p4): (Result<Option<Box<Exp>>, ParseError>, int) = if peek(s, p3)
                            == Tok::Where {
                            let (c, q) = spec_exp(s, adv(s, p3));
                            match c {
                                Err(e) => (Err(e), q),
                                Ok(c) => (Ok(Some(Box::new(c))), q),
                            }
                        } else {
                            (Ok(None), p3)
                        };
                        match cond {
                            Err(e) => (Err(e), p4),
                            Ok(cond) => {
                                let p4 = no_earlier(p4, p3);
                                match spec_consume(s, p4, Tok::Colon) {
                                    Err(e) => (Err(e), p4),
                                    Ok(p5) => {
                                        let (body, p6) = spec_exp(s, p5);
                                        match body {
                                            Err(e) => (Err(e), p6),
                                            Ok(body) => (
                                                Ok(
                                                    Exp_::Quant(
                                                        kind,
                                                        Box::new(bs),
                                                        Box::new(trs),
                                                        cond,
                                                        Box::new(body),
                                                    ),
                                                ),
                                                p6,
                                            ),
                                        }
                                    },
                                }
                            },
                        }
                    },
                }
            },
        }
    };
    match r {
        Err(e) => (Err(e), pe),
        Ok(form) => (Ok(Exp { start: start_at(s, p), end: prev_end(s, pe), exp: form }), pe),
    }
}

/// A comma-separated list of expressions after its opening token, through
/// `close` (possibly empty).
pub open spec fn spec_exp_list_after(s: Seq<Token>, p: int, close: Tok) -> (Result<ExpList, ParseError>, int)
    decreases measure(s.len() as int, p, 12),
{
    if peek(s, p) == close {
        (Ok(ExpList::Nil), adv(s, p))
    } else {
        spec_exp_items(s, p, close)
    }
}

/// `Sequence = <UseDecl>* (<SequenceItem> ";")* <Exp>? "}"`, after the `{`.
pub open spec fn spec_sequence(s: Seq<Token>, p: int) -> (Result<Sequence, ParseError>, int)
    decreases measure(s.len() as int, p, 18),
{
    if peek(s, p) == Tok::Use {
        let (u, p1) = spec_use_decl(s, p, AttrGroups::Nil, start_at(s, p), empty_modifiers());
        match u {
            Err(e) => (Err(e), p1),
            Ok(u) => {
                let p1 = later(p1, p);
                let (rest, p2) = spec_sequence(s, p1);
                match rest {
                    Err(e) => (Err(e), p2),
                    Ok(rest) => (
                        Ok(
                            Sequence {
                                uses: UseDecls::Cons(Box::new(u), Box::new(rest.uses)),
                                items: rest.items,
                                last: rest.last,
                            },
                        ),
                        p2,
                    ),
                }
            },
        }
    } else {
        let (r, p1) = spec_sequence_items(s, p);
        match r {
            Err(e) => (Err(e), p1),
            Ok((items, last)) => (Ok(Sequence { uses: UseDecls::Nil, items, last }), p1),
        }
    }
}

/// The items of a block and its final expression, through the `}`.
pub open spec fn spec_sequence_items(s: Seq<Token>, p: int) -> (Result<(SequenceItems, Option<Box<Exp>>), ParseError>, int)
    decreases measure(s.len() as int, p, 17),
{
    if peek(s, p) == Tok::RBrace {
        (Ok((SequenceItems::Nil, None)), adv(s, p))
    } else {
        let (item, p1) = spec_sequence_item(s, p);
        match item {
            Err(e) => (Err(e), p1),
            Ok(item) => {
                let p1 = no_earlier(p1, p);
                if peek(s, p1) == Tok::RBrace {
                    match item {
                        SequenceItem::Expr(e) => (Ok((SequenceItems::Nil, Some(e))), adv(s, p1)),
                        _ => (Err(unexpected(s, p1, Expected::Token(Tok::Semicolon))), p1),
                    }
                } else if peek(s, p1) != Tok::Semicolon {
                    (Err(unexpected(s, p1, Expected::Token(Tok::Semicolon))), p1)
                } else {
                    let (rest, p2) = spec_sequence_items(s, adv(s, p1));
                    match rest {
                        Err(e) => (Err(e), p2),
                        Ok((items, last)) => (
                            Ok((SequenceItems::Cons(Box::new(item), Box::new(items)), last)),
                            p2,
                        ),
                    }
                }
            },
        }
    }
}

/// `SequenceItem = <Exp> | "let" <BindList> (":" <Type>)? ("=" <Exp>)?`
pub open spec fn spec_sequence_item(s: Seq<Token>, p: int) -> (Result<SequenceItem, ParseError>, int)
    decreases measure(s.len() as int, p, 15),
{
    if peek(s, p) == Tok::Let {
        let p1 = adv(s, p);
        let (b, p2) = spec_bind_list(s, p1);
        match b {
            Err(e) => (Err(e), p2),
            Ok(b) => {
                let p2 = no_earlier(p2, p1);
                let (ty, p3): (Result<Option<Box<Type>>, ParseError>, int) = if peek(s, p2) == Tok::Colon {
                    let (t, q) = spec_type(s, adv(s, p2), false);
                    match t {
                        Err(e) => (Err(e), q),
                        Ok(t) => (Ok(Some(Box::new(t))), q),
                    }
                } else {
                    (Ok(None), p2)
                };
                match ty {
                    Err(e) => (Err(e), p3),
                    Ok(ty) => {
                        let p3 = no_earlier(p3, p2);
                        if peek(s, p3) == Tok::Equal {
                            let (e, p4) = spec_exp(s, adv(s, p3));
                            match e {
                                Err(err) => (Err(err), p4),
                                Ok(e) => (Ok(SequenceItem::Bind(Box::new(b), ty, Box::new(e))), p4),
                            }
                        } else {
                            (Ok(SequenceItem::Declare(Box::new(b), ty)), p3)
                        }
                    },
                }
            },
        }
    } else {
        let (e, p1) = spec_exp(s, p);
        match e {
            Err(err) => (Err(err), p1),
            Ok(e) => (Ok(SequenceItem::Expr(Box::new(e))), p1),
        }
    }
}

/// `BindList = <Bind> | "(" Comma<Bind> ")"`
pub open spec fn spec_bind_list(s: Seq<Token>, p: int) -> (Result<Items, ParseError>, int)
    decreases measure(s.len() as int, p, 19),
{
    if peek(s, p) != Tok::LParen {
        let (b, p1) = spec_bind(s, p);
        match b {
            Err(e) => (Err(e), p1),
            Ok(b) => (Ok(Items::Cons(Box::new(Item::Bind(Box::new(b))), Box::new(Items::Nil))), p1),
        }
    } else {
        spec_list_after_start(s, adv(s, p), Tok::RParen, ListKind::Bind)
    }
}

/// `Bind = "mut"? <Var> | <NameAccessChain> <OptionalTypeArgs> ("{" Comma<BindField> "}"
///       | "(" Comma<Bind> ")")`
pub open spec fn spec_bind(s: Seq<Token>, p: int) -> (Result<Bind, ParseError>, int)
    decreases measure(s.len() as int, p, 18),
{
    let t = peek(s, p);
    let next = peek(s, p + 1);
    if (is_identifier(t) || t == Tok::Mut) && !(next == Tok::LBrace || next == Tok::Less || next == Tok::ColonColon || next == Tok::LParen) {
        let is_mut = t == Tok::Mut;
        let p1 = if is_mut {
            adv(s, p)
        } else {
            p
        };
        let (v, p2) = spec_identifier(s, p1);
        match v {
            Err(e) => (Err(e), p2),
            Ok(v) => (Ok(Bind { start: start_at(s, p), end: prev_end(s, p2), bind: Bind_::Var(is_mut, v) }), p2),
        }
    } else {
        let (name, p1) = spec_name_chain(s, p);
        match name {
            Err(e) => (Err(e), p1),
            Ok(name) => {
                let p1 = no_earlier(p1, p);
                let (tys, p2): (Result<Option<Box<TypeList>>, ParseError>, int) = if peek(s, p1) == Tok::Less {
                    let (ts, q) = spec_type_list_after(s, adv(s, p1), Tok::Greater);
                    match ts {
                        Err(e) => (Err(e), q),
                        Ok(ts) => (Ok(Some(Box::new(ts))), q),
                    }
                } else {
                    (Ok(None), p1)
                };
                match tys {
                    Err(e) => (Err(e), p2),
                    Ok(tys) => {
                        let p2 = no_earlier(p2, p1);
                        let positional = peek(s, p2) == Tok::LParen;
                        let (fs, p3): (Result<Items, ParseError>, int) = if positional {
                            spec_list_after_start(s, adv(s, p2), Tok::RParen, ListKind::Bind)
                        } else {
                            match spec_consume(s, p2, Tok::LBrace) {
                                Err(e) => (Err(e), p2),
                                Ok(q) => spec_list_after_start(s, q, Tok::RBrace, ListKind::BindField),
                            }
                        };
                        match fs {
                            Err(e) => (Err(e), p3),
                            Ok(fs) => (
                                Ok(
                                    Bind {
                                        start: start_at(s, p),
                                        end: prev_end(s, p3),
                                        bind: Bind_::Unpack(name, tys, Box::new(fs), positional),
                                    },
                                ),
                                p3,
                            ),
                        }
                    },
                }
            },
        }
    }
}

/// `Type = "(" Comma<Type> ")" | "&" "mut"? <Type> | "&mut" <Type>
///       | "|" Comma<Type> "|" ("->" <Type>)? | "||" ("->" <Type>)?
///       | <NameAccessChain> ("<" Comma<Type> ">")?`; with `ws`, type
/// arguments count only when `<` follows the name without a space.
pub open spec fn spec_type(s: Seq<Token>, p: int, ws: bool) -> (Result<Type, ParseError>, int)
    decreases measure(s.len() as int, p, 12),
{
    let t = peek(s, p);
    let (r, pe): (Result<Type_, ParseError>, int) = if t == Tok::LParen {
        let p1 = adv(s, p);
        if peek(s, p1) == Tok::RParen {
            (Ok(Type_::Unit), adv(s, p1))
        } else {
            let (ts, p2) = spec_type_items(s, p1, Tok::RParen);
            match ts {
                Err(e) => (Err(e), p2),
                Ok(ts) => (Ok(tuple_type(ts)), p2),
            }
        }
    } else if t == Tok::Amp || t == Tok::AmpMut {
        let p1 = adv(s, p);
        let is_mut = t == Tok::AmpMut || peek(s, p1) == Tok::Mut;
        let p1 = if t == Tok::Amp && peek(s, p1) == Tok::Mut {
            adv(s, p1)
        } else {
            p1
        };
        let (inner, p2) = spec_type(s, p1, false);
        match inner {
            Err(e) => (Err(e), p2),
            Ok(inner) => (Ok(Type_::Ref(is_mut, Box::new(inner))), p2),
        }
    } else if t == Tok::PipePipe || t == Tok::Pipe {
        let p1 = adv(s, p);
        let (args, p2): (Result<TypeList, ParseError>, int) = if t == Tok::PipePipe {
            (Ok(TypeList::Nil), p1)
        } else {
            spec_type_list_after(s, p1, Tok::Pipe)
        };
        match args {
            Err(e) => (Err(e), p2),
            Ok(args) => {
                let p2 = no_earlier(p2, p1);
                let (res, p3): (Result<Type, ParseError>, int) = if peek(s, p2) == Tok::MinusGreater {
                    spec_type(s, adv(s, p2), false)
                } else {
                    (Ok(Type { start: start_at(s, p), end: start_at(s, p2), ty: Type_::Unit }), p2)
                };
                match res {
                    Err(e) => (Err(e), p3),
                    Ok(res) => (Ok(Type_::Fun(Box::new(args), Box::new(res))), p3),
                }
            },
        }
    } else {
        let (chain, p1) = spec_name_chain(s, p);
        match chain {
            Err(e) => (Err(e), p1),
            Ok(c) => {
                let p1 = no_earlier(p1, p);
                if peek(s, p1) == Tok::Less && (!ws || c.end == start_at(s, p1)) {
                    let (args, p3) = spec_type_list_after(s, adv(s, p1), Tok::Greater);
                    match args {
                        Err(e) => (Err(e), p3),
                        Ok(args) => (Ok(Type_::Apply(c, Box::new(args))), p3),
                    }
                } else {
                    (Ok(Type_::Apply(c, Box::new(TypeList::Nil))), p1)
                }
            },
        }
    };
    match r {
        Err(e) => (Err(e), pe),
        Ok(ty) => (Ok(Type { start: start_at(s, p), end: prev_end(s, pe), ty }), pe),
    }
}

/// A comma-separated list of types after its opening token, through
/// `close` (possibly empty).
pub open spec fn spec_type_list_after(s: Seq<Token>, p: int, close: Tok) -> (Result<TypeList, ParseError>, int)
    decreases measure(s.len() as int, p, 14),
{
    if peek(s, p) == close {
        (Ok(TypeList::Nil), adv(s, p))
    } else {
        spec_type_items(s, p, close)
    }
}

/// The items of a comma-separated list of types, through `close`.
pub open spec fn spec_type_items(s: Seq<Token>, p: int, close: Tok) -> (Result<TypeList, ParseError>, int)
    decreases measure(s.len() as int, p, 13),
{
    if peek(s, p) == Tok::Comma {
        (Err(missing_item(s, p)), p)
    } else {
        let (t, p1) = spec_type(s, p, false);
        match t {
            Err(err) => (Err(err), p1),
            Ok(t) => {
                let p1 = no_earlier(p1, p);
                if peek(s, p1) == close {
                    (Ok(TypeList::Cons(Box::new(t), Box::new(TypeList::Nil))), adv(s, p1))
                } else if peek(s, p1) != Tok::Comma {
                    (Err(unexpected(s, p1, Expected::Token(close))), p1)
                } else {
                    let p2 = adv(s, p1);
                    if peek(s, p2) == close {
                        (Ok(TypeList::Cons(Box::new(t), Box::new(TypeList::Nil))), adv(s, p2))
                    } else {
                        let (rest, p3) = spec_type_items(s, p2, close);
                        match rest {
                            Err(err) => (Err(err), p3),
                            Ok(rest) => (Ok(TypeList::Cons(Box::new(t), Box::new(rest))), p3),
                        }
                    }
                }
            },
        }
    }
}

/// A comma-separated list after its opening token, through `close`
/// (possibly empty), of items of the given kind.
pub open spec fn spec_list_after_start(s: Seq<Token>, p: int, close: Tok, kind: ListKind) -> (Result<Items, ParseError>, int)
    decreases measure(s.len() as int, p, 23),
{
    if peek(s, p) == close {
        (Ok(Items::Nil), adv(s, p))
    } else {
        spec_list_items(s, p, close, kind)
    }
}

/// The items of a comma-separated list, through `close`.
pub open spec fn spec_list_items(s: Seq<Token>, p: int, close: Tok, kind: ListKind) -> (Result<Items, ParseError>, int)
    decreases measure(s.len() as int, p, 22),
{
    if peek(s, p) == Tok::Comma {
        (Err(missing_item(s, p)), p)
    } else {
        let (it, p1) = spec_item(s, p, kind);
        match it {
            Err(err) => (Err(err), p1),
            Ok(it) => {
                let p1 = no_earlier(p1, p);
                if peek(s, p1) == close {
                    (Ok(Items::Cons(Box::new(it), Box::new(Items::Nil))), adv(s, p1))
                } else if peek(s, p1) != Tok::Comma {
                    (Err(unexpected(s, p1, Expected::Token(close))), p1)
                } else {
                    let p2 = adv(s, p1);
                    if peek(s, p2) == close {
                        (Ok(Items::Cons(Box::new(it), Box::new(Items::Nil))), adv(s, p2))
                    } else {
                        let (rest, p3) = spec_list_items(s, p2, close, kind);
                        match rest {
                            Err(err) => (Err(err), p3),
                            Ok(rest) => (Ok(Items::Cons(Box::new(it), Box::new(rest))), p3),
                        }
                    }
                }
            },
        }
    }
}

/// One item of a comma-separated list of the given kind.
pub open spec fn spec_item(s: Seq<Token>, p: int, kind: ListKind) -> (Result<Item, ParseError>, int)
    decreases measure(s.len() as int, p, 21),
{
    match kind {
        ListKind::ExpField => spec_item_exp_field(s, p),
        ListKind::Bind => spec_item_bind(s, p),
        ListKind::BindField => spec_item_bind_field(s, p),
        ListKind::LambdaBind => spec_item_lambda_bind(s, p),
        ListKind::Attribute => spec_item_attribute(s, p),
        ListKind::Param => spec_item_param(s, p),
        ListKind::FieldAnnot => spec_item_field_annot(s, p),
        ListKind::PosField => spec_item_pos_field(s, p),
        ListKind::TypeParam | ListKind::StructTypeParam => spec_item_type_param(s, p, kind),
        ListKind::UseModule => spec_item_use_module(s, p),
        ListKind::UseMember => spec_item_use_member(s, p),
    }
}

/// An item of a list of kind `ExpField`.
pub open spec fn spec_item_exp_field(s: Seq<Token>, p: int) -> (Result<Item, ParseError>, int)
    decreases measure(s.len() as int, p, 20),
{
    let (f, p1) = spec_identifier(s, p);
    match f {
        Err(e) => (Err(e), p1),
        Ok(f) => if peek(s, p1) == Tok::Colon {
            let (e, p2) = spec_exp(s, adv(s, p1));
            match e {
                Err(err) => (Err(err), p2),
                Ok(e) => (Ok(Item::ExpField(f, Box::new(e))), p2),
            }
        } else {
            (Ok(Item::ExpField(f, Box::new(Exp { start: f.start, end: f.end, exp: Exp_::Name(f, None) }))), p1)
        },
    }
}

/// An item of a list of kind `Bind`.
pub open spec fn spec_item_bind(s: Seq<Token>, p: int) -> (Result<Item, ParseError>, int)
    decreases measure(s.len() as int, p, 20),
{
    let (b, p1) = spec_bind(s, p);
    match b {
        Err(e) => (Err(e), p1),
        Ok(b) => (Ok(Item::Bind(Box::new(b))), p1),
    }
}

/// An item of a list of kind `BindField`.
pub open spec fn spec_item_bind_field(s: Seq<Token>, p: int) -> (Result<Item, ParseError>, int)
    decreases measure(s.len() as int, p, 20),
{
    let is_mut = peek(s, p) == Tok::Mut;
    let p0 = if is_mut {
        adv(s, p)
    } else {
        p
    };
    let (f, p1) = spec_identifier(s, p0);
    match f {
        Err(e) => (Err(e), p1),
        Ok(f) => if is_mut {
            (Ok(Item::BindField(f, Box::new(Bind { start: f.start, end: f.end, bind: Bind_::Var(true, f) }))), p1)
        } else if peek(s, p1) == Tok::Colon {
            let (b, p2) = spec_bind(s, adv(s, p1));
            match b {
                Err(e) => (Err(e), p2),
                Ok(b) => (Ok(Item::BindField(f, Box::new(b))), p2),
            }
        } else {
            (Ok(Item::BindField(f, Box::new(Bind { start: f.start, end: f.end, bind: Bind_::Var(false, f) }))), p1)
        },
    }
}

/// An item of a list of kind `LambdaBind`.
pub open spec fn spec_item_lambda_bind(s: Seq<Token>, p: int) -> (Result<Item, ParseError>, int)
    decreases measure(s.len() as int, p, 20),
{
    let (b, p1) = spec_bind_list(s, p);
    match b {
        Err(e) => (Err(e), p1),
        Ok(b) => {
            let p1 = no_earlier(p1, p);
            if peek(s, p1) == Tok::Colon {
                let (t, p2) = spec_type(s, adv(s, p1), false);
                match t {
                    Err(e) => (Err(e), p2),
                    Ok(t) => (Ok(Item::LambdaBind(Box::new(b), Some(Box::new(t)))), p2),
                }
            } else {
                (Ok(Item::LambdaBind(Box::new(b), None)), p1)
            }
        },
    }
}

/// An item of a list of kind `Attribute`.
pub open spec fn spec_item_attribute(s: Seq<Token>, p: int) -> (Result<Item, ParseError>, int)
    decreases measure(s.len() as int, p, 20),
{
    let (n, p1): (Result<Span, ParseError>, int) = if peek(s, p) == Tok::For {
        (Ok(span_at(s, p)), adv(s, p))
    } else {
        spec_identifier(s, p)
    };
    match n {
        Err(e) => (Err(e), p1),
        Ok(n) => {
            let p1 = no_earlier(p1, p);
            let (a, p2): (Result<Attribute_, ParseError>, int) = if peek(s, p1) == Tok::Equal {
                let q = adv(s, p1);
                let (v, q1) = spec_value(s, q);
                match v {
                    Err(e) => (Err(e), q1),
                    Ok(Some(v)) => (Ok(Attribute_::Assigned(n, AttributeValue::Value(v))), q1),
                    Ok(None) => {
                        let (c, q2) = spec_name_chain(s, q);
                        match c {
                            Err(e) => (Err(e), q2),
                            Ok(c) => (Ok(Attribute_::Assigned(n, AttributeValue::ModuleAccess(c))), q2),
                        }
                    },
                }
            } else if peek(s, p1) == Tok::LParen {
                let (args, q) = spec_list_after_start(s, adv(s, p1), Tok::RParen, ListKind::Attribute);
                match args {
                    Err(e) => (Err(e), q),
                    Ok(args) => (Ok(Attribute_::Parameterized(n, Box::new(args))), q),
                }
            } else {
                (Ok(Attribute_::Name(n)), p1)
            };
            match a {
                Err(e) => (Err(e), p2),
                Ok(a) => (Ok(Item::Attribute(Box::new(Attribute { start: start_at(s, p), end: prev_end(s, p2), attr: a }))), p2),
            }
        },
    }
}

/// An item of a list of kind `Param`.
pub open spec fn spec_item_param(s: Seq<Token>, p: int) -> (Result<Item, ParseError>, int)
    decreases measure(s.len() as int, p, 20),
{
    let is_mut = peek(s, p) == Tok::Mut;
    let p0 = if is_mut {
        adv(s, p)
    } else {
        p
    };
    let (v, p1) = spec_identifier(s, p0);
    match v {
        Err(e) => (Err(e), p1),
        Ok(v) => match spec_consume(s, p1, Tok::Colon) {
            Err(e) => (Err(e), p1),
            Ok(p2) => {
                let (t, p3) = spec_type(s, p2, false);
                match t {
                    Err(e) => (Err(e), p3),
                    Ok(t) => (Ok(Item::Param(is_mut, v, Box::new(t))), p3),
                }
            },
        },
    }
}

/// An item of a list of kind `FieldAnnot`.
pub open spec fn spec_item_field_annot(s: Seq<Token>, p: int) -> (Result<Item, ParseError>, int)
    decreases measure(s.len() as int, p, 20),
{
    let (f, p1) = spec_identifier(s, p);
    match f {
        Err(e) => (Err(e), p1),
        Ok(f) => match spec_consume(s, p1, Tok::Colon) {
            Err(e) => (Err(e), p1),
            Ok(p2) => {
                let (t, p3) = spec_type(s, p2, false);
                match t {
                    Err(e) => (Err(e), p3),
                    Ok(t) => (Ok(Item::FieldAnnot(f, Box::new(t))), p3),
                }
            },
        },
    }
}

/// An item of a list of kind `PosField`.
pub open spec fn spec_item_pos_field(s: Seq<Token>, p: int) -> (Result<Item, ParseError>, int)
    decreases measure(s.len() as int, p, 20),
{
    let (t, p1) = spec_type(s, p, false);
    match t {
        Err(e) => (Err(e), p1),
        Ok(t) => (Ok(Item::PosField(Box::new(t))), p1),
    }
}

/// An item of a list of kind `TypeParam`.
pub open spec fn spec_item_type_param(s: Seq<Token>, p: int, kind: ListKind) -> (Result<Item, ParseError>, int)
    decreases measure(s.len() as int, p, 20),
{
    let phantom = kind == ListKind::StructTypeParam && peek(s, p) == Tok::Phantom;
    let p0 = if phantom {
        adv(s, p)
    } else {
        p
    };
    let (n, p1) = spec_identifier(s, p0);
    match n {
        Err(e) => (Err(e), p1),
        Ok(n) => if peek(s, p1) == Tok::Colon {
            let (abs, p2) = spec_abilities(s, adv(s, p1), 0);
            match abs {
                Err(e) => (Err(e), p2),
                Ok(abs) => (Ok(Item::TypeParam(phantom, n, Box::new(abs))), p2),
            }
        } else {
            (Ok(Item::TypeParam(phantom, n, Box::new(Abilities::Nil))), p1)
        },
    }
}

/// An item of a list of kind `UseModule`.
pub open spec fn spec_item_use_module(s: Seq<Token>, p: int) -> (Result<Item, ParseError>, int)
    decreases measure(s.len() as int, p, 20),
{
    let (name, p1) = spec_identifier(s, p);
    match name {
        Err(e) => (Err(e), p1),
        Ok(name) => {
            let (alias, p2): (Result<Option<Span>, ParseError>, int) = if peek(s, p1) == Tok::As {
                let (a, q) = spec_identifier(s, adv(s, p1));
                match a {
                    Err(e) => (Err(e), q),
                    Ok(a) => (Ok(Some(a)), q),
                }
            } else {
                (Ok(None), p1)
            };
            match alias {
                Err(e) => (Err(e), p2),
                Ok(alias) => if alias.is_none() && peek(s, p2) == Tok::ColonColon {
                    let p3 = adv(s, p2);
                    let (members, p4): (Result<Items, ParseError>, int) = if peek(s, p3) == Tok::LBrace {
                        spec_list_after_start(s, adv(s, p3), Tok::RBrace, ListKind::UseMember)
                    } else {
                        let (m, q) = spec_item_use_member(s, p3);
                        match m {
                            Err(e) => (Err(e), q),
                            Ok(m) => (Ok(Items::Cons(Box::new(m), Box::new(Items::Nil))), q),
                        }
                    };
                    match members {
                        Err(e) => (Err(e), p4),
                        Ok(members) => (Ok(Item::UseModule(Box::new(UseModule { name, use_: ModuleUse::Members(Box::new(members)) }))), p4),
                    }
                } else {
                    (Ok(Item::UseModule(Box::new(UseModule { name, use_: ModuleUse::Module(alias) }))), p2)
                },
            }
        },
    }
}

/// An item of a list of kind `UseMember`.
pub open spec fn spec_item_use_member(s: Seq<Token>, p: int) -> (Result<Item, ParseError>, int)
    decreases measure(s.len() as int, p, 20),
{
    let (m, p1) = spec_identifier(s, p);
    match m {
        Err(e) => (Err(e), p1),
        Ok(m) => if peek(s, p1) == Tok::As {
            let (a, p2) = spec_identifier(s, adv(s, p1));
            match a {
                Err(e) => (Err(e), p2),
                Ok(a) => (Ok(Item::UseMember(m, Some(a))), p2),
            }
        } else {
            (Ok(Item::UseMember(m, None)), p1)
        },
    }
}

/// A list of abilities: `mode` 0 is a type parameter's constraints (joined
/// by `+`, ended by `>` or `,`), 1 an infix `has` list (joined by `,`, ended
/// by `{`, `;` or `(`), 2 a postfix `has` list (joined by `,`, ended by `;`).
pub open spec fn spec_abilities(s: Seq<Token>, p: int, mode: u8) -> (Result<Abilities, ParseError>, int)
    decreases measure(s.len() as int, p, 2),
{
    match ability_of(peek(s, p)) {
        None => (Err(unexpected(s, p, Expected::Ability)), p),
        Some(a) => {
            let sp = span_at(s, p);
            let p1 = adv(s, p);
            let t = peek(s, p1);
            let sep = if mode == 0 {
                Tok::Plus
            } else {
                Tok::Comma
            };
            if t == sep {
                let (rest, p2) = spec_abilities(s, adv(s, p1), mode);
                match rest {
                    Err(e) => (Err(e), p2),
                    Ok(rest) => (Ok(Abilities::Cons(a, sp, Box::new(rest))), p2),
                }
            } else if (mode == 0 && (t == Tok::Greater || t == Tok::Comma)) || (mode == 1 && (t == Tok::LBrace || t == Tok::Semicolon || t == Tok::LParen)) || (mode == 2 && t == Tok::Semicolon) {
                (Ok(Abilities::Cons(a, sp, Box::new(Abilities::Nil))), p1)
            } else {
                (Err(unexpected(s, p1, Expected::AbilityListContinuation)), p1)
            }
        },
    }
}

/// `Attributes = ("#" "[" Comma<Attribute> "]")*`
pub open spec fn spec_attributes(s: Seq<Token>, p: int) -> (Result<AttrGroups, ParseError>, int)
    decreases measure(s.len() as int, p, 22),
{
    if peek(s, p) == Tok::NumSign {
        let p1 = adv(s, p);
        match spec_consume(s, p1, Tok::LBracket) {
            Err(e) => (Err(e), p1),
            Ok(p2) => {
                let (attrs, p3) = spec_list_after_start(s, p2, Tok::RBracket, ListKind::Attribute);
                match attrs {
                    Err(e) => (Err(e), p3),
                    Ok(attrs) => {
                        let p3 = no_earlier(p3, p2);
                        let sp = Span { start: start_at(s, p), end: prev_end(s, p3) };
                        let (rest, p4) = spec_attributes(s, p3);
                        match rest {
                            Err(e) => (Err(e), p4),
                            Ok(rest) => (Ok(AttrGroups::Cons(sp, Box::new(attrs), Box::new(rest))), p4),
                        }
                    },
                }
            },
        }
    } else {
        (Ok(AttrGroups::Nil), p)
    }
}

/// `Visibility = "public" ("(" ("friend" | "package") ")")?`
pub open spec fn spec_visibility(s: Seq<Token>, p: int) -> (Result<Visibility, ParseError>, int)
{
    match spec_consume(s, p, Tok::Public) {
        Err(e) => (Err(e), p),
        Ok(p1) => if peek(s, p1) == Tok::LParen {
            let p2 = adv(s, p1);
            let sub = peek(s, p2);
            let p3 = adv(s, p2);
            let (r, p4): (Result<int, ParseError>, int) = if sub != Tok::RParen {
                match spec_consume(s, p3, Tok::RParen) {
                    Err(e) => (Err(e), p3),
                    Ok(q) => (Ok(q), q),
                }
            } else {
                (Ok(p3), p3)
            };
            match r {
                Err(e) => (Err(e), p4),
                Ok(_) => {
                    let loc = Span { start: start_at(s, p), end: prev_end(s, p4) };
                    if sub == Tok::Friend {
                        (Ok(Visibility::Friend(loc)), p4)
                    } else if sub == Tok::Package {
                        (Ok(Visibility::Package(loc)), p4)
                    } else {
                        (Err(ParseError { start: loc.start, end: loc.end, found: sub, expected: Expected::Visibility }), p4)
                    }
                },
            }
        } else {
            (Ok(Visibility::Public(Span { start: start_at(s, p), end: prev_end(s, p1) })), p1)
        },
    }
}

/// `ModuleMemberModifiers`: visibility, `native`, `entry` and `macro`, in any
/// order; a repeated modifier keeps the last one.
pub open spec fn spec_modifiers(s: Seq<Token>, p: int, mods: Modifiers) -> (Result<Modifiers, ParseError>, int)
    decreases measure(s.len() as int, p, 24),
{
    let t = peek(s, p);
    if t == Tok::Public {
        let (v, p1) = spec_visibility(s, p);
        match v {
            Err(e) => (Err(e), p1),
            Ok(v) => spec_modifiers(s, later(p1, p), Modifiers { visibility: Some(v), entry: mods.entry, native: mods.native, macro_: mods.macro_ }),
        }
    } else if t == Tok::Native {
        spec_modifiers(s, adv(s, p), Modifiers { visibility: mods.visibility, entry: mods.entry, native: Some(span_at(s, p)), macro_: mods.macro_ })
    } else if t == Tok::Entry {
        spec_modifiers(s, adv(s, p), Modifiers { visibility: mods.visibility, entry: Some(span_at(s, p)), native: mods.native, macro_: mods.macro_ })
    } else if t == Tok::Macro {
        spec_modifiers(s, adv(s, p), Modifiers { visibility: mods.visibility, entry: mods.entry, native: mods.native, macro_: Some(span_at(s, p)) })
    } else {
        (Ok(mods), p)
    }
}

/// `FunctionDecl = "fun" <Identifier> <OptionalTypeParameters> "(" Comma<Parameter> ")"
///     (":" <Type>)? ("acquires" <NameAccessChain> ("," <NameAccessChain>)*)?
///     ("{" <Sequence> | ";")`; a native function has no body.
pub open spec fn spec_function_decl(s: Seq<Token>, p: int, attributes: AttrGroups, start: usize, mods: Modifiers) -> (Result<Function, ParseError>, int)
    decreases measure(s.len() as int, p, 25),
{
    match spec_consume(s, p, Tok::Fun) {
        Err(e) => (Err(e), p),
        Ok(p1) => {
            let (name, p2) = spec_identifier(s, p1);
            match name {
                Err(e) => (Err(e), p2),
                Ok(name) => {
                    let (tps, p3): (Result<Items, ParseError>, int) = if peek(s, p2) == Tok::Less {
                        spec_list_after_start(s, adv(s, p2), Tok::Greater, ListKind::TypeParam)
                    } else {
                        (Ok(Items::Nil), p2)
                    };
                    match tps {
                        Err(e) => (Err(e), p3),
                        Ok(tps) => {
                            let p3 = no_earlier(p3, p2);
                            match spec_consume(s, p3, Tok::LParen) {
                                Err(e) => (Err(e), p3),
                                Ok(p4) => {
                                    let (params, p5) = spec_list_after_start(s, p4, Tok::RParen, ListKind::Param);
                                    match params {
                                        Err(e) => (Err(e), p5),
                                        Ok(params) => {
                                            let p5 = no_earlier(p5, p4);
                                            let (ret, p6): (Result<Option<Box<Type>>, ParseError>, int) = if peek(s, p5) == Tok::Colon {
                                                let (t, q) = spec_type(s, adv(s, p5), false);
                                                match t {
                                                    Err(e) => (Err(e), q),
                                                    Ok(t) => (Ok(Some(Box::new(t))), q),
                                                }
                                            } else {
                                                (Ok(None), p5)
                                            };
                                            match ret {
                                                Err(e) => (Err(e), p6),
                                                Ok(ret) => {
                                                    let p6 = no_earlier(p6, p5);
                                                    let (acq, p7): (Result<Names, ParseError>, int) = if peek(s, p6) == Tok::Acquires {
                                                        spec_acquires(s, adv(s, p6))
                                                    } else {
                                                        (Ok(Names::Nil), p6)
                                                    };
                                                    match acq {
                                                        Err(e) => (Err(e), p7),
                                                        Ok(acq) => {
                                                            let p7 = no_earlier(p7, p6);
                                                            let (body, p8): (Result<FunctionBody, ParseError>, int) = if mods.native.is_some() {
                                                                match spec_consume(s, p7, Tok::Semicolon) {
                                                                    Err(e) => (Err(e), p7),
                                                                    Ok(q) => (Ok(FunctionBody::Native), q),
                                                                }
                                                            } else {
                                                                match spec_consume(s, p7, Tok::LBrace) {
                                                                    Err(e) => (Err(e), p7),
                                                                    Ok(q) => {
                                                                        let (sq, q1) = spec_sequence(s, q);
                                                                        match sq {
                                                                            Err(e) => (Err(e), q1),
                                                                            Ok(sq) => (Ok(FunctionBody::Defined(Box::new(sq))), q1),
                                                                        }
                                                                    },
                                                                }
                                                            };
                                                            match body {
                                                                Err(e) => (Err(e), p8),
                                                                Ok(body) => (
                                                                    Ok(
                                                                        Function {
                                                                            attributes,
                                                                            start,
                                                                            end: prev_end(s, p8),
                                                                            modifiers: mods,
                                                                            name,
                                                                            type_parameters: tps,
                                                                            parameters: params,
                                                                            return_type: ret,
                                                                            acquires: acq,
                                                                            body,
                                                                        },
                                                                    ),
                                                                    p8,
                                                                ),
                                                            }
                                                        },
                                                    }
                                                },
                                            }
                                        },
                                    }
                                },
                            }
                        },
                    }
                },
            }
        },
    }
}

/// The names after `acquires`, through the one before `;` or `{`.
pub open spec fn spec_acquires(s: Seq<Token>, p: int) -> (Result<Names, ParseError>, int)
    decreases measure(s.len() as int, p, 2),
{
    let (n, p1) = spec_name_chain(s, p);
    match n {
        Err(e) => (Err(e), p1),
        Ok(n) => {
            let p1 = no_earlier(p1, p);
            let t = peek(s, p1);
            if t == Tok::Semicolon || t == Tok::LBrace {
                (Ok(Names::Cons(n, Box::new(Names::Nil))), p1)
            } else {
                match spec_consume(s, p1, Tok::Comma) {
                    Err(e) => (Err(e), p1),
                    Ok(p2) => {
                        let t2 = peek(s, p2);
                        if t2 == Tok::Semicolon || t2 == Tok::LBrace {
                            (Ok(Names::Cons(n, Box::new(Names::Nil))), p2)
                        } else {
                            let (rest, p3) = spec_acquires(s, p2);
                            match rest {
                                Err(e) => (Err(e), p3),
                                Ok(rest) => (Ok(Names::Cons(n, Box::new(rest))), p3),
                            }
                        }
                    },
                }
            }
        },
    }
}

/// `StructDecl = "struct" <Identifier> <StructTypeParameters> ("has" <Abilities>)?
///     ("{" Comma<FieldAnnot> "}" | "(" Comma<PosField> ")") ("has" <Abilities> ";")?`;
/// a native struct ends with `;`.
pub open spec fn spec_struct_decl(s: Seq<Token>, p: int, attributes: AttrGroups, start: usize, mods: Modifiers) -> (Result<StructDecl, ParseError>, int)
    decreases measure(s.len() as int, p, 25),
{
    match spec_consume(s, p, Tok::Struct) {
        Err(e) => (Err(e), p),
        Ok(p1) => {
            let (name, p2) = spec_identifier(s, p1);
            match name {
                Err(e) => (Err(e), p2),
                Ok(name) => {
                    let (tps, p3): (Result<Items, ParseError>, int) = if peek(s, p2) == Tok::Less {
                        spec_list_after_start(s, adv(s, p2), Tok::Greater, ListKind::StructTypeParam)
                    } else {
                        (Ok(Items::Nil), p2)
                    };
                    match tps {
                        Err(e) => (Err(e), p3),
                        Ok(tps) => {
                            let p3 = no_earlier(p3, p2);
                            let (infix, p4): (Result<Abilities, ParseError>, int) = if peek(s, p3) == Tok::Has {
                                spec_abilities(s, adv(s, p3), 1)
                            } else {
                                (Ok(Abilities::Nil), p3)
                            };
                            match infix {
                                Err(e) => (Err(e), p4),
                                Ok(infix) => {
                                    let p4 = no_earlier(p4, p3);
                                    let (fa, p5): (Result<(StructFields, Abilities), ParseError>, int) = if mods.native.is_some() {
                                        match spec_consume(s, p4, Tok::Semicolon) {
                                            Err(e) => (Err(e), p4),
                                            Ok(q) => (Ok((StructFields::Native, infix)), q),
                                        }
                                    } else {
                                        let positional = peek(s, p4) == Tok::LParen;
                                        let (fs, q): (Result<StructFields, ParseError>, int) = if positional {
                                            let (l, q0) = spec_list_after_start(s, adv(s, p4), Tok::RParen, ListKind::PosField);
                                            match l {
                                                Err(e) => (Err(e), q0),
                                                Ok(l) => (Ok(StructFields::Positional(Box::new(l))), q0),
                                            }
                                        } else {
                                            match spec_consume(s, p4, Tok::LBrace) {
                                                Err(e) => (Err(e), p4),
                                                Ok(q0) => {
                                                    let (l, q1) = spec_list_after_start(s, q0, Tok::RBrace, ListKind::FieldAnnot);
                                                    match l {
                                                        Err(e) => (Err(e), q1),
                                                        Ok(l) => (Ok(StructFields::Named(Box::new(l))), q1),
                                                    }
                                                },
                                            }
                                        };
                                        match fs {
                                            Err(e) => (Err(e), q),
                                            Ok(fs) => {
                                                let q = no_earlier(q, p4);
                                                if peek(s, q) == Tok::Has {
                                                    let (post, q2) = spec_abilities(s, adv(s, q), 2);
                                                    match post {
                                                        Err(e) => (Err(e), q2),
                                                        Ok(post) => match spec_consume(s, q2, Tok::Semicolon) {
                                                            Err(e) => (Err(e), q2),
                                                            Ok(q3) => (Ok((fs, post)), q3),
                                                        },
                                                    }
                                                } else {
                                                    (Ok((fs, infix)), q)
                                                }
                                            },
                                        }
                                    };
                                    match fa {
                                        Err(e) => (Err(e), p5),
                                        Ok((fields, abilities)) => (
                                            Ok(
                                                StructDecl {
                                                    attributes,
                                                    start,
                                                    end: prev_end(s, p5),
                                                    modifiers: mods,
                                                    name,
                                                    type_parameters: tps,
                                                    abilities,
                                                    fields,
                                                },
                                            ),
                                            p5,
                                        ),
                                    }
                                },
                            }
                        },
                    }
                },
            }
        },
    }
}

/// `ConstantDecl = "const" <Identifier> ":" <Type> "=" <Exp> ";"`
pub open spec fn spec_constant_decl(s: Seq<Token>, p: int, attributes: AttrGroups, start: usize) -> (Result<Constant, ParseError>, int)
    decreases measure(s.len() as int, p, 25),
{
    match spec_consume(s, p, Tok::Const) {
        Err(e) => (Err(e), p),
        Ok(p1) => {
            let (name, p2) = spec_identifier(s, p1);
            match name {
                Err(e) => (Err(e), p2),
                Ok(name) => if peek(s, p2) == Tok::Equal {
                    (Err(unexpected(s, p2, Expected::TypeAnnotation)), p2)
                } else {
                    match spec_consume(s, p2, Tok::Colon) {
                        Err(e) => (Err(e), p2),
                        Ok(p3) => {
                            let (ty, p4) = spec_type(s, p3, false);
                            match ty {
                                Err(e) => (Err(e), p4),
                                Ok(ty) => {
                                    let p4 = no_earlier(p4, p3);
                                    match spec_consume(s, p4, Tok::Equal) {
                                        Err(e) => (Err(e), p4),
                                        Ok(p5) => {
                                            let (v, p6) = spec_exp(s, p5);
                                            match v {
                                                Err(e) => (Err(e), p6),
                                                Ok(v) => {
                                                    let p6 = no_earlier(p6, p5);
                                                    match spec_consume(s, p6, Tok::Semicolon) {
                                                        Err(e) => (Err(e), p6),
                                                        Ok(p7) => (
                                                            Ok(
                                                                Constant {
                                                                    attributes,
                                                                    start,
                                                                    end: prev_end(s, p7),
                                                                    name,
                                                                    signature: Box::new(ty),
                                                                    value: Box::new(v),
                                                                },
                                                            ),
                                                            p7,
                                                        ),
                                                    }
                                                },
                                            }
                                        },
                                    }
                                },
                            }
                        },
                    }
                },
            }
        },
    }
}

/// `FriendDecl = "friend" <NameAccessChain> ";"`
pub open spec fn spec_friend_decl(s: Seq<Token>, p: int, attributes: AttrGroups) -> (Result<FriendDecl, ParseError>, int)
{
    match spec_consume(s, p, Tok::Friend) {
        Err(e) => (Err(e), p),
        Ok(p1) => {
            let (n, p2) = spec_name_chain(s, p1);
            match n {
                Err(e) => (Err(e), p2),
                Ok(n) => match spec_consume(s, p2, Tok::Semicolon) {
                    Err(e) => (Err(e), p2),
                    Ok(p3) => (Ok(FriendDecl { attributes, start: start_at(s, p), end: prev_end(s, p3), friend: n }), p3),
                },
            }
        },
    }
}

/// `UseDecl = "use" "fun" <NameAccessChain> "as" <NameAccessChain> "." <Identifier> ";"
///   | "use" <LeadingNameAccess> "::" ("{" Comma<UseModule> "}" | <UseModule>) ";"`
pub open spec fn spec_use_decl(s: Seq<Token>, p: int, attributes: AttrGroups, start: usize, mods: Modifiers) -> (Result<UseDecl, ParseError>, int)
    decreases measure(s.len() as int, p, 16),
{
    match spec_consume(s, p, Tok::Use) {
        Err(e) => (Err(e), p),
        Ok(p1) => {
            let (u, p2): (Result<Use, ParseError>, int) = if peek(s, p1) == Tok::Fun {
                let (f, q) = spec_name_chain(s, adv(s, p1));
                match f {
                    Err(e) => (Err(e), q),
                    Ok(f) => match spec_consume(s, q, Tok::As) {
                        Err(e) => (Err(e), q),
                        Ok(q1) => {
                            let (ty, q2) = spec_name_chain(s, q1);
                            match ty {
                                Err(e) => (Err(e), q2),
                                Ok(ty) => match spec_consume(s, q2, Tok::Period) {
                                    Err(e) => (Err(e), q2),
                                    Ok(q3) => {
                                        let (m, q4) = spec_identifier(s, q3);
                                        match m {
                                            Err(e) => (Err(e), q4),
                                            Ok(m) => (Ok(Use::Fun(mods.visibility, f, ty, m)), q4),
                                        }
                                    },
                                },
                            }
                        },
                    },
                }
            } else {
                let (addr, q) = spec_leading_name(s, p1);
                match addr {
                    Err(e) => (Err(e), q),
                    Ok(addr) => match spec_consume(s, q, Tok::ColonColon) {
                        Err(e) => (Err(e), q),
                        Ok(q1) => if peek(s, q1) == Tok::LBrace {
                            let (l, q2) = spec_list_after_start(s, adv(s, q1), Tok::RBrace, ListKind::UseModule);
                            match l {
                                Err(e) => (Err(e), q2),
                                Ok(l) => (Ok(Use::NestedModuleUses(addr, Box::new(l))), q2),
                            }
                        } else {
                            let (it, q2) = spec_item_use_module(s, q1);
                            match it {
                                Err(e) => (Err(e), q2),
                                Ok(Item::UseModule(um)) => (Ok(Use::ModuleUse(addr, um)), q2),
                                Ok(_) => (Err(unexpected(s, q1, Expected::Identifier)), q2),
                            }
                        },
                    },
                }
            };
            match u {
                Err(e) => (Err(e), p2),
                Ok(u) => {
                    let p2 = no_earlier(p2, p1);
                    match spec_consume(s, p2, Tok::Semicolon) {
                        Err(e) => (Err(e), p2),
                        Ok(p3) => (Ok(UseDecl { attributes, start, end: prev_end(s, p3), use_: u }), p3),
                    }
                },
            }
        },
    }
}

/// A module member with its attributes: a spec block, a friend, or a
/// constant, function, struct or use after its modifiers; the start of the
/// next module, where a member was expected, ends the module.
pub open spec fn spec_member(s: Seq<Token>, p: int) -> (Result<MemberOut, ParseError>, int)
    decreases measure(s.len() as int, p, 26),
{
    let (attrs, p1) = spec_attributes(s, p);
    match attrs {
        Err(e) => (Err(e), p1),
        Ok(attrs) => {
            let p1 = no_earlier(p1, p);
            let t = peek(s, p1);
            if t == Tok::Invariant {
                let (sp, q) = spec_spec_block(s, p1);
                match sp {
                    Err(e) => (Err(e), q),
                    Ok(sp) => match spec_consume(s, q, Tok::Semicolon) {
                        Err(e) => (Err(e), q),
                        Ok(q1) => (Ok(MemberOut::Member(Box::new(ModuleMember::Spec(sp)))), q1),
                    },
                }
            } else if t == Tok::Spec {
                let t1 = peek(s, p1 + 1);
                let from_fun = t1 == Tok::Fun || t1 == Tok::Native;
                let q = if from_fun {
                    adv(s, p1)
                } else {
                    p1
                };
                if from_fun && peek(s, q + 1) == Tok::Identifier && peek(s, q + 2) == Tok::LBrace {
                    (Err(unexpected(s, q, Expected::SpecWithoutFun)), q)
                } else {
                    let (sp, q1) = spec_spec_block(s, q);
                    match sp {
                        Err(e) => (Err(e), q1),
                        Ok(sp) => (Ok(MemberOut::Member(Box::new(ModuleMember::Spec(sp)))), q1),
                    }
                }
            } else if t == Tok::Friend {
                let (f, q) = spec_friend_decl(s, p1, attrs);
                match f {
                    Err(e) => (Err(e), q),
                    Ok(f) => (Ok(MemberOut::Member(Box::new(ModuleMember::Friend(Box::new(f))))), q),
                }
            } else {
                let start = start_at(s, p1);
                let (m, p2) = spec_modifiers(s, p1, empty_modifiers());
                match m {
                    Err(e) => (Err(e), p2),
                    Ok(mods) => {
                        let p2 = no_earlier(p2, p1);
                        let t2 = peek(s, p2);
                        if t2 == Tok::Const {
                            let (c, q) = spec_constant_decl(s, p2, attrs, start);
                            match c {
                                Err(e) => (Err(e), q),
                                Ok(c) => (Ok(MemberOut::Member(Box::new(ModuleMember::Constant(Box::new(c))))), q),
                            }
                        } else if t2 == Tok::Fun {
                            let (f, q) = spec_function_decl(s, p2, attrs, start, mods);
                            match f {
                                Err(e) => (Err(e), q),
                                Ok(f) => (Ok(MemberOut::Member(Box::new(ModuleMember::Function(Box::new(f))))), q),
                            }
                        } else if t2 == Tok::Struct {
                            let (d, q) = spec_struct_decl(s, p2, attrs, start, mods);
                            match d {
                                Err(e) => (Err(e), q),
                                Ok(d) => (Ok(MemberOut::Member(Box::new(ModuleMember::Struct(Box::new(d))))), q),
                            }
                        } else if t2 == Tok::Use {
                            let (u, q) = spec_use_decl(s, p2, attrs, start, mods);
                            match u {
                                Err(e) => (Err(e), q),
                                Ok(u) => (Ok(MemberOut::Member(Box::new(ModuleMember::Use(Box::new(u))))), q),
                            }
                        } else if t2 == Tok::Module {
                            (Ok(MemberOut::ContinueToModule(attrs, unexpected(s, p2, Expected::ModuleMember))), p2)
                        } else {
                            (Err(unexpected(s, p2, Expected::ModuleMember)), p2)
                        }
                    },
                }
            }
        },
    }
}

/// The members of a module up to its `}`, recovering from a member's error
/// by reporting it and skipping to the next member or module.
#[verifier::rlimit(100)]
pub open spec fn spec_module_members(s: Seq<Token>, p: int) -> (Result<MembersOut, ParseError>, int)
    decreases measure(s.len() as int, p, 27),
{
    if peek(s, p) == Tok::RBrace {
        (Ok(MembersOut { members: Members::Nil, next: None, diags: Diags::Nil, stop: false }), p)
    } else {
        let (m, p1) = spec_member(s, p);
        match m {
            Ok(MemberOut::Member(m)) => if p1 <= p {
                (Ok(MembersOut { members: Members::Cons(m, Box::new(Members::Nil)), next: None, diags: Diags::Nil, stop: true }), p1)
            } else {
                let (rest, p2) = spec_module_members(s, p1);
                match rest {
                    Err(e) => (Err(e), p2),
                    Ok(rest) => (Ok(MembersOut { members: Members::Cons(m, Box::new(rest.members)), next: rest.next, diags: rest.diags, stop: rest.stop }), p2),
                }
            },
            Ok(MemberOut::ContinueToModule(attrs, err)) => (Ok(MembersOut { members: Members::Nil, next: Some(Box::new(attrs)), diags: Diags::Cons(Diag::Syntax(err), Box::new(Diags::Nil)), stop: true }), p1),
            Err(err) => {
                let q = skip_to(s, p1, 0);
                let t = peek(s, q);
                if t == Tok::EOF || t == Tok::Module || q <= p {
                    (Ok(MembersOut { members: Members::Nil, next: None, diags: Diags::Cons(Diag::Syntax(err), Box::new(Diags::Nil)), stop: true }), q)
                } else {
                    let (rest, q1) = spec_module_members(s, q);
                    match rest {
                        Err(e) => (Err(e), q1),
                        Ok(rest) => (Ok(MembersOut { members: rest.members, next: rest.next, diags: Diags::Cons(Diag::Syntax(err), Box::new(rest.diags)), stop: rest.stop }), q1),
                    }
                }
            },
        }
    }
}

/// `Module = ("spec" | "module") (<LeadingNameAccess> "::")? <Identifier> "{" <Member>* "}"`
pub open spec fn spec_module(s: Seq<Token>, p: int, attrs: AttrGroups) -> (Result<ModuleOut, Failed>, int)
    decreases measure(s.len() as int, p, 28),
{
    let start = start_at(s, p);
    let is_spec = peek(s, p) == Tok::Spec;
    let r1: Result<int, ParseError> = if is_spec {
        Ok(adv(s, p))
    } else {
        spec_consume(s, p, Tok::Module)
    };
    match r1 {
        Err(e) => (Err(Failed { error: e, diags: Diags::Nil }), p),
        Ok(p1) => {
            let t1 = peek(s, p1);
            let (n1, p2) = spec_leading_name(s, p1);
            match n1 {
                Err(e) => (Err(Failed { error: e, diags: Diags::Nil }), p2),
                Ok(n1) => {
                    let (an, p3): (Result<(Option<Span>, Span), ParseError>, int) = if t1 == Tok::NumValue || peek(s, p2) == Tok::ColonColon {
                        match spec_consume(s, p2, Tok::ColonColon) {
                            Err(e) => (Err(e), p2),
                            Ok(q) => {
                                let (name, q1) = spec_identifier(s, q);
                                match name {
                                    Err(e) => (Err(e), q1),
                                    Ok(name) => (Ok((Some(n1), name)), q1),
                                }
                            },
                        }
                    } else {
                        (Ok((None, n1)), p2)
                    };
                    match an {
                        Err(e) => (Err(Failed { error: e, diags: Diags::Nil }), p3),
                        Ok((address, name)) => match spec_consume(s, p3, Tok::LBrace) {
                            Err(e) => (Err(Failed { error: e, diags: Diags::Nil }), p3),
                            Ok(p4) => {
                                let (ms, p5) = spec_module_members(s, p4);
                                match ms {
                                    Err(e) => (Err(Failed { error: e, diags: Diags::Nil }), p5),
                                    Ok(ms) => {
                                        let p5 = no_earlier(p5, p4);
                                        let stop = ms.stop;
                                        let closed: Result<int, ParseError> = if stop {
                                            Ok(p5)
                                        } else {
                                            spec_consume(s, p5, Tok::RBrace)
                                        };
                                        match closed {
                                            Err(e) => (Err(Failed { error: e, diags: ms.diags }), p5),
                                            Ok(p6) => (
                                                Ok(
                                                    ModuleOut {
                                                        def: ModuleDefinition {
                                                            attributes: attrs,
                                                            start,
                                                            end: prev_end(s, p6),
                                                            address,
                                                            name,
                                                            is_spec_module: is_spec,
                                                            members: ms.members,
                                                        },
                                                        next: ms.next,
                                                        diags: ms.diags,
                                                    },
                                                ),
                                                p6,
                                            ),
                                        }
                                    },
                                }
                            },
                        },
                    }
                },
            }
        },
    }
}

/// Modules that follow one another at the top of a file, each after the
/// attributes that recovery read for it.
pub open spec fn spec_file_def_modules(s: Seq<Token>, p: int, attrs: AttrGroups) -> (Result<(Definitions, Diags), Failed>, int)
    decreases measure(s.len() as int, p, 29),
{
    let (m, p1) = spec_module(s, p, attrs);
    match m {
        Err(f) => (Err(f), p1),
        Ok(out) => {
            let def = Definition::Module(Box::new(out.def));
            match out.next {
                None => (Ok((Definitions::Cons(Box::new(def), Box::new(Definitions::Nil)), out.diags)), p1),
                Some(a) => if p1 <= p {
                    (Ok((Definitions::Cons(Box::new(def), Box::new(Definitions::Nil)), out.diags)), p1)
                } else {
                    let (rest, p2) = spec_file_def_modules(s, p1, *a);
                    match rest {
                        Err(f) => (Err(Failed { error: f.error, diags: diags_append(out.diags, f.diags) }), p2),
                        Ok((defs, d)) => (Ok((Definitions::Cons(Box::new(def), Box::new(defs)), diags_append(out.diags, d))), p2),
                    }
                },
            }
        },
    }
}

/// The modules of an address block, through its `}`: each after its
/// attributes (or those that recovery already read for it).
pub open spec fn spec_address_modules(s: Seq<Token>, p: int, pending: Option<Box<AttrGroups>>) -> (Result<(Modules, Diags), Failed>, int)
    decreases measure(s.len() as int, p, 29),
{
    let t = peek(s, p);
    if pending.is_none() && (t == Tok::RBrace || t == Tok::EOF) {
        (Ok((Modules::Nil, Diags::Nil)), p)
    } else {
        let (attrs, p1): (Result<AttrGroups, ParseError>, int) = match pending {
            Some(a) => (Ok(*a), p),
            None => spec_attributes(s, p),
        };
        match attrs {
            Err(e) => (Err(Failed { error: e, diags: Diags::Nil }), p1),
            Ok(attrs) => {
                let p1 = no_earlier(p1, p);
                let (m, p2) = spec_module(s, p1, attrs);
                match m {
                    Err(f) => (Err(f), p2),
                    Ok(out) => if p2 <= p {
                        (Ok((Modules::Cons(Box::new(out.def), Box::new(Modules::Nil)), out.diags)), p2)
                    } else {
                        let (rest, p3) = spec_address_modules(s, p2, out.next);
                        match rest {
                            Err(f) => (Err(Failed { error: f.error, diags: diags_append(out.diags, f.diags) }), p3),
                            Ok((ms, d)) => (Ok((Modules::Cons(Box::new(out.def), Box::new(ms)), diags_append(out.diags, d))), p3),
                        }
                    },
                }
            },
        }
    }
}

/// `AddressBlock = "address" <LeadingNameAccess> "{" (<Attributes> <Module>)* "}"`;
/// such a block is reported as deprecated after its modules.
pub open spec fn spec_address_block(s: Seq<Token>, p: int, attrs: AttrGroups) -> (Result<(Definition, Diags), Failed>, int)
    decreases measure(s.len() as int, p, 29),
{
    let t = peek(s, p);
    if !is_identifier(t) {
        (Err(Failed { error: unexpected(s, p, Expected::CodeUnit), diags: Diags::Nil }), p)
    } else if t != Tok::Address {
        (Err(Failed { error: unexpected(s, p, Expected::CodeUnit), diags: Diags::Nil }), adv(s, p))
    } else {
        let kw = span_at(s, p);
        let p1 = adv(s, p);
        let (addr, p2) = spec_leading_name(s, p1);
        match addr {
            Err(e) => (Err(Failed { error: e, diags: Diags::Nil }), p2),
            Ok(addr) => if peek(s, p2) != Tok::LBrace {
                (Err(Failed { error: unexpected(s, p2, Expected::Token(Tok::LBrace)), diags: Diags::Nil }), p2)
            } else {
                let p3 = adv(s, p2);
                let (ms, p4) = spec_address_modules(s, p3, None);
                match ms {
                    Err(f) => (Err(f), p4),
                    Ok((modules, d)) => {
                        let p4 = no_earlier(p4, p3);
                        let p5 = adv(s, p4);
                        (
                            Ok(
                                (
                                    Definition::Address(Box::new(AddressDefinition { attributes: attrs, start: addr.start, end: addr.end, addr, modules })),
                                    diags_append(d, Diags::Cons(Diag::DeprecatedAddressBlock(kw), Box::new(Diags::Nil))),
                                ),
                            ),
                            p5,
                        )
                    },
                }
            },
        }
    }
}

/// `FileDef = <Attributes> (<Module>+ | <AddressBlock>)`
pub open spec fn spec_file_def(s: Seq<Token>, p: int) -> (Result<(Definitions, Diags), Failed>, int)
    decreases measure(s.len() as int, p, 30),
{
    let (attrs, p1) = spec_attributes(s, p);
    match attrs {
        Err(e) => (Err(Failed { error: e, diags: Diags::Nil }), p1),
        Ok(attrs) => {
            let p1 = no_earlier(p1, p);
            let t = peek(s, p1);
            if t == Tok::Spec || t == Tok::Module {
                spec_file_def_modules(s, p1, attrs)
            } else {
                let (a, p2) = spec_address_block(s, p1, attrs);
                match a {
                    Err(f) => (Err(f), p2),
                    Ok((def, d)) => (Ok((Definitions::Cons(Box::new(def), Box::new(Definitions::Nil)), d)), p2),
                }
            }
        },
    }
}

/// `File = FileDef*`: a file definition that fails is reported, and parsing
/// resumes at the next `module` or `spec`.
pub open spec fn spec_file(s: Seq<Token>, p: int) -> (Result<(Definitions, Diags), ParseError>, int)
    decreases measure(s.len() as int, p, 31),
{
    if peek(s, p) == Tok::EOF {
        (Ok((Definitions::Nil, Diags::Nil)), p)
    } else {
        let (r, p1) = spec_file_def(s, p);
        match r {
            Ok((defs, d)) => if p1 <= p {
                (Ok((defs, d)), p1)
            } else {
                let (rest, p2) = spec_file(s, p1);
                match rest {
                    Err(e) => (Err(e), p2),
                    Ok((defs2, d2)) => (Ok((defs_append(defs, defs2), diags_append(d, d2))), p2),
                }
            },
            Err(f) => {
                let q = skip_to(s, p1, 1);
                let d = diags_append(f.diags, Diags::Cons(Diag::Syntax(f.error), Box::new(Diags::Nil)));
                if q <= p {
                    (Ok((Definitions::Nil, d)), q)
                } else {
                    let (rest, q1) = spec_file(s, q);
                    match rest {
                        Err(e) => (Err(e), q1),
                        Ok((defs2, d2)) => (Ok((defs2, diags_append(d, d2))), q1),
                    }
                }
            },
        }
    }
}

// ---------------------------------------------------------------------------
// The parser
// ---------------------------------------------------------------------------

fn peek_at(s: &Vec<Token>, p: usize) -> (r: Tok)
    ensures
        r == peek(s@, p as int),
{
    if s.len() > 0 && p < s.len() - 1 {
        s[p].tok
    } else {
        Tok::EOF
    }
}

fn adv_at(s: &Vec<Token>, p: usize) -> (r: usize)
    requires
        p < s@.len(),
    ensures
        r == adv(s@, p as int),
        p <= r < s@.len(),
        peek(s@, p as int) != Tok::EOF ==> r == p + 1,
{
    if s.len() > 0 && p < s.len() - 1 {
        p + 1
    } else {
        p
    }
}

fn start_at_exec(s: &Vec<Token>, p: usize) -> (r: usize)
    requires
        p < s@.len(),
    ensures
        r == start_at(s@, p as int),
{
    s[p].start
}

fn prev_end_exec(s: &Vec<Token>, p: usize) -> (r: usize)
    requires
        p < s@.len(),
    ensures
        r == prev_end(s@, p as int),
{
    if p >= 1 {
        s[p - 1].end
    } else {
        0
    }
}

fn span_at_exec(s: &Vec<Token>, p: usize) -> (r: Span)
    requires
        p < s@.len(),
    ensures
        r == span_at(s@, p as int),
{
    Span { start: s[p].start, end: s[p].end }
}

fn unexpected_exec(s: &Vec<Token>, p: usize, expected: Expected) -> (r: ParseError)
    requires
        p < s@.len(),
    ensures
        r == unexpected(s@, p as int, expected),
{
    ParseError { start: s[p].start, end: s[p].end, found: peek_at(s, p), expected }
}

fn precedence_exec(t: Tok) -> (r: u32)
    ensures
        r == precedence(t),
        r <= 13,
{
    match t {
        Tok::EqualEqualGreater | Tok::LessEqualEqualGreater => 2,
        Tok::PipePipe => 3,
        Tok::AmpAmp => 4,
        Tok::EqualEqual | Tok::ExclaimEqual | Tok::Less | Tok::Greater | Tok::LessEqual
        | Tok::GreaterEqual => 5,
        Tok::As => 6,
        Tok::PeriodPeriod => 7,
        Tok::Pipe => 8,
        Tok::Caret => 9,
        Tok::Amp => 10,
        Tok::LessLess | Tok::GreaterGreater => 11,
        Tok::Plus | Tok::Minus => 12,
        Tok::Star | Tok::Slash | Tok::Percent => 13,
        _ => 0,
    }
}

fn binop_of_exec(t: Tok) -> (r: BinOp)
    ensures
        r == binop_of(t),
{
    match t {
        Tok::EqualEqual => BinOp::Eq,
        Tok::ExclaimEqual => BinOp::Neq,
        Tok::Less => BinOp::Lt,
        Tok::Greater => BinOp::Gt,
        Tok::LessEqual => BinOp::Le,
        Tok::GreaterEqual => BinOp::Ge,
        Tok::PipePipe => BinOp::Or,
        Tok::AmpAmp => BinOp::And,
        Tok::Caret => BinOp::Xor,
        Tok::Pipe => BinOp::BitOr,
        Tok::Amp => BinOp::BitAnd,
        Tok::LessLess => BinOp::Shl,
        Tok::GreaterGreater => BinOp::Shr,
        Tok::Plus => BinOp::Add,
        Tok::Minus => BinOp::Sub,
        Tok::Star => BinOp::Mul,
        Tok::Slash => BinOp::Div,
        Tok::Percent => BinOp::Mod,
        Tok::PeriodPeriod => BinOp::Range,
        Tok::EqualEqualGreater => BinOp::Implies,
        _ => BinOp::Iff,
    }
}

fn is_control_exp_exec(t: Tok) -> (r: bool)
    ensures
        r == is_control_exp(t),
{
    matches!(
        t,
        Tok::Break | Tok::Continue | Tok::If | Tok::While | Tok::Loop | Tok::Return | Tok::Abort
            | Tok::BlockLabel
    )
}

fn at_end_of_exp_exec(t: Tok) -> (r: bool)
    ensures
        r == at_end_of_exp(t),
{
    matches!(t, Tok::Else | Tok::RBrace | Tok::RParen | Tok::Comma | Tok::Colon | Tok::Semicolon)
}

fn at_start_of_exp_exec(t: Tok) -> (r: bool)
    ensures
        r == at_start_of_exp(t),
{
    matches!(
        t,
        Tok::NumValue | Tok::NumTypedValue | Tok::ByteStringValue | Tok::AtSign | Tok::Identifier | Tok::Forall | Tok::Exists | Tok::Choose | Tok::Min | Tok::Where | Tok::In | Tok::Entry | Tok::Macro | Tok::Has | Tok::Phantom | Tok::Address | Tok::Drop | Tok::Store | Tok::Key | Tok::Package | Tok::Vector | Tok::Copy | Tok::Move | Tok::False
            | Tok::True | Tok::Amp | Tok::AmpMut | Tok::Star | Tok::Exclaim | Tok::LParen
            | Tok::LBrace | Tok::Abort | Tok::Break | Tok::Continue | Tok::If | Tok::Loop
            | Tok::Return | Tok::While | Tok::BlockLabel
    )
}

fn consume_exec(s: &Vec<Token>, p: usize, t: Tok) -> (r: Result<usize, ParseError>)
    requires
        p < s@.len(),
        t != Tok::EOF,
    ensures
        r matches Ok(q) ==> spec_consume(s@, p as int, t) == Ok::<int, ParseError>(q as int)
            && p < q < s@.len(),
        r matches Err(e) ==> spec_consume(s@, p as int, t) == Err::<int, ParseError>(e),
{
    if peek_at(s, p) == t {
        Ok(adv_at(s, p))
    } else {
        Err(unexpected_exec(s, p, Expected::Token(t)))
    }
}

fn opt_label_exec(s: &Vec<Token>, p: usize) -> (r: (Option<Span>, usize))
    requires
        p < s@.len(),
    ensures
        r.0 == opt_label(s@, p as int).0,
        r.1 == opt_label(s@, p as int).1,
        p <= r.1 < s@.len(),
{
    if peek_at(s, p) == Tok::BlockLabel {
        (Some(span_at_exec(s, p)), adv_at(s, p))
    } else {
        (None, p)
    }
}

fn is_identifier_exec(t: Tok) -> (r: bool)
    ensures
        r == is_identifier(t),
{
    matches!(t, Tok::Identifier | Tok::Forall | Tok::Exists | Tok::Choose | Tok::Min | Tok::Where | Tok::In | Tok::Entry | Tok::Macro | Tok::Has | Tok::Phantom | Tok::Address | Tok::Drop | Tok::Store | Tok::Key | Tok::Package | Tok::Vector)
}

/// The kind of the token `d` places after `p`.
fn peek_ahead(s: &Vec<Token>, p: usize, d: usize) -> (r: Tok)
    ensures
        r == peek(s@, p + d),
{
    if s.len() > 0 && d < s.len() - 1 && p < s.len() - 1 - d {
        s[p + d].tok
    } else {
        Tok::EOF
    }
}

fn is_quant_exec(s: &Vec<Token>, p: usize) -> (r: bool)
    ensures
        r == is_quant(s@, p as int),
{
    let t = peek_at(s, p);
    (t == Tok::Forall || t == Tok::Exists || t == Tok::Choose) && is_identifier_exec(
        peek_ahead(s, p, 1),
    ) && (peek_ahead(s, p, 2) == Tok::Colon || is_identifier_exec(peek_ahead(s, p, 2)))
}

fn tuple_type_exec(ts: TypeList) -> (r: Type_)
    ensures
        r == tuple_type(ts),
{
    let single = match &ts {
        TypeList::Cons(_, rest) => match &**rest {
            TypeList::Nil => true,
            _ => false,
        },
        TypeList::Nil => false,
    };
    if single {
        match ts {
            TypeList::Cons(t1, _) => {
                let t1 = *t1;
                t1.ty
            },
            TypeList::Nil => Type_::Unit,
        }
    } else {
        match ts {
            TypeList::Nil => Type_::Unit,
            other => Type_::Multiple(Box::new(other)),
        }
    }
}

fn quant_kind_exec(s: &Vec<Token>, p: usize) -> (r: (QuantKind, usize))
    requires
        p < s@.len(),
    ensures
        r.0 == quant_kind(s@, p as int).0,
        r.1 == quant_kind(s@, p as int).1,
        p <= r.1 < s@.len(),
{
    let t = peek_at(s, p);
    let p1 = adv_at(s, p);
    if t == Tok::Forall {
        (QuantKind::Forall, p1)
    } else if t == Tok::Exists {
        (QuantKind::Exists, p1)
    } else if peek_at(s, p1) == Tok::Min {
        (QuantKind::ChooseMin, adv_at(s, p1))
    } else {
        (QuantKind::Choose, p1)
    }
}

fn missing_item_exec(s: &Vec<Token>, p: usize) -> (r: ParseError)
    requires
        p < s@.len(),
    ensures
        r == missing_item(s@, p as int),
{
    let st = s[p].start;
    ParseError { start: st, end: st, found: peek_at(s, p), expected: Expected::ListItem }
}

fn empty_modifiers_exec() -> (r: Modifiers)
    ensures
        r == empty_modifiers(),
{
    Modifiers { visibility: None, entry: None, native: None, macro_: None }
}

fn ability_of_exec(t: Tok) -> (r: Option<Ability>)
    ensures
        r == ability_of(t),
{
    match t {
        Tok::Copy => Some(Ability::Copy),
        Tok::Drop => Some(Ability::Drop),
        Tok::Store => Some(Ability::Store),
        Tok::Key => Some(Ability::Key),
        _ => None,
    }
}

fn recovery_stop_exec(t: Tok, mode: u8) -> (r: bool)
    ensures
        r == recovery_stop(t, mode),
{
    if mode == 0 {
        matches!(
            t,
            Tok::Invariant | Tok::Spec | Tok::Friend | Tok::Public | Tok::Native | Tok::Const
                | Tok::Fun | Tok::Struct | Tok::Use | Tok::Module | Tok::NumSign | Tok::Entry
        )
    } else {
        matches!(t, Tok::Spec | Tok::Module)
    }
}

fn skip_to_exec(s: &Vec<Token>, p: usize, mode: u8) -> (r: usize)
    requires
        p < s@.len(),
    ensures
        r == skip_to(s@, p as int, mode),
        p <= r < s@.len(),
{
    let mut q = p;
    while !(peek_at(s, q) == Tok::EOF || recovery_stop_exec(peek_at(s, q), mode))
        invariant
            p <= q < s@.len(),
            skip_to(s@, q as int, mode) == skip_to(s@, p as int, mode),
        decreases s@.len() - q,
    {
        q = adv_at(s, q);
    }
    q
}

fn skip_to_lbrace_exec(s: &Vec<Token>, p: usize) -> (r: usize)
    requires
        p < s@.len(),
    ensures
        r == skip_to_lbrace(s@, p as int),
        p <= r < s@.len(),
{
    let mut q = p;
    while !(peek_at(s, q) == Tok::EOF || peek_at(s, q) == Tok::LBrace)
        invariant
            p <= q < s@.len(),
            skip_to_lbrace(s@, q as int) == skip_to_lbrace(s@, p as int),
        decreases s@.len() - q,
    {
        q = adv_at(s, q);
    }
    q
}

fn skip_braces_exec(s: &Vec<Token>, p: usize, depth: usize) -> (r: Option<usize>)
    requires
        p < s@.len(),
        depth == 1,
    ensures
        r matches Some(q) ==> skip_braces(s@, p as int, depth as nat) == Some(q as int) && p <= q < s@.len(),
        r is None ==> skip_braces(s@, p as int, depth as nat) is None,
{
    let mut q = p;
    let mut d: usize = depth;
    let n = s.len();
    while peek_at(s, q) != Tok::EOF
        invariant
            n == s@.len(),
            p <= q < s@.len(),
            1 <= d <= q - p + 1,
            skip_braces(s@, q as int, d as nat) == skip_braces(s@, p as int, depth as nat),
        decreases s@.len() - q,
    {
        let t = peek_at(s, q);
        let nd: usize = if t == Tok::LBrace {
            assert(q + 1 < s@.len());
            d + 1
        } else if t == Tok::RBrace {
            d - 1
        } else {
            d
        };
        if nd == 0 {
            return Some(adv_at(s, q));
        }
        d = nd;
        q = adv_at(s, q);
    }
    None
}

fn diags_append_exec(a: Diags, b: Diags) -> (r: Diags)
    ensures
        r == diags_append(a, b),
    decreases a,
{
    match a {
        Diags::Nil => b,
        Diags::Cons(d, rest) => Diags::Cons(d, Box::new(diags_append_exec(*rest, b))),
    }
}

fn defs_append_exec(a: Definitions, b: Definitions) -> (r: Definitions)
    ensures
        r == defs_append(a, b),
    decreases a,
{
    match a {
        Definitions::Nil => b,
        Definitions::Cons(d, rest) => Definitions::Cons(d, Box::new(defs_append_exec(*rest, b))),
    }
}

fn parse_exp_at(s: &Vec<Token>, p: usize) -> (r: (Result<Exp, ParseError>, usize))
    requires
        p < s@.len(),
    ensures
        r.0 == spec_exp(s@, p as int).0,
        r.1 == spec_exp(s@, p as int).1,
        p <= r.1 < s@.len(),
    decreases measure(s@.len() as int, p as int, 10),
{
    let t = peek_at(s, p);
    if t == Tok::PipePipe || t == Tok::Pipe {
        parse_lambda_at(s, p)
    } else if is_quant_exec(s, p) {
        parse_quant_at(s, p)
    } else {
        parse_assign_or_binop_at(s, p)
    }
}

fn parse_lambda_at(s: &Vec<Token>, p: usize) -> (r: (Result<Exp, ParseError>, usize))
    requires
        p < s@.len(),
    ensures
        r.0 == spec_lambda(s@, p as int).0,
        r.1 == spec_lambda(s@, p as int).1,
        p <= r.1 < s@.len(),
    decreases measure(s@.len() as int, p as int, 9),
{
    let t = peek_at(s, p);
    let p1 = adv_at(s, p);
    if t != Tok::PipePipe && t != Tok::Pipe {
        (Err(unexpected_exec(s, p, Expected::ExpressionTerm)), p)
    } else {
    let (binds, p2): (Result<Items, ParseError>, usize) = if t == Tok::PipePipe {
        (Ok(Items::Nil), p1)
    } else {
        parse_list_after_start_at(s, p1, Tok::Pipe, ListKind::LambdaBind)
    };
    match binds {
        Err(e) => (Err(e), p2),
        Ok(binds) => {
            let (r, p3): (Result<(Option<Box<Type>>, Exp), ParseError>, usize) = if peek_at(s, p2) == Tok::MinusGreater {
                let (ty, q) = parse_type_at(s, adv_at(s, p2), false);
                match ty {
                    Err(e) => (Err(e), q),
                    Ok(ty) => {
                        let (label, q1): (Result<Option<(usize, Span)>, ParseError>, usize) = if peek_at(s, q) == Tok::BlockLabel {
                            match consume_exec(s, adv_at(s, q), Tok::Colon) {
                                Err(e) => (Err(e), adv_at(s, q)),
                                Ok(q2) => (Ok(Some((start_at_exec(s, q), span_at_exec(s, q)))), q2),
                            }
                        } else {
                            (Ok(None), q)
                        };
                        match label {
                            Err(e) => (Err(e), q1),
                            Ok(label) => {
                                match consume_exec(s, q1, Tok::LBrace) {
                                    Err(e) => (Err(e), q1),
                                    Ok(q2) => {
                                        let (sq, q3) = parse_sequence_at(s, q2);
                                        match sq {
                                            Err(e) => (Err(e), q3),
                                            Ok(sq) => {
                                                let block = Exp {
                                                    start: start_at_exec(s, q1),
                                                    end: prev_end_exec(s, q3),
                                                    exp: Exp_::Block(Box::new(sq)),
                                                };
                                                let body = match label {
                                                    Some((ls, l)) => Exp {
                                                        start: ls,
                                                        end: prev_end_exec(s, q3),
                                                        exp: Exp_::Labeled(l, Box::new(block)),
                                                    },
                                                    None => block,
                                                };
                                                (Ok((Some(Box::new(ty)), body)), q3)
                                            },
                                        }
                                    },
                                }
                            },
                        }
                    },
                }
            } else {
                let (e, q) = parse_exp_at(s, p2);
                match e {
                    Err(err) => (Err(err), q),
                    Ok(e) => (Ok((None, e)), q),
                }
            };
            match r {
                Err(e) => (Err(e), p3),
                Ok((ret, body)) => (
                    Ok(
                        Exp {
                            start: start_at_exec(s, p),
                            end: prev_end_exec(s, p3),
                            exp: Exp_::Lambda(Box::new(binds), ret, Box::new(body)),
                        },
                    ),
                    p3,
                ),
            }
        },
    }
    }
}

fn parse_assign_or_binop_at(s: &Vec<Token>, p: usize) -> (r: (Result<Exp, ParseError>, usize))
    requires
        p < s@.len(),
    ensures
        r.0 == spec_assign_or_binop(s@, p as int).0,
        r.1 == spec_assign_or_binop(s@, p as int).1,
        p <= r.1 < s@.len(),
    decreases measure(s@.len() as int, p as int, 8),
{
    let (lhs, p1) = parse_unary_at(s, p);
    match lhs {
        Err(e) => (Err(e), p1),
        Ok(l) => {
            if peek_at(s, p1) == Tok::Equal {
                let (rhs, p3) = parse_exp_at(s, adv_at(s, p1));
                match rhs {
                    Err(e) => (Err(e), p3),
                    Ok(r) => (
                        Ok(
                            Exp {
                                start: start_at_exec(s, p),
                                end: prev_end_exec(s, p3),
                                exp: Exp_::Assign(Box::new(l), Box::new(r)),
                            },
                        ),
                        p3,
                    ),
                }
            } else {
                parse_binop_at(s, p1, l, 1)
            }
        },
    }
}

fn parse_binop_at(s: &Vec<Token>, p: usize, lhs: Exp, min_prec: u32) -> (r: (Result<Exp, ParseError>, usize))
    requires
        p < s@.len(),
    ensures
        r.0 == spec_binop(s@, p as int, lhs, min_prec).0,
        r.1 == spec_binop(s@, p as int, lhs, min_prec).1,
        p <= r.1 < s@.len(),
    decreases measure(s@.len() as int, p as int, 7),
{
    let op_tok = peek_at(s, p);
    let prec = precedence_exec(op_tok);
    if prec >= min_prec && prec > 0 {
        let p1 = adv_at(s, p);
        if op_tok == Tok::As {
            let (ty, p2) = parse_type_at(s, p1, true);
            match ty {
                Err(e) => (Err(e), p2),
                Ok(ty) => {
                    let e = Exp {
                        start: lhs.start,
                        end: prev_end_exec(s, p2),
                        exp: Exp_::Cast(Box::new(lhs), Box::new(ty)),
                    };
                    parse_binop_at(s, p2, e, min_prec)
                },
            }
        } else {
            let (rhs, p2) = parse_unary_at(s, p1);
            match rhs {
                Err(e) => (Err(e), p2),
                Ok(r) => {
                    let (rhs2, p3) = if prec < precedence_exec(peek_at(s, p2)) {
                        parse_binop_at(s, p2, r, prec + 1)
                    } else {
                        (Ok(r), p2)
                    };
                    match rhs2 {
                        Err(e) => (Err(e), p3),
                        Ok(r2) => {
                            let e = Exp {
                                start: lhs.start,
                                end: prev_end_exec(s, p3),
                                exp: Exp_::BinopExp(Box::new(lhs), binop_of_exec(op_tok), Box::new(r2)),
                            };
                            parse_binop_at(s, p3, e, min_prec)
                        },
                    }
                },
            }
        }
    } else {
        (Ok(lhs), p)
    }
}

fn parse_unary_at(s: &Vec<Token>, p: usize) -> (r: (Result<Exp, ParseError>, usize))
    requires
        p < s@.len(),
    ensures
        r.0 == spec_unary(s@, p as int).0,
        r.1 == spec_unary(s@, p as int).1,
        p <= r.1 < s@.len(),
    decreases measure(s@.len() as int, p as int, 6),
{
    let t = peek_at(s, p);
    if t == Tok::Exclaim || t == Tok::AmpMut || t == Tok::Amp || t == Tok::Star || t == Tok::Move
        || t == Tok::Copy {
        let p1 = adv_at(s, p);
        let is_mut = t == Tok::Amp && peek_at(s, p1) == Tok::Mut;
        let p1 = if is_mut {
            adv_at(s, p1)
        } else {
            p1
        };
        let (e, p2) = parse_unary_at(s, p1);
        match e {
            Err(err) => (Err(err), p2),
            Ok(e) => {
                let b = Box::new(e);
                let form = if t == Tok::Exclaim {
                    Exp_::Not(b)
                } else if t == Tok::AmpMut {
                    Exp_::Borrow(true, b)
                } else if t == Tok::Amp {
                    Exp_::Borrow(is_mut, b)
                } else if t == Tok::Star {
                    Exp_::Dereference(b)
                } else if t == Tok::Move {
                    Exp_::Move(b)
                } else {
                    Exp_::Copy(b)
                };
                (Ok(Exp { start: start_at_exec(s, p), end: prev_end_exec(s, p2), exp: form }), p2)
            },
        }
    } else {
        parse_dot_chain_at(s, p)
    }
}

fn parse_dot_chain_at(s: &Vec<Token>, p: usize) -> (r: (Result<Exp, ParseError>, usize))
    requires
        p < s@.len(),
    ensures
        r.0 == spec_dot_chain(s@, p as int).0,
        r.1 == spec_dot_chain(s@, p as int).1,
        p <= r.1 < s@.len(),
    decreases measure(s@.len() as int, p as int, 5),
{
    let (lhs, p1) = parse_term_at(s, p);
    match lhs {
        Err(e) => (Err(e), p1),
        Ok(lhs) => parse_dot_rest_at(s, p1, lhs, start_at_exec(s, p)),
    }
}

fn parse_dot_rest_at(s: &Vec<Token>, p: usize, lhs: Exp, start: usize) -> (r: (Result<Exp, ParseError>, usize))
    requires
        p < s@.len(),
    ensures
        r.0 == spec_dot_rest(s@, p as int, lhs, start).0,
        r.1 == spec_dot_rest(s@, p as int, lhs, start).1,
        p <= r.1 < s@.len(),
    decreases measure(s@.len() as int, p as int, 4),
{
    let t = peek_at(s, p);
    if t == Tok::Period {
        let p1 = adv_at(s, p);
        let t1 = peek_at(s, p1);
        let (form, p2): (Result<Exp_, ParseError>, usize) = if t1 == Tok::NumValue || t1
            == Tok::NumTypedValue {
            (Ok(Exp_::Dot(Box::new(lhs), span_at_exec(s, p1))), adv_at(s, p1))
        } else if !is_identifier_exec(t1) {
            (Err(unexpected_exec(s, p1, Expected::Identifier)), p1)
        } else {
            let n = span_at_exec(s, p1);
            let q = adv_at(s, p1);
            let tq = peek_at(s, q);
            if (tq == Tok::Less && n.end == start_at_exec(s, q)) || tq == Tok::LParen || tq
                == Tok::Exclaim {
                let is_macro = tq == Tok::Exclaim;
                let q1 = if is_macro {
                    adv_at(s, q)
                } else {
                    q
                };
                let (tys, q2): (Result<Option<Box<TypeList>>, ParseError>, usize) = if peek_at(s, q1) == Tok::Less && n.end == start_at_exec(s, q) {
                    let (ts, q3) = parse_type_list_after_at(s, adv_at(s, q1), Tok::Greater);
                    match ts {
                        Err(e) => (Err(e), q3),
                        Ok(ts) => (Ok(Some(Box::new(ts))), q3),
                    }
                } else {
                    (Ok(None), q1)
                };
                match tys {
                    Err(e) => (Err(e), q2),
                    Ok(tys) => {
                        match consume_exec(s, q2, Tok::LParen) {
                            Err(e) => (Err(e), q2),
                            Ok(q3) => {
                                let (args, q4) = parse_exp_list_after_at(s, q3, Tok::RParen);
                                match args {
                                    Err(e) => (Err(e), q4),
                                    Ok(args) => (
                                        Ok(
                                            Exp_::DotCall(
                                                Box::new(lhs),
                                                n,
                                                is_macro,
                                                tys,
                                                Box::new(args),
                                            ),
                                        ),
                                        q4,
                                    ),
                                }
                            },
                        }
                    },
                }
            } else {
                (Ok(Exp_::Dot(Box::new(lhs), n)), q)
            }
        };
        match form {
            Err(e) => (Err(e), p2),
            Ok(form) => {
                parse_dot_rest_at(s, p2, Exp { start, end: prev_end_exec(s, p2), exp: form }, start)
            },
        }
    } else if t == Tok::LBracket {
        let p1 = adv_at(s, p);
        let (args, p2) = parse_exp_list_after_at(s, p1, Tok::RBracket);
        match args {
            Err(e) => (Err(e), p2),
            Ok(args) => {
                parse_dot_rest_at(s, p2,
                    Exp {
                        start,
                        end: prev_end_exec(s, p2),
                        exp: Exp_::Index(Box::new(lhs), Box::new(args)),
                    },
                    start,
                )
            },
        }
    } else {
        (Ok(lhs), p)
    }
}

#[verifier::rlimit(60)]
fn parse_term_at(s: &Vec<Token>, p: usize) -> (r: (Result<Exp, ParseError>, usize))
    requires
        p < s@.len(),
    ensures
        r.0 == spec_term(s@, p as int).0,
        r.1 == spec_term(s@, p as int).1,
        p <= r.1 < s@.len(),
    decreases measure(s@.len() as int, p as int, 3),
{
    let t = peek_at(s, p);
    if is_control_exp_exec(t) {
        let (r, p1) = parse_control_at(s, p);
        match r {
            Err(e) => (Err(e), p1),
            Ok((ce, ends_in_block)) => if !ends_in_block || at_end_of_exp_exec(peek_at(s, p1)) {
                (Ok(ce), p1)
            } else {
                parse_binop_at(s, p1, ce, 1)
            },
        }
    } else if t == Tok::Vector && (peek_ahead(s, p, 1) == Tok::Less || peek_ahead(s, p, 1) == Tok::LBracket) {
        let vec_span = span_at_exec(s, p);
        let p1 = adv_at(s, p);
        let (tys, p2): (Result<Option<Box<TypeList>>, ParseError>, usize) = if peek_at(s, p1) == Tok::Less {
            let (ts, q) = parse_type_list_after_at(s, adv_at(s, p1), Tok::Greater);
            match ts {
                Err(e) => (Err(e), q),
                Ok(ts) => (Ok(Some(Box::new(ts))), q),
            }
        } else {
            (Ok(None), p1)
        };
        match tys {
            Err(e) => (Err(e), p2),
            Ok(tys) => {
                match consume_exec(s, p2, Tok::LBracket) {
                    Err(e) => (Err(e), p2),
                    Ok(p3) => {
                        let (args, p4) = parse_exp_list_after_at(s, p3, Tok::RBracket);
                        match args {
                            Err(e) => (Err(e), p4),
                            Ok(args) => (
                                Ok(
                                    Exp {
                                        start: start_at_exec(s, p),
                                        end: prev_end_exec(s, p4),
                                        exp: Exp_::Vector(vec_span, tys, Box::new(args)),
                                    },
                                ),
                                p4,
                            ),
                        }
                    },
                }
            },
        }
    } else if t == Tok::ColonColon && !is_identifier_exec(peek_ahead(s, p, 1)) {
        (Err(unexpected_exec(s, p, Expected::Identifier)), p)
    } else if t == Tok::ColonColon || is_identifier_exec(t) || (t == Tok::NumValue && peek_ahead(s, p, 1) == Tok::ColonColon) {
        parse_name_exp_at(s, p)
    } else if t == Tok::NumValue || t == Tok::AtSign || t == Tok::True || t == Tok::False || t == Tok::NumTypedValue || t == Tok::ByteStringValue {
        let (v, p1) = parse_value_at(s, p);
        match v {
            Err(e) => (Err(e), p1),
            Ok(Some(v)) => (Ok(Exp { start: start_at_exec(s, p), end: prev_end_exec(s, p1), exp: Exp_::Value(v) }), p1),
            Ok(None) => (Err(unexpected_exec(s, p, Expected::ExpressionTerm)), p1),
        }
    } else if t == Tok::Spec {
        let (sp, p1) = parse_spec_block_at(s, p);
        match sp {
            Err(e) => (Err(e), p1),
            Ok(sp) => (Ok(Exp { start: start_at_exec(s, p), end: prev_end_exec(s, p1), exp: Exp_::Spec(sp) }), p1),
        }
    } else {
        let (form, p_end): (Result<Exp_, ParseError>, usize) = match t {
            Tok::LParen => {
                let p1 = adv_at(s, p);
                if peek_at(s, p1) == Tok::RParen {
                    (Ok(Exp_::Unit), adv_at(s, p1))
                } else {
                    let (e, p2) = parse_exp_at(s, p1);
                    match e {
                        Err(err) => (Err(err), p2),
                        Ok(e) => {
                            if peek_at(s, p2) == Tok::Colon {
                                let (ty, q) = parse_type_at(s, adv_at(s, p2), false);
                                match ty {
                                    Err(err) => (Err(err), q),
                                    Ok(ty) => {
                                        match consume_exec(s, q, Tok::RParen) {
                                            Err(err) => (Err(err), q),
                                            Ok(q1) => (Ok(Exp_::Annotate(Box::new(e), Box::new(ty))), q1),
                                        }
                                    },
                                }
                            } else if peek_at(s, p2) == Tok::RParen {
                                (Ok(Exp_::Parens(Box::new(e))), adv_at(s, p2))
                            } else if peek_at(s, p2) != Tok::Comma {
                                (Err(unexpected_exec(s, p2, Expected::Token(Tok::Comma))), p2)
                            } else {
                                let p3 = adv_at(s, p2);
                                if peek_at(s, p3) == Tok::RParen {
                                    (Ok(Exp_::Parens(Box::new(e))), adv_at(s, p3))
                                } else {
                                    let (rest, p4) = parse_exp_items_at(s, p3, Tok::RParen);
                                    match rest {
                                        Err(err) => (Err(err), p4),
                                        Ok(rest) => (Ok(Exp_::ExpList(Box::new(ExpList::Cons(Box::new(e), Box::new(rest))))), p4),
                                    }
                                }
                            }
                        },
                    }
                }
            },
            Tok::LBrace => {
                let (sq, p2) = parse_sequence_at(s, adv_at(s, p));
                match sq {
                    Err(err) => (Err(err), p2),
                    Ok(sq) => (Ok(Exp_::Block(Box::new(sq))), p2),
                }
            },
            _ => (Err(unexpected_exec(s, p, Expected::ExpressionTerm)), p),
        };
        match form {
            Err(e) => (Err(e), p_end),
            Ok(form) => (Ok(Exp { start: start_at_exec(s, p), end: prev_end_exec(s, p_end), exp: form }), p_end),
        }
    }
}

fn parse_name_exp_at(s: &Vec<Token>, p: usize) -> (r: (Result<Exp, ParseError>, usize))
    requires
        p < s@.len(),
    ensures
        r.0 == spec_name_exp(s@, p as int).0,
        r.1 == spec_name_exp(s@, p as int).1,
        p <= r.1 < s@.len(),
    decreases measure(s@.len() as int, p as int, 2),
{
    let (name, p1) = parse_name_chain_at(s, p);
    match name {
        Err(e) => (Err(e), p1),
        Ok(name) => {
            let is_macro = peek_at(s, p1) == Tok::Exclaim;
            let p2 = if is_macro {
                adv_at(s, p1)
            } else {
                p1
            };
            let (tys, p3): (Result<Option<Box<TypeList>>, ParseError>, usize) = if peek_at(s, p2) == Tok::Less && (name.end == start_at_exec(s, p2) || is_macro) {
                let (ts, q) = parse_type_list_after_at(s, adv_at(s, p2), Tok::Greater);
                match ts {
                    Err(e) => (Err(e), q),
                    Ok(ts) => (Ok(Some(Box::new(ts))), q),
                }
            } else {
                (Ok(None), p2)
            };
            match tys {
                Err(e) => (Err(e), p3),
                Ok(tys) => {
                    let (form, p4): (Result<Exp_, ParseError>, usize) = if is_macro || peek_at(s, p3) == Tok::LParen {
                        match consume_exec(s, p3, Tok::LParen) {
                            Err(e) => (Err(e), p3),
                            Ok(q) => {
                                let (args, q1) = parse_exp_list_after_at(s, q, Tok::RParen);
                                match args {
                                    Err(e) => (Err(e), q1),
                                    Ok(args) => (Ok(Exp_::Call(name, is_macro, tys, Box::new(args))), q1),
                                }
                            },
                        }
                    } else if peek_at(s, p3) == Tok::LBrace {
                        let (fs, q1) = parse_list_after_start_at(s, adv_at(s, p3), Tok::RBrace, ListKind::ExpField);
                        match fs {
                            Err(e) => (Err(e), q1),
                            Ok(fs) => (Ok(Exp_::Pack(name, tys, Box::new(fs))), q1),
                        }
                    } else {
                        (Ok(Exp_::Name(name, tys)), p3)
                    };
                    match form {
                        Err(e) => (Err(e), p4),
                        Ok(form) => (Ok(Exp { start: start_at_exec(s, p), end: prev_end_exec(s, p4), exp: form }), p4),
                    }
                },
            }
        },
    }
}

fn parse_value_at(s: &Vec<Token>, p: usize) -> (r: (Result<Option<ParsedValue>, ParseError>, usize))
    requires
        p < s@.len(),
    ensures
        r.0 == spec_value(s@, p as int).0,
        r.1 == spec_value(s@, p as int).1,
        p <= r.1 < s@.len(),
{
    let t = peek_at(s, p);
    if t == Tok::AtSign {
        let (a, p1) = parse_leading_name_at(s, adv_at(s, p));
        match a {
            Err(e) => (Err(e), p1),
            Ok(a) => (Ok(Some(ParsedValue::Address(a))), p1),
        }
    } else if t == Tok::True {
        (Ok(Some(ParsedValue::Bool(true))), adv_at(s, p))
    } else if t == Tok::False {
        (Ok(Some(ParsedValue::Bool(false))), adv_at(s, p))
    } else if t == Tok::NumValue {
        if peek_ahead(s, p, 1) == Tok::ColonColon {
            (Ok(None), p)
        } else {
            (Ok(Some(ParsedValue::Num(span_at_exec(s, p)))), adv_at(s, p))
        }
    } else if t == Tok::NumTypedValue {
        (Ok(Some(ParsedValue::TypedNum(span_at_exec(s, p)))), adv_at(s, p))
    } else if t == Tok::ByteStringValue {
        (Ok(Some(ParsedValue::ByteString(span_at_exec(s, p)))), adv_at(s, p))
    } else {
        (Ok(None), p)
    }
}

fn parse_leading_name_at(s: &Vec<Token>, p: usize) -> (r: (Result<Span, ParseError>, usize))
    requires
        p < s@.len(),
    ensures
        r.0 == spec_leading_name(s@, p as int).0,
        r.1 == spec_leading_name(s@, p as int).1,
        p <= r.1 < s@.len(),
{
    let t = peek_at(s, p);
    if is_identifier_exec(t) || t == Tok::NumValue {
        (Ok(span_at_exec(s, p)), adv_at(s, p))
    } else {
        (Err(unexpected_exec(s, p, Expected::AddressOrIdentifier)), p)
    }
}

fn parse_identifier_at(s: &Vec<Token>, p: usize) -> (r: (Result<Span, ParseError>, usize))
    requires
        p < s@.len(),
    ensures
        r.0 == spec_identifier(s@, p as int).0,
        r.1 == spec_identifier(s@, p as int).1,
        p <= r.1 < s@.len(),
{
    if is_identifier_exec(peek_at(s, p)) {
        (Ok(span_at_exec(s, p)), adv_at(s, p))
    } else {
        (Err(unexpected_exec(s, p, Expected::Identifier)), p)
    }
}

fn parse_name_chain_at(s: &Vec<Token>, p: usize) -> (r: (Result<Span, ParseError>, usize))
    requires
        p < s@.len(),
    ensures
        r.0 == spec_name_chain(s@, p as int).0,
        r.1 == spec_name_chain(s@, p as int).1,
        p <= r.1 < s@.len(),
{
    let global = peek_at(s, p) == Tok::ColonColon;
    let p0 = if global {
        adv_at(s, p)
    } else {
        p
    };
    let t = peek_at(s, p0);
    let (ln, p1) = parse_leading_name_at(s, p0);
    match ln {
        Err(e) => (Err(e), p1),
        Ok(_) => if peek_at(s, p1) != Tok::ColonColon {
            if t == Tok::NumValue || global {
                (Err(unexpected_exec(s, p1, Expected::Token(Tok::ColonColon))), p1)
            } else {
                (Ok(Span { start: start_at_exec(s, p), end: prev_end_exec(s, p1) }), p1)
            }
        } else {
            let (n2, p2) = parse_identifier_at(s, adv_at(s, p1));
            match n2 {
                Err(e) => (Err(e), p2),
                Ok(_) => if peek_at(s, p2) != Tok::ColonColon {
                    (Ok(Span { start: start_at_exec(s, p), end: prev_end_exec(s, p2) }), p2)
                } else {
                    let (n3, p3) = parse_identifier_at(s, adv_at(s, p2));
                    match n3 {
                        Err(e) => (Err(e), p3),
                        Ok(_) => (Ok(Span { start: start_at_exec(s, p), end: prev_end_exec(s, p3) }), p3),
                    }
                },
            }
        },
    }
}

fn parse_spec_block_at(s: &Vec<Token>, p: usize) -> (r: (Result<Span, ParseError>, usize))
    requires
        p < s@.len(),
    ensures
        r.0 == spec_spec_block(s@, p as int).0,
        r.1 == spec_spec_block(s@, p as int).1,
        p <= r.1 < s@.len(),
{
    let q = skip_to_lbrace_exec(s, p);
    if peek_at(s, q) != Tok::LBrace {
        (Err(unexpected_exec(s, q, Expected::SpecBlock)), q)
    } else {
        match skip_braces_exec(s, adv_at(s, q), 1) {
            None => (Err(unexpected_exec(s, s.len() - 1, Expected::Token(Tok::RBrace))), s.len() - 1),
            Some(e) => (Ok(Span { start: start_at_exec(s, p), end: prev_end_exec(s, e) }), e),
        }
    }
}

fn parse_exp_items_at(s: &Vec<Token>, p: usize, close: Tok) -> (r: (Result<ExpList, ParseError>, usize))
    requires
        p < s@.len(),
    ensures
        r.0 == spec_exp_items(s@, p as int, close).0,
        r.1 == spec_exp_items(s@, p as int, close).1,
        p <= r.1 < s@.len(),
    decreases measure(s@.len() as int, p as int, 11),
{
    if peek_at(s, p) == Tok::Comma {
        (Err(missing_item_exec(s, p)), p)
    } else {
        let (e, p1) = parse_exp_at(s, p);
        match e {
            Err(err) => (Err(err), p1),
            Ok(e) => {
                if peek_at(s, p1) == close {
                    (Ok(ExpList::Cons(Box::new(e), Box::new(ExpList::Nil))), adv_at(s, p1))
                } else if peek_at(s, p1) != Tok::Comma {
                    (Err(unexpected_exec(s, p1, Expected::Token(close))), p1)
                } else {
                    let p2 = adv_at(s, p1);
                    if peek_at(s, p2) == close {
                        (Ok(ExpList::Cons(Box::new(e), Box::new(ExpList::Nil))), adv_at(s, p2))
                    } else {
                        let (rest, p3) = parse_exp_items_at(s, p2, close);
                        match rest {
                            Err(err) => (Err(err), p3),
                            Ok(rest) => (Ok(ExpList::Cons(Box::new(e), Box::new(rest))), p3),
                        }
                    }
                }
            },
        }
    }
}

fn parse_exp_or_sequence_at(s: &Vec<Token>, p: usize) -> (r: (Result<(Exp, bool), ParseError>, usize))
    requires
        p < s@.len(),
    ensures
        r.0 == spec_exp_or_sequence(s@, p as int).0,
        r.1 == spec_exp_or_sequence(s@, p as int).1,
        p <= r.1 < s@.len(),
    decreases measure(s@.len() as int, p as int, 14),
{
    let t = peek_at(s, p);
    if t == Tok::LBrace {
        let (sq, p2) = parse_sequence_at(s, adv_at(s, p));
        match sq {
            Err(e) => (Err(e), p2),
            Ok(sq) => (
                Ok(
                    (
                        Exp {
                            start: start_at_exec(s, p),
                            end: prev_end_exec(s, p2),
                            exp: Exp_::Block(Box::new(sq)),
                        },
                        true,
                    ),
                ),
                p2,
            ),
        }
    } else if t == Tok::BlockLabel {
        let label = span_at_exec(s, p);
        match consume_exec(s, adv_at(s, p), Tok::Colon) {
            Err(e) => (Err(e), adv_at(s, p)),
            Ok(p2) => {
                let (r, p3) = parse_exp_or_sequence_at(s, p2);
                match r {
                    Err(e) => (Err(e), p3),
                    Ok((e, eib)) => (
                        Ok(
                            (
                                Exp {
                                    start: start_at_exec(s, p),
                                    end: prev_end_exec(s, p3),
                                    exp: Exp_::Labeled(label, Box::new(e)),
                                },
                                eib,
                            ),
                        ),
                        p3,
                    ),
                }
            },
        }
    } else {
        let (e, p1) = parse_exp_at(s, p);
        match e {
            Err(err) => (Err(err), p1),
            Ok(e) => (Ok((e, false)), p1),
        }
    }
}

fn parse_control_at(s: &Vec<Token>, p: usize) -> (r: (Result<(Exp, bool), ParseError>, usize))
    requires
        p < s@.len(),
        is_control_exp(peek(s@, p as int)),
    ensures
        p < r.1,
        r.0 == spec_control(s@, p as int).0,
        r.1 == spec_control(s@, p as int).1,
        p <= r.1 < s@.len(),
    decreases measure(s@.len() as int, p as int, 1),
{
    let t = peek_at(s, p);
    let p1 = adv_at(s, p);
    let (r, pe): (Result<(Exp_, bool), ParseError>, usize) = if t == Tok::If || t == Tok::While {
        match consume_exec(s, p1, Tok::LParen) {
            Err(e) => (Err(e), p1),
            Ok(p2) => {
                let (c, p3) = parse_exp_at(s, p2);
                match c {
                    Err(e) => (Err(e), p3),
                    Ok(c) => {
                        match consume_exec(s, p3, Tok::RParen) {
                            Err(e) => (Err(e), p3),
                            Ok(p4) => {
                                let (body, p5) = parse_exp_or_sequence_at(s, p4);
                                match body {
                                    Err(e) => (Err(e), p5),
                                    Ok((body, eib)) => if t == Tok::While {
                                        (Ok((Exp_::While(Box::new(c), Box::new(body)), eib)), p5)
                                    } else {
                                        if peek_at(s, p5) == Tok::Else {
                                            let (f, p6) = parse_exp_or_sequence_at(s, adv_at(s, p5));
                                            match f {
                                                Err(e) => (Err(e), p6),
                                                Ok((f, eib2)) => (
                                                    Ok(
                                                        (
                                                            Exp_::IfElse(
                                                                Box::new(c),
                                                                Box::new(body),
                                                                Some(Box::new(f)),
                                                            ),
                                                            eib2,
                                                        ),
                                                    ),
                                                    p6,
                                                ),
                                            }
                                        } else {
                                            (
                                                Ok(
                                                    (
                                                        Exp_::IfElse(
                                                            Box::new(c),
                                                            Box::new(body),
                                                            None,
                                                        ),
                                                        eib,
                                                    ),
                                                ),
                                                p5,
                                            )
                                        }
                                    },
                                }
                            },
                        }
                    },
                }
            },
        }
    } else if t == Tok::Loop || t == Tok::Abort {
        let (body, p2) = parse_exp_or_sequence_at(s, p1);
        match body {
            Err(e) => (Err(e), p2),
            Ok((body, eib)) => (
                Ok(
                    (
                        if t == Tok::Loop {
                            Exp_::Loop(Box::new(body))
                        } else {
                            Exp_::Abort(Box::new(body))
                        },
                        eib,
                    ),
                ),
                p2,
            ),
        }
    } else if t == Tok::Return || t == Tok::Break {
        let (label, p2) = opt_label_exec(s, p1);
        if !at_start_of_exp_exec(peek_at(s, p2)) {
            (
                Ok(
                    (
                        if t == Tok::Return {
                            Exp_::Return(label, None)
                        } else {
                            Exp_::Break(label, None)
                        },
                        false,
                    ),
                ),
                p2,
            )
        } else {
            let (e, p3) = parse_exp_or_sequence_at(s, p2);
            match e {
                Err(err) => (Err(err), p3),
                Ok((e, eib)) => (
                    Ok(
                        (
                            if t == Tok::Return {
                                Exp_::Return(label, Some(Box::new(e)))
                            } else {
                                Exp_::Break(label, Some(Box::new(e)))
                            },
                            eib,
                        ),
                    ),
                    p3,
                ),
            }
        }
    } else if t == Tok::Continue {
        let (label, p2) = opt_label_exec(s, p1);
        (Ok((Exp_::Continue(label), false)), p2)
    } else {
        // a block label
        let label = span_at_exec(s, p);
        match consume_exec(s, p1, Tok::Colon) {
            Err(e) => (Err(e), p1),
            Ok(p2) => {
                let (e, p3) = if is_control_exp_exec(peek_at(s, p2)) {
                    parse_control_at(s, p2)
                } else {
                    parse_exp_or_sequence_at(s, p2)
                };
                match e {
                    Err(err) => (Err(err), p3),
                    Ok((e, eib)) => (Ok((Exp_::Labeled(label, Box::new(e)), eib)), p3),
                }
            },
        }
    };
    match r {
        Err(e) => (Err(e), pe),
        Ok((form, eib)) => (
            Ok((Exp { start: start_at_exec(s, p), end: prev_end_exec(s, pe), exp: form }, eib)),
            pe,
        ),
    }
}

fn parse_quant_binding_at(s: &Vec<Token>, p: usize) -> (r: (Result<QuantBinding, ParseError>, usize))
    requires
        p < s@.len(),
    ensures
        r.0 == spec_quant_binding(s@, p as int).0,
        r.1 == spec_quant_binding(s@, p as int).1,
        p <= r.1 < s@.len(),
    decreases measure(s@.len() as int, p as int, 2),
{
    if !is_identifier_exec(peek_at(s, p)) {
        (Err(unexpected_exec(s, p, Expected::Identifier)), p)
    } else {
        let var = span_at_exec(s, p);
        let p1 = adv_at(s, p);
        let (range, p2): (Result<QuantRange, ParseError>, usize) = if peek_at(s, p1) == Tok::Colon {
            let (ty, q) = parse_type_at(s, adv_at(s, p1), false);
            match ty {
                Err(e) => (Err(e), q),
                Ok(ty) => (Ok(QuantRange::Domain(Box::new(ty))), q),
            }
        } else if peek_at(s, p1) != Tok::In {
            (Err(unexpected_exec(s, p1, Expected::Token(Tok::In))), p1)
        } else {
            let (e, q) = parse_exp_at(s, adv_at(s, p1));
            match e {
                Err(err) => (Err(err), q),
                Ok(e) => (Ok(QuantRange::In(Box::new(e))), q),
            }
        };
        match range {
            Err(e) => (Err(e), p2),
            Ok(range) => (
                Ok(QuantBinding { start: start_at_exec(s, p), end: prev_end_exec(s, p2), var, range }),
                p2,
            ),
        }
    }
}

fn parse_quant_bindings_at(s: &Vec<Token>, p: usize) -> (r: (Result<QuantBindings, ParseError>, usize))
    requires
        p < s@.len(),
    ensures
        r.0 == spec_quant_bindings(s@, p as int).0,
        r.1 == spec_quant_bindings(s@, p as int).1,
        p <= r.1 < s@.len(),
    decreases measure(s@.len() as int, p as int, 3),
{
    let (b, p1) = parse_quant_binding_at(s, p);
    match b {
        Err(e) => (Err(e), p1),
        Ok(b) => {
            if peek_at(s, p1) == Tok::Comma {
                let (rest, p2) = parse_quant_bindings_at(s, adv_at(s, p1));
                match rest {
                    Err(e) => (Err(e), p2),
                    Ok(rest) => (Ok(QuantBindings::Cons(Box::new(b), Box::new(rest))), p2),
                }
            } else {
                (Ok(QuantBindings::Cons(Box::new(b), Box::new(QuantBindings::Nil))), p1)
            }
        },
    }
}

fn parse_triggers_at(s: &Vec<Token>, p: usize) -> (r: (Result<Triggers, ParseError>, usize))
    requires
        p < s@.len(),
    ensures
        r.0 == spec_triggers(s@, p as int).0,
        r.1 == spec_triggers(s@, p as int).1,
        p <= r.1 < s@.len(),
    decreases measure(s@.len() as int, p as int, 1),
{
    if peek_at(s, p) == Tok::LBrace {
        let p1 = adv_at(s, p);
        let (items, p2): (Result<ExpList, ParseError>, usize) = if peek_at(s, p1) == Tok::RBrace {
            (Ok(ExpList::Nil), adv_at(s, p1))
        } else {
            parse_exp_items_at(s, p1, Tok::RBrace)
        };
        match items {
            Err(e) => (Err(e), p2),
            Ok(items) => {
                let (rest, p3) = parse_triggers_at(s, p2);
                match rest {
                    Err(e) => (Err(e), p3),
                    Ok(rest) => (Ok(Triggers::Cons(Box::new(items), Box::new(rest))), p3),
                }
            },
        }
    } else {
        (Ok(Triggers::Nil), p)
    }
}

fn parse_quant_at(s: &Vec<Token>, p: usize) -> (r: (Result<Exp, ParseError>, usize))
    requires
        p < s@.len(),
    ensures
        r.0 == spec_quant(s@, p as int).0,
        r.1 == spec_quant(s@, p as int).1,
        p <= r.1 < s@.len(),
    decreases measure(s@.len() as int, p as int, 9),
{
    let (kind, p1) = quant_kind_exec(s, p);
    let (r, pe): (Result<Exp_, ParseError>, usize) = if kind == QuantKind::Choose || kind
        == QuantKind::ChooseMin {
        let (b, p2) = parse_quant_binding_at(s, p1);
        match b {
            Err(e) => (Err(e), p2),
            Ok(b) => {
                if peek_at(s, p2) != Tok::Where {
                    (Err(unexpected_exec(s, p2, Expected::Token(Tok::Where))), p2)
                } else {
                    let (body, p3) = parse_exp_at(s, adv_at(s, p2));
                    match body {
                        Err(e) => (Err(e), p3),
                        Ok(body) => (
                            Ok(
                                Exp_::Quant(
                                    kind,
                                    Box::new(
                                        QuantBindings::Cons(
                                            Box::new(b),
                                            Box::new(QuantBindings::Nil),
                                        ),
                                    ),
                                    Box::new(Triggers::Nil),
                                    None,
                                    Box::new(body),
                                ),
                            ),
                            p3,
                        ),
                    }
                }
            },
        }
    } else {
        let (bs, p2) = parse_quant_bindings_at(s, p1);
        match bs {
            Err(e) => (Err(e), p2),
            Ok(bs) => {
                let (trs, p3) = parse_triggers_at(s, p2);
                match trs {
                    Err(e) => (Err(e), p3),
                    Ok(trs) => {
                        let (cond, p4): (Result<Option<Box<Exp>>, ParseError>, usize) = if peek_at(s, p3)
                            == Tok::Where {
                            let (c, q) = parse_exp_at(s, adv_at(s, p3));
                            match c {
                                Err(e) => (Err(e), q),
                                Ok(c) => (Ok(Some(Box::new(c))), q),
                            }
                        } else {
                            (Ok(None), p3)
                        };
                        match cond {
                            Err(e) => (Err(e), p4),
                            Ok(cond) => {
                                match consume_exec(s, p4, Tok::Colon) {
                                    Err(e) => (Err(e), p4),
                                    Ok(p5) => {
                                        let (body, p6) = parse_exp_at(s, p5);
                                        match body {
                                            Err(e) => (Err(e), p6),
                                            Ok(body) => (
                                                Ok(
                                                    Exp_::Quant(
                                                        kind,
                                                        Box::new(bs),
                                                        Box::new(trs),
                                                        cond,
                                                        Box::new(body),
                                                    ),
                                                ),
                                                p6,
                                            ),
                                        }
                                    },
                                }
                            },
                        }
                    },
                }
            },
        }
    };
    match r {
        Err(e) => (Err(e), pe),
        Ok(form) => (Ok(Exp { start: start_at_exec(s, p), end: prev_end_exec(s, pe), exp: form }), pe),
    }
}

fn parse_exp_list_after_at(s: &Vec<Token>, p: usize, close: Tok) -> (r: (Result<ExpList, ParseError>, usize))
    requires
        p < s@.len(),
    ensures
        r.0 == spec_exp_list_after(s@, p as int, close).0,
        r.1 == spec_exp_list_after(s@, p as int, close).1,
        p <= r.1 < s@.len(),
    decreases measure(s@.len() as int, p as int, 12),
{
    if peek_at(s, p) == close {
        (Ok(ExpList::Nil), adv_at(s, p))
    } else {
        parse_exp_items_at(s, p, close)
    }
}

fn parse_sequence_at(s: &Vec<Token>, p: usize) -> (r: (Result<Sequence, ParseError>, usize))
    requires
        p < s@.len(),
    ensures
        r.0 == spec_sequence(s@, p as int).0,
        r.1 == spec_sequence(s@, p as int).1,
        p <= r.1 < s@.len(),
    decreases measure(s@.len() as int, p as int, 18),
{
    if peek_at(s, p) == Tok::Use {
        let (u, p1) = parse_use_decl_at(s, p, AttrGroups::Nil, start_at_exec(s, p), empty_modifiers_exec());
        match u {
            Err(e) => (Err(e), p1),
            Ok(u) => {
                let p1 = p1;
                let (rest, p2) = parse_sequence_at(s, p1);
                match rest {
                    Err(e) => (Err(e), p2),
                    Ok(rest) => (
                        Ok(
                            Sequence {
                                uses: UseDecls::Cons(Box::new(u), Box::new(rest.uses)),
                                items: rest.items,
                                last: rest.last,
                            },
                        ),
                        p2,
                    ),
                }
            },
        }
    } else {
        let (r, p1) = parse_sequence_items_at(s, p);
        match r {
            Err(e) => (Err(e), p1),
            Ok((items, last)) => (Ok(Sequence { uses: UseDecls::Nil, items, last }), p1),
        }
    }
}

fn parse_sequence_items_at(s: &Vec<Token>, p: usize) -> (r: (Result<(SequenceItems, Option<Box<Exp>>), ParseError>, usize))
    requires
        p < s@.len(),
    ensures
        r.0 == spec_sequence_items(s@, p as int).0,
        r.1 == spec_sequence_items(s@, p as int).1,
        p <= r.1 < s@.len(),
    decreases measure(s@.len() as int, p as int, 17),
{
    if peek_at(s, p) == Tok::RBrace {
        (Ok((SequenceItems::Nil, None)), adv_at(s, p))
    } else {
        let (item, p1) = parse_sequence_item_at(s, p);
        match item {
            Err(e) => (Err(e), p1),
            Ok(item) => {
                if peek_at(s, p1) == Tok::RBrace {
                    match item {
                        SequenceItem::Expr(e) => (Ok((SequenceItems::Nil, Some(e))), adv_at(s, p1)),
                        _ => (Err(unexpected_exec(s, p1, Expected::Token(Tok::Semicolon))), p1),
                    }
                } else if peek_at(s, p1) != Tok::Semicolon {
                    (Err(unexpected_exec(s, p1, Expected::Token(Tok::Semicolon))), p1)
                } else {
                    let (rest, p2) = parse_sequence_items_at(s, adv_at(s, p1));
                    match rest {
                        Err(e) => (Err(e), p2),
                        Ok((items, last)) => (
                            Ok((SequenceItems::Cons(Box::new(item), Box::new(items)), last)),
                            p2,
                        ),
                    }
                }
            },
        }
    }
}

fn parse_sequence_item_at(s: &Vec<Token>, p: usize) -> (r: (Result<SequenceItem, ParseError>, usize))
    requires
        p < s@.len(),
    ensures
        r.0 == spec_sequence_item(s@, p as int).0,
        r.1 == spec_sequence_item(s@, p as int).1,
        p <= r.1 < s@.len(),
    decreases measure(s@.len() as int, p as int, 15),
{
    if peek_at(s, p) == Tok::Let {
        let p1 = adv_at(s, p);
        let (b, p2) = parse_bind_list_at(s, p1);
        match b {
            Err(e) => (Err(e), p2),
            Ok(b) => {
                let (ty, p3): (Result<Option<Box<Type>>, ParseError>, usize) = if peek_at(s, p2) == Tok::Colon {
                    let (t, q) = parse_type_at(s, adv_at(s, p2), false);
                    match t {
                        Err(e) => (Err(e), q),
                        Ok(t) => (Ok(Some(Box::new(t))), q),
                    }
                } else {
                    (Ok(None), p2)
                };
                match ty {
                    Err(e) => (Err(e), p3),
                    Ok(ty) => {
                        if peek_at(s, p3) == Tok::Equal {
                            let (e, p4) = parse_exp_at(s, adv_at(s, p3));
                            match e {
                                Err(err) => (Err(err), p4),
                                Ok(e) => (Ok(SequenceItem::Bind(Box::new(b), ty, Box::new(e))), p4),
                            }
                        } else {
                            (Ok(SequenceItem::Declare(Box::new(b), ty)), p3)
                        }
                    },
                }
            },
        }
    } else {
        let (e, p1) = parse_exp_at(s, p);
        match e {
            Err(err) => (Err(err), p1),
            Ok(e) => (Ok(SequenceItem::Expr(Box::new(e))), p1),
        }
    }
}

fn parse_bind_list_at(s: &Vec<Token>, p: usize) -> (r: (Result<Items, ParseError>, usize))
    requires
        p < s@.len(),
    ensures
        r.0 == spec_bind_list(s@, p as int).0,
        r.1 == spec_bind_list(s@, p as int).1,
        p <= r.1 < s@.len(),
    decreases measure(s@.len() as int, p as int, 19),
{
    if peek_at(s, p) != Tok::LParen {
        let (b, p1) = parse_bind_at(s, p);
        match b {
            Err(e) => (Err(e), p1),
            Ok(b) => (Ok(Items::Cons(Box::new(Item::Bind(Box::new(b))), Box::new(Items::Nil))), p1),
        }
    } else {
        parse_list_after_start_at(s, adv_at(s, p), Tok::RParen, ListKind::Bind)
    }
}

fn parse_bind_at(s: &Vec<Token>, p: usize) -> (r: (Result<Bind, ParseError>, usize))
    requires
        p < s@.len(),
    ensures
        r.0 == spec_bind(s@, p as int).0,
        r.1 == spec_bind(s@, p as int).1,
        p <= r.1 < s@.len(),
    decreases measure(s@.len() as int, p as int, 18),
{
    let t = peek_at(s, p);
    let next = peek_ahead(s, p, 1);
    if (is_identifier_exec(t) || t == Tok::Mut) && !(next == Tok::LBrace || next == Tok::Less || next == Tok::ColonColon || next == Tok::LParen) {
        let is_mut = t == Tok::Mut;
        let p1 = if is_mut {
            adv_at(s, p)
        } else {
            p
        };
        let (v, p2) = parse_identifier_at(s, p1);
        match v {
            Err(e) => (Err(e), p2),
            Ok(v) => (Ok(Bind { start: start_at_exec(s, p), end: prev_end_exec(s, p2), bind: Bind_::Var(is_mut, v) }), p2),
        }
    } else {
        let (name, p1) = parse_name_chain_at(s, p);
        match name {
            Err(e) => (Err(e), p1),
            Ok(name) => {
                let (tys, p2): (Result<Option<Box<TypeList>>, ParseError>, usize) = if peek_at(s, p1) == Tok::Less {
                    let (ts, q) = parse_type_list_after_at(s, adv_at(s, p1), Tok::Greater);
                    match ts {
                        Err(e) => (Err(e), q),
                        Ok(ts) => (Ok(Some(Box::new(ts))), q),
                    }
                } else {
                    (Ok(None), p1)
                };
                match tys {
                    Err(e) => (Err(e), p2),
                    Ok(tys) => {
                        let positional = peek_at(s, p2) == Tok::LParen;
                        let (fs, p3): (Result<Items, ParseError>, usize) = if positional {
                            parse_list_after_start_at(s, adv_at(s, p2), Tok::RParen, ListKind::Bind)
                        } else {
                            match consume_exec(s, p2, Tok::LBrace) {
                                Err(e) => (Err(e), p2),
                                Ok(q) => parse_list_after_start_at(s, q, Tok::RBrace, ListKind::BindField),
                            }
                        };
                        match fs {
                            Err(e) => (Err(e), p3),
                            Ok(fs) => (
                                Ok(
                                    Bind {
                                        start: start_at_exec(s, p),
                                        end: prev_end_exec(s, p3),
                                        bind: Bind_::Unpack(name, tys, Box::new(fs), positional),
                                    },
                                ),
                                p3,
                            ),
                        }
                    },
                }
            },
        }
    }
}

fn parse_type_at(s: &Vec<Token>, p: usize, ws: bool) -> (r: (Result<Type, ParseError>, usize))
    requires
        p < s@.len(),
    ensures
        r.0 == spec_type(s@, p as int, ws).0,
        r.1 == spec_type(s@, p as int, ws).1,
        p <= r.1 < s@.len(),
    decreases measure(s@.len() as int, p as int, 12),
{
    let t = peek_at(s, p);
    let (r, pe): (Result<Type_, ParseError>, usize) = if t == Tok::LParen {
        let p1 = adv_at(s, p);
        if peek_at(s, p1) == Tok::RParen {
            (Ok(Type_::Unit), adv_at(s, p1))
        } else {
            let (ts, p2) = parse_type_items_at(s, p1, Tok::RParen);
            match ts {
                Err(e) => (Err(e), p2),
                Ok(ts) => (Ok(tuple_type_exec(ts)), p2),
            }
        }
    } else if t == Tok::Amp || t == Tok::AmpMut {
        let p1 = adv_at(s, p);
        let is_mut = t == Tok::AmpMut || peek_at(s, p1) == Tok::Mut;
        let p1 = if t == Tok::Amp && peek_at(s, p1) == Tok::Mut {
            adv_at(s, p1)
        } else {
            p1
        };
        let (inner, p2) = parse_type_at(s, p1, false);
        match inner {
            Err(e) => (Err(e), p2),
            Ok(inner) => (Ok(Type_::Ref(is_mut, Box::new(inner))), p2),
        }
    } else if t == Tok::PipePipe || t == Tok::Pipe {
        let p1 = adv_at(s, p);
        let (args, p2): (Result<TypeList, ParseError>, usize) = if t == Tok::PipePipe {
            (Ok(TypeList::Nil), p1)
        } else {
            parse_type_list_after_at(s, p1, Tok::Pipe)
        };
        match args {
            Err(e) => (Err(e), p2),
            Ok(args) => {
                let (res, p3): (Result<Type, ParseError>, usize) = if peek_at(s, p2) == Tok::MinusGreater {
                    parse_type_at(s, adv_at(s, p2), false)
                } else {
                    (Ok(Type { start: start_at_exec(s, p), end: start_at_exec(s, p2), ty: Type_::Unit }), p2)
                };
                match res {
                    Err(e) => (Err(e), p3),
                    Ok(res) => (Ok(Type_::Fun(Box::new(args), Box::new(res))), p3),
                }
            },
        }
    } else {
        let (chain, p1) = parse_name_chain_at(s, p);
        match chain {
            Err(e) => (Err(e), p1),
            Ok(c) => {
                if peek_at(s, p1) == Tok::Less && (!ws || c.end == start_at_exec(s, p1)) {
                    let (args, p3) = parse_type_list_after_at(s, adv_at(s, p1), Tok::Greater);
                    match args {
                        Err(e) => (Err(e), p3),
                        Ok(args) => (Ok(Type_::Apply(c, Box::new(args))), p3),
                    }
                } else {
                    (Ok(Type_::Apply(c, Box::new(TypeList::Nil))), p1)
                }
            },
        }
    };
    match r {
        Err(e) => (Err(e), pe),
        Ok(ty) => (Ok(Type { start: start_at_exec(s, p), end: prev_end_exec(s, pe), ty }), pe),
    }
}

fn parse_type_list_after_at(s: &Vec<Token>, p: usize, close: Tok) -> (r: (Result<TypeList, ParseError>, usize))
    requires
        p < s@.len(),
    ensures
        r.0 == spec_type_list_after(s@, p as int, close).0,
        r.1 == spec_type_list_after(s@, p as int, close).1,
        p <= r.1 < s@.len(),
    decreases measure(s@.len() as int, p as int, 14),
{
    if peek_at(s, p) == close {
        (Ok(TypeList::Nil), adv_at(s, p))
    } else {
        parse_type_items_at(s, p, close)
    }
}

fn parse_type_items_at(s: &Vec<Token>, p: usize, close: Tok) -> (r: (Result<TypeList, ParseError>, usize))
    requires
        p < s@.len(),
    ensures
        r.0 == spec_type_items(s@, p as int, close).0,
        r.1 == spec_type_items(s@, p as int, close).1,
        p <= r.1 < s@.len(),
    decreases measure(s@.len() as int, p as int, 13),
{
    if peek_at(s, p) == Tok::Comma {
        (Err(missing_item_exec(s, p)), p)
    } else {
        let (t, p1) = parse_type_at(s, p, false);
        match t {
            Err(err) => (Err(err), p1),
            Ok(t) => {
                if peek_at(s, p1) == close {
                    (Ok(TypeList::Cons(Box::new(t), Box::new(TypeList::Nil))), adv_at(s, p1))
                } else if peek_at(s, p1) != Tok::Comma {
                    (Err(unexpected_exec(s, p1, Expected::Token(close))), p1)
                } else {
                    let p2 = adv_at(s, p1);
                    if peek_at(s, p2) == close {
                        (Ok(TypeList::Cons(Box::new(t), Box::new(TypeList::Nil))), adv_at(s, p2))
                    } else {
                        let (rest, p3) = parse_type_items_at(s, p2, close);
                        match rest {
                            Err(err) => (Err(err), p3),
                            Ok(rest) => (Ok(TypeList::Cons(Box::new(t), Box::new(rest))), p3),
                        }
                    }
                }
            },
        }
    }
}

fn parse_list_after_start_at(s: &Vec<Token>, p: usize, close: Tok, kind: ListKind) -> (r: (Result<Items, ParseError>, usize))
    requires
        p < s@.len(),
    ensures
        r.0 == spec_list_after_start(s@, p as int, close, kind).0,
        r.1 == spec_list_after_start(s@, p as int, close, kind).1,
        p <= r.1 < s@.len(),
    decreases measure(s@.len() as int, p as int, 23),
{
    if peek_at(s, p) == close {
        (Ok(Items::Nil), adv_at(s, p))
    } else {
        parse_list_items_at(s, p, close, kind)
    }
}

fn parse_list_items_at(s: &Vec<Token>, p: usize, close: Tok, kind: ListKind) -> (r: (Result<Items, ParseError>, usize))
    requires
        p < s@.len(),
    ensures
        r.0 == spec_list_items(s@, p as int, close, kind).0,
        r.1 == spec_list_items(s@, p as int, close, kind).1,
        p <= r.1 < s@.len(),
    decreases measure(s@.len() as int, p as int, 22),
{
    if peek_at(s, p) == Tok::Comma {
        (Err(missing_item_exec(s, p)), p)
    } else {
        let (it, p1) = parse_item_at(s, p, kind);
        match it {
            Err(err) => (Err(err), p1),
            Ok(it) => {
                if peek_at(s, p1) == close {
                    (Ok(Items::Cons(Box::new(it), Box::new(Items::Nil))), adv_at(s, p1))
                } else if peek_at(s, p1) != Tok::Comma {
                    (Err(unexpected_exec(s, p1, Expected::Token(close))), p1)
                } else {
                    let p2 = adv_at(s, p1);
                    if peek_at(s, p2) == close {
                        (Ok(Items::Cons(Box::new(it), Box::new(Items::Nil))), adv_at(s, p2))
                    } else {
                        let (rest, p3) = parse_list_items_at(s, p2, close, kind);
                        match rest {
                            Err(err) => (Err(err), p3),
                            Ok(rest) => (Ok(Items::Cons(Box::new(it), Box::new(rest))), p3),
                        }
                    }
                }
            },
        }
    }
}

fn parse_item_at(s: &Vec<Token>, p: usize, kind: ListKind) -> (r: (Result<Item, ParseError>, usize))
    requires
        p < s@.len(),
    ensures
        r.0 == spec_item(s@, p as int, kind).0,
        r.1 == spec_item(s@, p as int, kind).1,
        p <= r.1 < s@.len(),
    decreases measure(s@.len() as int, p as int, 21),
{
    match kind {
        ListKind::ExpField => parse_item_exp_field_at(s, p),
        ListKind::Bind => parse_item_bind_at(s, p),
        ListKind::BindField => parse_item_bind_field_at(s, p),
        ListKind::LambdaBind => parse_item_lambda_bind_at(s, p),
        ListKind::Attribute => parse_item_attribute_at(s, p),
        ListKind::Param => parse_item_param_at(s, p),
        ListKind::FieldAnnot => parse_item_field_annot_at(s, p),
        ListKind::PosField => parse_item_pos_field_at(s, p),
        ListKind::TypeParam | ListKind::StructTypeParam => parse_item_type_param_at(s, p, kind),
        ListKind::UseModule => parse_item_use_module_at(s, p),
        ListKind::UseMember => parse_item_use_member_at(s, p),
    }
}

fn parse_item_exp_field_at(s: &Vec<Token>, p: usize) -> (r: (Result<Item, ParseError>, usize))
    requires
        p < s@.len(),
    ensures
        r.0 == spec_item_exp_field(s@, p as int).0,
        r.1 == spec_item_exp_field(s@, p as int).1,
        p <= r.1 < s@.len(),
    decreases measure(s@.len() as int, p as int, 20),
{
    let (f, p1) = parse_identifier_at(s, p);
    match f {
        Err(e) => (Err(e), p1),
        Ok(f) => if peek_at(s, p1) == Tok::Colon {
            let (e, p2) = parse_exp_at(s, adv_at(s, p1));
            match e {
                Err(err) => (Err(err), p2),
                Ok(e) => (Ok(Item::ExpField(f, Box::new(e))), p2),
            }
        } else {
            (Ok(Item::ExpField(f, Box::new(Exp { start: f.start, end: f.end, exp: Exp_::Name(f, None) }))), p1)
        },
    }
}

fn parse_item_bind_at(s: &Vec<Token>, p: usize) -> (r: (Result<Item, ParseError>, usize))
    requires
        p < s@.len(),
    ensures
        r.0 == spec_item_bind(s@, p as int).0,
        r.1 == spec_item_bind(s@, p as int).1,
        p <= r.1 < s@.len(),
    decreases measure(s@.len() as int, p as int, 20),
{
    let (b, p1) = parse_bind_at(s, p);
    match b {
        Err(e) => (Err(e), p1),
        Ok(b) => (Ok(Item::Bind(Box::new(b))), p1),
    }
}

fn parse_item_bind_field_at(s: &Vec<Token>, p: usize) -> (r: (Result<Item, ParseError>, usize))
    requires
        p < s@.len(),
    ensures
        r.0 == spec_item_bind_field(s@, p as int).0,
        r.1 == spec_item_bind_field(s@, p as int).1,
        p <= r.1 < s@.len(),
    decreases measure(s@.len() as int, p as int, 20),
{
    let is_mut = peek_at(s, p) == Tok::Mut;
    let p0 = if is_mut {
        adv_at(s, p)
    } else {
        p
    };
    let (f, p1) = parse_identifier_at(s, p0);
    match f {
        Err(e) => (Err(e), p1),
        Ok(f) => if is_mut {
            (Ok(Item::BindField(f, Box::new(Bind { start: f.start, end: f.end, bind: Bind_::Var(true, f) }))), p1)
        } else if peek_at(s, p1) == Tok::Colon {
            let (b, p2) = parse_bind_at(s, adv_at(s, p1));
            match b {
                Err(e) => (Err(e), p2),
                Ok(b) => (Ok(Item::BindField(f, Box::new(b))), p2),
            }
        } else {
            (Ok(Item::BindField(f, Box::new(Bind { start: f.start, end: f.end, bind: Bind_::Var(false, f) }))), p1)
        },
    }
}

fn parse_item_lambda_bind_at(s: &Vec<Token>, p: usize) -> (r: (Result<Item, ParseError>, usize))
    requires
        p < s@.len(),
    ensures
        r.0 == spec_item_lambda_bind(s@, p as int).0,
        r.1 == spec_item_lambda_bind(s@, p as int).1,
        p <= r.1 < s@.len(),
    decreases measure(s@.len() as int, p as int, 20),
{
    let (b, p1) = parse_bind_list_at(s, p);
    match b {
        Err(e) => (Err(e), p1),
        Ok(b) => {
            if peek_at(s, p1) == Tok::Colon {
                let (t, p2) = parse_type_at(s, adv_at(s, p1), false);
                match t {
                    Err(e) => (Err(e), p2),
                    Ok(t) => (Ok(Item::LambdaBind(Box::new(b), Some(Box::new(t)))), p2),
                }
            } else {
                (Ok(Item::LambdaBind(Box::new(b), None)), p1)
            }
        },
    }
}

fn parse_item_attribute_at(s: &Vec<Token>, p: usize) -> (r: (Result<Item, ParseError>, usize))
    requires
        p < s@.len(),
    ensures
        r.0 == spec_item_attribute(s@, p as int).0,
        r.1 == spec_item_attribute(s@, p as int).1,
        p <= r.1 < s@.len(),
    decreases measure(s@.len() as int, p as int, 20),
{
    let (n, p1): (Result<Span, ParseError>, usize) = if peek_at(s, p) == Tok::For {
        (Ok(span_at_exec(s, p)), adv_at(s, p))
    } else {
        parse_identifier_at(s, p)
    };
    match n {
        Err(e) => (Err(e), p1),
        Ok(n) => {
            let (a, p2): (Result<Attribute_, ParseError>, usize) = if peek_at(s, p1) == Tok::Equal {
                let q = adv_at(s, p1);
                let (v, q1) = parse_value_at(s, q);
                match v {
                    Err(e) => (Err(e), q1),
                    Ok(Some(v)) => (Ok(Attribute_::Assigned(n, AttributeValue::Value(v))), q1),
                    Ok(None) => {
                        let (c, q2) = parse_name_chain_at(s, q);
                        match c {
                            Err(e) => (Err(e), q2),
                            Ok(c) => (Ok(Attribute_::Assigned(n, AttributeValue::ModuleAccess(c))), q2),
                        }
                    },
                }
            } else if peek_at(s, p1) == Tok::LParen {
                let (args, q) = parse_list_after_start_at(s, adv_at(s, p1), Tok::RParen, ListKind::Attribute);
                match args {
                    Err(e) => (Err(e), q),
                    Ok(args) => (Ok(Attribute_::Parameterized(n, Box::new(args))), q),
                }
            } else {
                (Ok(Attribute_::Name(n)), p1)
            };
            match a {
                Err(e) => (Err(e), p2),
                Ok(a) => (Ok(Item::Attribute(Box::new(Attribute { start: start_at_exec(s, p), end: prev_end_exec(s, p2), attr: a }))), p2),
            }
        },
    }
}

fn parse_item_param_at(s: &Vec<Token>, p: usize) -> (r: (Result<Item, ParseError>, usize))
    requires
        p < s@.len(),
    ensures
        r.0 == spec_item_param(s@, p as int).0,
        r.1 == spec_item_param(s@, p as int).1,
        p <= r.1 < s@.len(),
    decreases measure(s@.len() as int, p as int, 20),
{
    let is_mut = peek_at(s, p) == Tok::Mut;
    let p0 = if is_mut {
        adv_at(s, p)
    } else {
        p
    };
    let (v, p1) = parse_identifier_at(s, p0);
    match v {
        Err(e) => (Err(e), p1),
        Ok(v) => match consume_exec(s, p1, Tok::Colon) {
            Err(e) => (Err(e), p1),
            Ok(p2) => {
                let (t, p3) = parse_type_at(s, p2, false);
                match t {
                    Err(e) => (Err(e), p3),
                    Ok(t) => (Ok(Item::Param(is_mut, v, Box::new(t))), p3),
                }
            },
        },
    }
}

fn parse_item_field_annot_at(s: &Vec<Token>, p: usize) -> (r: (Result<Item, ParseError>, usize))
    requires
        p < s@.len(),
    ensures
        r.0 == spec_item_field_annot(s@, p as int).0,
        r.1 == spec_item_field_annot(s@, p as int).1,
        p <= r.1 < s@.len(),
    decreases measure(s@.len() as int, p as int, 20),
{
    let (f, p1) = parse_identifier_at(s, p);
    match f {
        Err(e) => (Err(e), p1),
        Ok(f) => match consume_exec(s, p1, Tok::Colon) {
            Err(e) => (Err(e), p1),
            Ok(p2) => {
                let (t, p3) = parse_type_at(s, p2, false);
                match t {
                    Err(e) => (Err(e), p3),
                    Ok(t) => (Ok(Item::FieldAnnot(f, Box::new(t))), p3),
                }
            },
        },
    }
}

fn parse_item_pos_field_at(s: &Vec<Token>, p: usize) -> (r: (Result<Item, ParseError>, usize))
    requires
        p < s@.len(),
    ensures
        r.0 == spec_item_pos_field(s@, p as int).0,
        r.1 == spec_item_pos_field(s@, p as int).1,
        p <= r.1 < s@.len(),
    decreases measure(s@.len() as int, p as int, 20),
{
    let (t, p1) = parse_type_at(s, p, false);
    match t {
        Err(e) => (Err(e), p1),
        Ok(t) => (Ok(Item::PosField(Box::new(t))), p1),
    }
}

fn parse_item_type_param_at(s: &Vec<Token>, p: usize, kind: ListKind) -> (r: (Result<Item, ParseError>, usize))
    requires
        p < s@.len(),
    ensures
        r.0 == spec_item_type_param(s@, p as int, kind).0,
        r.1 == spec_item_type_param(s@, p as int, kind).1,
        p <= r.1 < s@.len(),
    decreases measure(s@.len() as int, p as int, 20),
{
    let phantom = kind == ListKind::StructTypeParam && peek_at(s, p) == Tok::Phantom;
    let p0 = if phantom {
        adv_at(s, p)
    } else {
        p
    };
    let (n, p1) = parse_identifier_at(s, p0);
    match n {
        Err(e) => (Err(e), p1),
        Ok(n) => if peek_at(s, p1) == Tok::Colon {
            let (abs, p2) = parse_abilities_at(s, adv_at(s, p1), 0);
            match abs {
                Err(e) => (Err(e), p2),
                Ok(abs) => (Ok(Item::TypeParam(phantom, n, Box::new(abs))), p2),
            }
        } else {
            (Ok(Item::TypeParam(phantom, n, Box::new(Abilities::Nil))), p1)
        },
    }
}

fn parse_item_use_module_at(s: &Vec<Token>, p: usize) -> (r: (Result<Item, ParseError>, usize))
    requires
        p < s@.len(),
    ensures
        r.0 == spec_item_use_module(s@, p as int).0,
        r.1 == spec_item_use_module(s@, p as int).1,
        p <= r.1 < s@.len(),
    decreases measure(s@.len() as int, p as int, 20),
{
    let (name, p1) = parse_identifier_at(s, p);
    match name {
        Err(e) => (Err(e), p1),
        Ok(name) => {
            let (alias, p2): (Result<Option<Span>, ParseError>, usize) = if peek_at(s, p1) == Tok::As {
                let (a, q) = parse_identifier_at(s, adv_at(s, p1));
                match a {
                    Err(e) => (Err(e), q),
                    Ok(a) => (Ok(Some(a)), q),
                }
            } else {
                (Ok(None), p1)
            };
            match alias {
                Err(e) => (Err(e), p2),
                Ok(alias) => if alias.is_none() && peek_at(s, p2) == Tok::ColonColon {
                    let p3 = adv_at(s, p2);
                    let (members, p4): (Result<Items, ParseError>, usize) = if peek_at(s, p3) == Tok::LBrace {
                        parse_list_after_start_at(s, adv_at(s, p3), Tok::RBrace, ListKind::UseMember)
                    } else {
                        let (m, q) = parse_item_use_member_at(s, p3);
                        match m {
                            Err(e) => (Err(e), q),
                            Ok(m) => (Ok(Items::Cons(Box::new(m), Box::new(Items::Nil))), q),
                        }
                    };
                    match members {
                        Err(e) => (Err(e), p4),
                        Ok(members) => (Ok(Item::UseModule(Box::new(UseModule { name, use_: ModuleUse::Members(Box::new(members)) }))), p4),
                    }
                } else {
                    (Ok(Item::UseModule(Box::new(UseModule { name, use_: ModuleUse::Module(alias) }))), p2)
                },
            }
        },
    }
}

fn parse_item_use_member_at(s: &Vec<Token>, p: usize) -> (r: (Result<Item, ParseError>, usize))
    requires
        p < s@.len(),
    ensures
        r.0 == spec_item_use_member(s@, p as int).0,
        r.1 == spec_item_use_member(s@, p as int).1,
        p <= r.1 < s@.len(),
    decreases measure(s@.len() as int, p as int, 20),
{
    let (m, p1) = parse_identifier_at(s, p);
    match m {
        Err(e) => (Err(e), p1),
        Ok(m) => if peek_at(s, p1) == Tok::As {
            let (a, p2) = parse_identifier_at(s, adv_at(s, p1));
            match a {
                Err(e) => (Err(e), p2),
                Ok(a) => (Ok(Item::UseMember(m, Some(a))), p2),
            }
        } else {
            (Ok(Item::UseMember(m, None)), p1)
        },
    }
}

fn parse_abilities_at(s: &Vec<Token>, p: usize, mode: u8) -> (r: (Result<Abilities, ParseError>, usize))
    requires
        p < s@.len(),
    ensures
        r.0 == spec_abilities(s@, p as int, mode).0,
        r.1 == spec_abilities(s@, p as int, mode).1,
        p <= r.1 < s@.len(),
    decreases measure(s@.len() as int, p as int, 2),
{
    match ability_of_exec(peek_at(s, p)) {
        None => (Err(unexpected_exec(s, p, Expected::Ability)), p),
        Some(a) => {
            let sp = span_at_exec(s, p);
            let p1 = adv_at(s, p);
            let t = peek_at(s, p1);
            let sep = if mode == 0 {
                Tok::Plus
            } else {
                Tok::Comma
            };
            if t == sep {
                let (rest, p2) = parse_abilities_at(s, adv_at(s, p1), mode);
                match rest {
                    Err(e) => (Err(e), p2),
                    Ok(rest) => (Ok(Abilities::Cons(a, sp, Box::new(rest))), p2),
                }
            } else if (mode == 0 && (t == Tok::Greater || t == Tok::Comma)) || (mode == 1 && (t == Tok::LBrace || t == Tok::Semicolon || t == Tok::LParen)) || (mode == 2 && t == Tok::Semicolon) {
                (Ok(Abilities::Cons(a, sp, Box::new(Abilities::Nil))), p1)
            } else {
                (Err(unexpected_exec(s, p1, Expected::AbilityListContinuation)), p1)
            }
        },
    }
}

fn parse_attributes_at(s: &Vec<Token>, p: usize) -> (r: (Result<AttrGroups, ParseError>, usize))
    requires
        p < s@.len(),
    ensures
        r.0 == spec_attributes(s@, p as int).0,
        r.1 == spec_attributes(s@, p as int).1,
        p <= r.1 < s@.len(),
    decreases measure(s@.len() as int, p as int, 22),
{
    if peek_at(s, p) == Tok::NumSign {
        let p1 = adv_at(s, p);
        match consume_exec(s, p1, Tok::LBracket) {
            Err(e) => (Err(e), p1),
            Ok(p2) => {
                let (attrs, p3) = parse_list_after_start_at(s, p2, Tok::RBracket, ListKind::Attribute);
                match attrs {
                    Err(e) => (Err(e), p3),
                    Ok(attrs) => {
                        let sp = Span { start: start_at_exec(s, p), end: prev_end_exec(s, p3) };
                        let (rest, p4) = parse_attributes_at(s, p3);
                        match rest {
                            Err(e) => (Err(e), p4),
                            Ok(rest) => (Ok(AttrGroups::Cons(sp, Box::new(attrs), Box::new(rest))), p4),
                        }
                    },
                }
            },
        }
    } else {
        (Ok(AttrGroups::Nil), p)
    }
}

fn parse_visibility_at(s: &Vec<Token>, p: usize) -> (r: (Result<Visibility, ParseError>, usize))
    requires
        p < s@.len(),
    ensures
        r.0 is Ok ==> p < r.1,
        r.0 == spec_visibility(s@, p as int).0,
        r.1 == spec_visibility(s@, p as int).1,
        p <= r.1 < s@.len(),
{
    match consume_exec(s, p, Tok::Public) {
        Err(e) => (Err(e), p),
        Ok(p1) => if peek_at(s, p1) == Tok::LParen {
            let p2 = adv_at(s, p1);
            let sub = peek_at(s, p2);
            let p3 = adv_at(s, p2);
            let (r, p4): (Result<usize, ParseError>, usize) = if sub != Tok::RParen {
                match consume_exec(s, p3, Tok::RParen) {
                    Err(e) => (Err(e), p3),
                    Ok(q) => (Ok(q), q),
                }
            } else {
                (Ok(p3), p3)
            };
            match r {
                Err(e) => (Err(e), p4),
                Ok(_) => {
                    let loc = Span { start: start_at_exec(s, p), end: prev_end_exec(s, p4) };
                    if sub == Tok::Friend {
                        (Ok(Visibility::Friend(loc)), p4)
                    } else if sub == Tok::Package {
                        (Ok(Visibility::Package(loc)), p4)
                    } else {
                        (Err(ParseError { start: loc.start, end: loc.end, found: sub, expected: Expected::Visibility }), p4)
                    }
                },
            }
        } else {
            (Ok(Visibility::Public(Span { start: start_at_exec(s, p), end: prev_end_exec(s, p1) })), p1)
        },
    }
}

fn parse_modifiers_at(s: &Vec<Token>, p: usize, mods: Modifiers) -> (r: (Result<Modifiers, ParseError>, usize))
    requires
        p < s@.len(),
    ensures
        r.0 == spec_modifiers(s@, p as int, mods).0,
        r.1 == spec_modifiers(s@, p as int, mods).1,
        p <= r.1 < s@.len(),
    decreases measure(s@.len() as int, p as int, 24),
{
    let t = peek_at(s, p);
    if t == Tok::Public {
        let (v, p1) = parse_visibility_at(s, p);
        match v {
            Err(e) => (Err(e), p1),
            Ok(v) => parse_modifiers_at(s, p1, Modifiers { visibility: Some(v), entry: mods.entry, native: mods.native, macro_: mods.macro_ }),
        }
    } else if t == Tok::Native {
        parse_modifiers_at(s, adv_at(s, p), Modifiers { visibility: mods.visibility, entry: mods.entry, native: Some(span_at_exec(s, p)), macro_: mods.macro_ })
    } else if t == Tok::Entry {
        parse_modifiers_at(s, adv_at(s, p), Modifiers { visibility: mods.visibility, entry: Some(span_at_exec(s, p)), native: mods.native, macro_: mods.macro_ })
    } else if t == Tok::Macro {
        parse_modifiers_at(s, adv_at(s, p), Modifiers { visibility: mods.visibility, entry: mods.entry, native: mods.native, macro_: Some(span_at_exec(s, p)) })
    } else {
        (Ok(mods), p)
    }
}

fn parse_function_decl_at(s: &Vec<Token>, p: usize, attributes: AttrGroups, start: usize, mods: Modifiers) -> (r: (Result<Function, ParseError>, usize))
    requires
        p < s@.len(),
    ensures
        r.0 == spec_function_decl(s@, p as int, attributes, start, mods).0,
        r.1 == spec_function_decl(s@, p as int, attributes, start, mods).1,
        p <= r.1 < s@.len(),
    decreases measure(s@.len() as int, p as int, 25),
{
    match consume_exec(s, p, Tok::Fun) {
        Err(e) => (Err(e), p),
        Ok(p1) => {
            let (name, p2) = parse_identifier_at(s, p1);
            match name {
                Err(e) => (Err(e), p2),
                Ok(name) => {
                    let (tps, p3): (Result<Items, ParseError>, usize) = if peek_at(s, p2) == Tok::Less {
                        parse_list_after_start_at(s, adv_at(s, p2), Tok::Greater, ListKind::TypeParam)
                    } else {
                        (Ok(Items::Nil), p2)
                    };
                    match tps {
                        Err(e) => (Err(e), p3),
                        Ok(tps) => {
                            match consume_exec(s, p3, Tok::LParen) {
                                Err(e) => (Err(e), p3),
                                Ok(p4) => {
                                    let (params, p5) = parse_list_after_start_at(s, p4, Tok::RParen, ListKind::Param);
                                    match params {
                                        Err(e) => (Err(e), p5),
                                        Ok(params) => {
                                            let (ret, p6): (Result<Option<Box<Type>>, ParseError>, usize) = if peek_at(s, p5) == Tok::Colon {
                                                let (t, q) = parse_type_at(s, adv_at(s, p5), false);
                                                match t {
                                                    Err(e) => (Err(e), q),
                                                    Ok(t) => (Ok(Some(Box::new(t))), q),
                                                }
                                            } else {
                                                (Ok(None), p5)
                                            };
                                            match ret {
                                                Err(e) => (Err(e), p6),
                                                Ok(ret) => {
                                                    let (acq, p7): (Result<Names, ParseError>, usize) = if peek_at(s, p6) == Tok::Acquires {
                                                        parse_acquires_at(s, adv_at(s, p6))
                                                    } else {
                                                        (Ok(Names::Nil), p6)
                                                    };
                                                    match acq {
                                                        Err(e) => (Err(e), p7),
                                                        Ok(acq) => {
                                                            let (body, p8): (Result<FunctionBody, ParseError>, usize) = if mods.native.is_some() {
                                                                match consume_exec(s, p7, Tok::Semicolon) {
                                                                    Err(e) => (Err(e), p7),
                                                                    Ok(q) => (Ok(FunctionBody::Native), q),
                                                                }
                                                            } else {
                                                                match consume_exec(s, p7, Tok::LBrace) {
                                                                    Err(e) => (Err(e), p7),
                                                                    Ok(q) => {
                                                                        let (sq, q1) = parse_sequence_at(s, q);
                                                                        match sq {
                                                                            Err(e) => (Err(e), q1),
                                                                            Ok(sq) => (Ok(FunctionBody::Defined(Box::new(sq))), q1),
                                                                        }
                                                                    },
                                                                }
                                                            };
                                                            match body {
                                                                Err(e) => (Err(e), p8),
                                                                Ok(body) => (
                                                                    Ok(
                                                                        Function {
                                                                            attributes,
                                                                            start,
                                                                            end: prev_end_exec(s, p8),
                                                                            modifiers: mods,
                                                                            name,
                                                                            type_parameters: tps,
                                                                            parameters: params,
                                                                            return_type: ret,
                                                                            acquires: acq,
                                                                            body,
                                                                        },
                                                                    ),
                                                                    p8,
                                                                ),
                                                            }
                                                        },
                                                    }
                                                },
                                            }
                                        },
                                    }
                                },
                            }
                        },
                    }
                },
            }
        },
    }
}

fn parse_acquires_at(s: &Vec<Token>, p: usize) -> (r: (Result<Names, ParseError>, usize))
    requires
        p < s@.len(),
    ensures
        r.0 == spec_acquires(s@, p as int).0,
        r.1 == spec_acquires(s@, p as int).1,
        p <= r.1 < s@.len(),
    decreases measure(s@.len() as int, p as int, 2),
{
    let (n, p1) = parse_name_chain_at(s, p);
    match n {
        Err(e) => (Err(e), p1),
        Ok(n) => {
            let t = peek_at(s, p1);
            if t == Tok::Semicolon || t == Tok::LBrace {
                (Ok(Names::Cons(n, Box::new(Names::Nil))), p1)
            } else {
                match consume_exec(s, p1, Tok::Comma) {
                    Err(e) => (Err(e), p1),
                    Ok(p2) => {
                        let t2 = peek_at(s, p2);
                        if t2 == Tok::Semicolon || t2 == Tok::LBrace {
                            (Ok(Names::Cons(n, Box::new(Names::Nil))), p2)
                        } else {
                            let (rest, p3) = parse_acquires_at(s, p2);
                            match rest {
                                Err(e) => (Err(e), p3),
                                Ok(rest) => (Ok(Names::Cons(n, Box::new(rest))), p3),
                            }
                        }
                    },
                }
            }
        },
    }
}

fn parse_struct_decl_at(s: &Vec<Token>, p: usize, attributes: AttrGroups, start: usize, mods: Modifiers) -> (r: (Result<StructDecl, ParseError>, usize))
    requires
        p < s@.len(),
    ensures
        r.0 == spec_struct_decl(s@, p as int, attributes, start, mods).0,
        r.1 == spec_struct_decl(s@, p as int, attributes, start, mods).1,
        p <= r.1 < s@.len(),
    decreases measure(s@.len() as int, p as int, 25),
{
    match consume_exec(s, p, Tok::Struct) {
        Err(e) => (Err(e), p),
        Ok(p1) => {
            let (name, p2) = parse_identifier_at(s, p1);
            match name {
                Err(e) => (Err(e), p2),
                Ok(name) => {
                    let (tps, p3): (Result<Items, ParseError>, usize) = if peek_at(s, p2) == Tok::Less {
                        parse_list_after_start_at(s, adv_at(s, p2), Tok::Greater, ListKind::StructTypeParam)
                    } else {
                        (Ok(Items::Nil), p2)
                    };
                    match tps {
                        Err(e) => (Err(e), p3),
                        Ok(tps) => {
                            let (infix, p4): (Result<Abilities, ParseError>, usize) = if peek_at(s, p3) == Tok::Has {
                                parse_abilities_at(s, adv_at(s, p3), 1)
                            } else {
                                (Ok(Abilities::Nil), p3)
                            };
                            match infix {
                                Err(e) => (Err(e), p4),
                                Ok(infix) => {
                                    let (fa, p5): (Result<(StructFields, Abilities), ParseError>, usize) = if mods.native.is_some() {
                                        match consume_exec(s, p4, Tok::Semicolon) {
                                            Err(e) => (Err(e), p4),
                                            Ok(q) => (Ok((StructFields::Native, infix)), q),
                                        }
                                    } else {
                                        let positional = peek_at(s, p4) == Tok::LParen;
                                        let (fs, q): (Result<StructFields, ParseError>, usize) = if positional {
                                            let (l, q0) = parse_list_after_start_at(s, adv_at(s, p4), Tok::RParen, ListKind::PosField);
                                            match l {
                                                Err(e) => (Err(e), q0),
                                                Ok(l) => (Ok(StructFields::Positional(Box::new(l))), q0),
                                            }
                                        } else {
                                            match consume_exec(s, p4, Tok::LBrace) {
                                                Err(e) => (Err(e), p4),
                                                Ok(q0) => {
                                                    let (l, q1) = parse_list_after_start_at(s, q0, Tok::RBrace, ListKind::FieldAnnot);
                                                    match l {
                                                        Err(e) => (Err(e), q1),
                                                        Ok(l) => (Ok(StructFields::Named(Box::new(l))), q1),
                                                    }
                                                },
                                            }
                                        };
                                        match fs {
                                            Err(e) => (Err(e), q),
                                            Ok(fs) => {
                                                if peek_at(s, q) == Tok::Has {
                                                    let (post, q2) = parse_abilities_at(s, adv_at(s, q), 2);
                                                    match post {
                                                        Err(e) => (Err(e), q2),
                                                        Ok(post) => match consume_exec(s, q2, Tok::Semicolon) {
                                                            Err(e) => (Err(e), q2),
                                                            Ok(q3) => (Ok((fs, post)), q3),
                                                        },
                                                    }
                                                } else {
                                                    (Ok((fs, infix)), q)
                                                }
                                            },
                                        }
                                    };
                                    match fa {
                                        Err(e) => (Err(e), p5),
                                        Ok((fields, abilities)) => (
                                            Ok(
                                                StructDecl {
                                                    attributes,
                                                    start,
                                                    end: prev_end_exec(s, p5),
                                                    modifiers: mods,
                                                    name,
                                                    type_parameters: tps,
                                                    abilities,
                                                    fields,
                                                },
                                            ),
                                            p5,
                                        ),
                                    }
                                },
                            }
                        },
                    }
                },
            }
        },
    }
}

fn parse_constant_decl_at(s: &Vec<Token>, p: usize, attributes: AttrGroups, start: usize) -> (r: (Result<Constant, ParseError>, usize))
    requires
        p < s@.len(),
    ensures
        r.0 == spec_constant_decl(s@, p as int, attributes, start).0,
        r.1 == spec_constant_decl(s@, p as int, attributes, start).1,
        p <= r.1 < s@.len(),
    decreases measure(s@.len() as int, p as int, 25),
{
    match consume_exec(s, p, Tok::Const) {
        Err(e) => (Err(e), p),
        Ok(p1) => {
            let (name, p2) = parse_identifier_at(s, p1);
            match name {
                Err(e) => (Err(e), p2),
                Ok(name) => if peek_at(s, p2) == Tok::Equal {
                    (Err(unexpected_exec(s, p2, Expected::TypeAnnotation)), p2)
                } else {
                    match consume_exec(s, p2, Tok::Colon) {
                        Err(e) => (Err(e), p2),
                        Ok(p3) => {
                            let (ty, p4) = parse_type_at(s, p3, false);
                            match ty {
                                Err(e) => (Err(e), p4),
                                Ok(ty) => {
                                    match consume_exec(s, p4, Tok::Equal) {
                                        Err(e) => (Err(e), p4),
                                        Ok(p5) => {
                                            let (v, p6) = parse_exp_at(s, p5);
                                            match v {
                                                Err(e) => (Err(e), p6),
                                                Ok(v) => {
                                                    match consume_exec(s, p6, Tok::Semicolon) {
                                                        Err(e) => (Err(e), p6),
                                                        Ok(p7) => (
                                                            Ok(
                                                                Constant {
                                                                    attributes,
                                                                    start,
                                                                    end: prev_end_exec(s, p7),
                                                                    name,
                                                                    signature: Box::new(ty),
                                                                    value: Box::new(v),
                                                                },
                                                            ),
                                                            p7,
                                                        ),
                                                    }
                                                },
                                            }
                                        },
                                    }
                                },
                            }
                        },
                    }
                },
            }
        },
    }
}

fn parse_friend_decl_at(s: &Vec<Token>, p: usize, attributes: AttrGroups) -> (r: (Result<FriendDecl, ParseError>, usize))
    requires
        p < s@.len(),
    ensures
        r.0 == spec_friend_decl(s@, p as int, attributes).0,
        r.1 == spec_friend_decl(s@, p as int, attributes).1,
        p <= r.1 < s@.len(),
{
    match consume_exec(s, p, Tok::Friend) {
        Err(e) => (Err(e), p),
        Ok(p1) => {
            let (n, p2) = parse_name_chain_at(s, p1);
            match n {
                Err(e) => (Err(e), p2),
                Ok(n) => match consume_exec(s, p2, Tok::Semicolon) {
                    Err(e) => (Err(e), p2),
                    Ok(p3) => (Ok(FriendDecl { attributes, start: start_at_exec(s, p), end: prev_end_exec(s, p3), friend: n }), p3),
                },
            }
        },
    }
}

fn parse_use_decl_at(s: &Vec<Token>, p: usize, attributes: AttrGroups, start: usize, mods: Modifiers) -> (r: (Result<UseDecl, ParseError>, usize))
    requires
        p < s@.len(),
    ensures
        r.0 is Ok ==> p < r.1,
        r.0 == spec_use_decl(s@, p as int, attributes, start, mods).0,
        r.1 == spec_use_decl(s@, p as int, attributes, start, mods).1,
        p <= r.1 < s@.len(),
    decreases measure(s@.len() as int, p as int, 16),
{
    match consume_exec(s, p, Tok::Use) {
        Err(e) => (Err(e), p),
        Ok(p1) => {
            let (u, p2): (Result<Use, ParseError>, usize) = if peek_at(s, p1) == Tok::Fun {
                let (f, q) = parse_name_chain_at(s, adv_at(s, p1));
                match f {
                    Err(e) => (Err(e), q),
                    Ok(f) => match consume_exec(s, q, Tok::As) {
                        Err(e) => (Err(e), q),
                        Ok(q1) => {
                            let (ty, q2) = parse_name_chain_at(s, q1);
                            match ty {
                                Err(e) => (Err(e), q2),
                                Ok(ty) => match consume_exec(s, q2, Tok::Period) {
                                    Err(e) => (Err(e), q2),
                                    Ok(q3) => {
                                        let (m, q4) = parse_identifier_at(s, q3);
                                        match m {
                                            Err(e) => (Err(e), q4),
                                            Ok(m) => (Ok(Use::Fun(mods.visibility, f, ty, m)), q4),
                                        }
                                    },
                                },
                            }
                        },
                    },
                }
            } else {
                let (addr, q) = parse_leading_name_at(s, p1);
                match addr {
                    Err(e) => (Err(e), q),
                    Ok(addr) => match consume_exec(s, q, Tok::ColonColon) {
                        Err(e) => (Err(e), q),
                        Ok(q1) => if peek_at(s, q1) == Tok::LBrace {
                            let (l, q2) = parse_list_after_start_at(s, adv_at(s, q1), Tok::RBrace, ListKind::UseModule);
                            match l {
                                Err(e) => (Err(e), q2),
                                Ok(l) => (Ok(Use::NestedModuleUses(addr, Box::new(l))), q2),
                            }
                        } else {
                            let (it, q2) = parse_item_use_module_at(s, q1);
                            match it {
                                Err(e) => (Err(e), q2),
                                Ok(Item::UseModule(um)) => (Ok(Use::ModuleUse(addr, um)), q2),
                                Ok(_) => (Err(unexpected_exec(s, q1, Expected::Identifier)), q2),
                            }
                        },
                    },
                }
            };
            match u {
                Err(e) => (Err(e), p2),
                Ok(u) => {
                    match consume_exec(s, p2, Tok::Semicolon) {
                        Err(e) => (Err(e), p2),
                        Ok(p3) => (Ok(UseDecl { attributes, start, end: prev_end_exec(s, p3), use_: u }), p3),
                    }
                },
            }
        },
    }
}

fn parse_member_at(s: &Vec<Token>, p: usize) -> (r: (Result<MemberOut, ParseError>, usize))
    requires
        p < s@.len(),
    ensures
        r.0 == spec_member(s@, p as int).0,
        r.1 == spec_member(s@, p as int).1,
        p <= r.1 < s@.len(),
    decreases measure(s@.len() as int, p as int, 26),
{
    let (attrs, p1) = parse_attributes_at(s, p);
    match attrs {
        Err(e) => (Err(e), p1),
        Ok(attrs) => {
            let t = peek_at(s, p1);
            if t == Tok::Invariant {
                let (sp, q) = parse_spec_block_at(s, p1);
                match sp {
                    Err(e) => (Err(e), q),
                    Ok(sp) => match consume_exec(s, q, Tok::Semicolon) {
                        Err(e) => (Err(e), q),
                        Ok(q1) => (Ok(MemberOut::Member(Box::new(ModuleMember::Spec(sp)))), q1),
                    },
                }
            } else if t == Tok::Spec {
                let t1 = peek_ahead(s, p1, 1);
                let from_fun = t1 == Tok::Fun || t1 == Tok::Native;
                let q = if from_fun {
                    adv_at(s, p1)
                } else {
                    p1
                };
                if from_fun && peek_ahead(s, q, 1) == Tok::Identifier && peek_ahead(s, q, 2) == Tok::LBrace {
                    (Err(unexpected_exec(s, q, Expected::SpecWithoutFun)), q)
                } else {
                    let (sp, q1) = parse_spec_block_at(s, q);
                    match sp {
                        Err(e) => (Err(e), q1),
                        Ok(sp) => (Ok(MemberOut::Member(Box::new(ModuleMember::Spec(sp)))), q1),
                    }
                }
            } else if t == Tok::Friend {
                let (f, q) = parse_friend_decl_at(s, p1, attrs);
                match f {
                    Err(e) => (Err(e), q),
                    Ok(f) => (Ok(MemberOut::Member(Box::new(ModuleMember::Friend(Box::new(f))))), q),
                }
            } else {
                let start = start_at_exec(s, p1);
                let (m, p2) = parse_modifiers_at(s, p1, empty_modifiers_exec());
                match m {
                    Err(e) => (Err(e), p2),
                    Ok(mods) => {
                        let t2 = peek_at(s, p2);
                        if t2 == Tok::Const {
                            let (c, q) = parse_constant_decl_at(s, p2, attrs, start);
                            match c {
                                Err(e) => (Err(e), q),
                                Ok(c) => (Ok(MemberOut::Member(Box::new(ModuleMember::Constant(Box::new(c))))), q),
                            }
                        } else if t2 == Tok::Fun {
                            let (f, q) = parse_function_decl_at(s, p2, attrs, start, mods);
                            match f {
                                Err(e) => (Err(e), q),
                                Ok(f) => (Ok(MemberOut::Member(Box::new(ModuleMember::Function(Box::new(f))))), q),
                            }
                        } else if t2 == Tok::Struct {
                            let (d, q) = parse_struct_decl_at(s, p2, attrs, start, mods);
                            match d {
                                Err(e) => (Err(e), q),
                                Ok(d) => (Ok(MemberOut::Member(Box::new(ModuleMember::Struct(Box::new(d))))), q),
                            }
                        } else if t2 == Tok::Use {
                            let (u, q) = parse_use_decl_at(s, p2, attrs, start, mods);
                            match u {
                                Err(e) => (Err(e), q),
                                Ok(u) => (Ok(MemberOut::Member(Box::new(ModuleMember::Use(Box::new(u))))), q),
                            }
                        } else if t2 == Tok::Module {
                            (Ok(MemberOut::ContinueToModule(attrs, unexpected_exec(s, p2, Expected::ModuleMember))), p2)
                        } else {
                            (Err(unexpected_exec(s, p2, Expected::ModuleMember)), p2)
                        }
                    },
                }
            }
        },
    }
}

#[verifier::rlimit(100)]
fn parse_module_members_at(s: &Vec<Token>, p: usize) -> (r: (Result<MembersOut, ParseError>, usize))
    requires
        p < s@.len(),
    ensures
        r.0 == spec_module_members(s@, p as int).0,
        r.1 == spec_module_members(s@, p as int).1,
        p <= r.1 < s@.len(),
    decreases measure(s@.len() as int, p as int, 27),
{
    if peek_at(s, p) == Tok::RBrace {
        (Ok(MembersOut { members: Members::Nil, next: None, diags: Diags::Nil, stop: false }), p)
    } else {
        let (m, p1) = parse_member_at(s, p);
        match m {
            Ok(MemberOut::Member(m)) => if p1 <= p {
                (Ok(MembersOut { members: Members::Cons(m, Box::new(Members::Nil)), next: None, diags: Diags::Nil, stop: true }), p1)
            } else {
                let (rest, p2) = parse_module_members_at(s, p1);
                match rest {
                    Err(e) => (Err(e), p2),
                    Ok(rest) => (Ok(MembersOut { members: Members::Cons(m, Box::new(rest.members)), next: rest.next, diags: rest.diags, stop: rest.stop }), p2),
                }
            },
            Ok(MemberOut::ContinueToModule(attrs, err)) => (Ok(MembersOut { members: Members::Nil, next: Some(Box::new(attrs)), diags: Diags::Cons(Diag::Syntax(err), Box::new(Diags::Nil)), stop: true }), p1),
            Err(err) => {
                let q = skip_to_exec(s, p1, 0);
                let t = peek_at(s, q);
                if t == Tok::EOF || t == Tok::Module || q <= p {
                    (Ok(MembersOut { members: Members::Nil, next: None, diags: Diags::Cons(Diag::Syntax(err), Box::new(Diags::Nil)), stop: true }), q)
                } else {
                    let (rest, q1) = parse_module_members_at(s, q);
                    match rest {
                        Err(e) => (Err(e), q1),
                        Ok(rest) => (Ok(MembersOut { members: rest.members, next: rest.next, diags: Diags::Cons(Diag::Syntax(err), Box::new(rest.diags)), stop: rest.stop }), q1),
                    }
                }
            },
        }
    }
}

fn parse_module_at(s: &Vec<Token>, p: usize, attrs: AttrGroups) -> (r: (Result<ModuleOut, Failed>, usize))
    requires
        p < s@.len(),
    ensures
        r.0 == spec_module(s@, p as int, attrs).0,
        r.1 == spec_module(s@, p as int, attrs).1,
        p <= r.1 < s@.len(),
    decreases measure(s@.len() as int, p as int, 28),
{
    let start = start_at_exec(s, p);
    let is_spec = peek_at(s, p) == Tok::Spec;
    let r1: Result<usize, ParseError> = if is_spec {
        Ok(adv_at(s, p))
    } else {
        consume_exec(s, p, Tok::Module)
    };
    match r1 {
        Err(e) => (Err(Failed { error: e, diags: Diags::Nil }), p),
        Ok(p1) => {
            let t1 = peek_at(s, p1);
            let (n1, p2) = parse_leading_name_at(s, p1);
            match n1 {
                Err(e) => (Err(Failed { error: e, diags: Diags::Nil }), p2),
                Ok(n1) => {
                    let (an, p3): (Result<(Option<Span>, Span), ParseError>, usize) = if t1 == Tok::NumValue || peek_at(s, p2) == Tok::ColonColon {
                        match consume_exec(s, p2, Tok::ColonColon) {
                            Err(e) => (Err(e), p2),
                            Ok(q) => {
                                let (name, q1) = parse_identifier_at(s, q);
                                match name {
                                    Err(e) => (Err(e), q1),
                                    Ok(name) => (Ok((Some(n1), name)), q1),
                                }
                            },
                        }
                    } else {
                        (Ok((None, n1)), p2)
                    };
                    match an {
                        Err(e) => (Err(Failed { error: e, diags: Diags::Nil }), p3),
                        Ok((address, name)) => match consume_exec(s, p3, Tok::LBrace) {
                            Err(e) => (Err(Failed { error: e, diags: Diags::Nil }), p3),
                            Ok(p4) => {
                                let (ms, p5) = parse_module_members_at(s, p4);
                                match ms {
                                    Err(e) => (Err(Failed { error: e, diags: Diags::Nil }), p5),
                                    Ok(ms) => {
                                        let stop = ms.stop;
                                        let closed: Result<usize, ParseError> = if stop {
                                            Ok(p5)
                                        } else {
                                            consume_exec(s, p5, Tok::RBrace)
                                        };
                                        match closed {
                                            Err(e) => (Err(Failed { error: e, diags: ms.diags }), p5),
                                            Ok(p6) => (
                                                Ok(
                                                    ModuleOut {
                                                        def: ModuleDefinition {
                                                            attributes: attrs,
                                                            start,
                                                            end: prev_end_exec(s, p6),
                                                            address,
                                                            name,
                                                            is_spec_module: is_spec,
                                                            members: ms.members,
                                                        },
                                                        next: ms.next,
                                                        diags: ms.diags,
                                                    },
                                                ),
                                                p6,
                                            ),
                                        }
                                    },
                                }
                            },
                        },
                    }
                },
            }
        },
    }
}

fn parse_file_def_modules_at(s: &Vec<Token>, p: usize, attrs: AttrGroups) -> (r: (Result<(Definitions, Diags), Failed>, usize))
    requires
        p < s@.len(),
    ensures
        r.0 == spec_file_def_modules(s@, p as int, attrs).0,
        r.1 == spec_file_def_modules(s@, p as int, attrs).1,
        p <= r.1 < s@.len(),
    decreases measure(s@.len() as int, p as int, 29),
{
    let (m, p1) = parse_module_at(s, p, attrs);
    match m {
        Err(f) => (Err(f), p1),
        Ok(out) => {
            let def = Definition::Module(Box::new(out.def));
            match out.next {
                None => (Ok((Definitions::Cons(Box::new(def), Box::new(Definitions::Nil)), out.diags)), p1),
                Some(a) => if p1 <= p {
                    (Ok((Definitions::Cons(Box::new(def), Box::new(Definitions::Nil)), out.diags)), p1)
                } else {
                    let (rest, p2) = parse_file_def_modules_at(s, p1, *a);
                    match rest {
                        Err(f) => (Err(Failed { error: f.error, diags: diags_append_exec(out.diags, f.diags) }), p2),
                        Ok((defs, d)) => (Ok((Definitions::Cons(Box::new(def), Box::new(defs)), diags_append_exec(out.diags, d))), p2),
                    }
                },
            }
        },
    }
}

fn parse_address_modules_at(s: &Vec<Token>, p: usize, pending: Option<Box<AttrGroups>>) -> (r: (Result<(Modules, Diags), Failed>, usize))
    requires
        p < s@.len(),
    ensures
        r.0 == spec_address_modules(s@, p as int, pending).0,
        r.1 == spec_address_modules(s@, p as int, pending).1,
        p <= r.1 < s@.len(),
    decreases measure(s@.len() as int, p as int, 29),
{
    let t = peek_at(s, p);
    if pending.is_none() && (t == Tok::RBrace || t == Tok::EOF) {
        (Ok((Modules::Nil, Diags::Nil)), p)
    } else {
        let (attrs, p1): (Result<AttrGroups, ParseError>, usize) = match pending {
            Some(a) => (Ok(*a), p),
            None => parse_attributes_at(s, p),
        };
        match attrs {
            Err(e) => (Err(Failed { error: e, diags: Diags::Nil }), p1),
            Ok(attrs) => {
                let (m, p2) = parse_module_at(s, p1, attrs);
                match m {
                    Err(f) => (Err(f), p2),
                    Ok(out) => if p2 <= p {
                        (Ok((Modules::Cons(Box::new(out.def), Box::new(Modules::Nil)), out.diags)), p2)
                    } else {
                        let (rest, p3) = parse_address_modules_at(s, p2, out.next);
                        match rest {
                            Err(f) => (Err(Failed { error: f.error, diags: diags_append_exec(out.diags, f.diags) }), p3),
                            Ok((ms, d)) => (Ok((Modules::Cons(Box::new(out.def), Box::new(ms)), diags_append_exec(out.diags, d))), p3),
                        }
                    },
                }
            },
        }
    }
}

fn parse_address_block_at(s: &Vec<Token>, p: usize, attrs: AttrGroups) -> (r: (Result<(Definition, Diags), Failed>, usize))
    requires
        p < s@.len(),
    ensures
        r.0 == spec_address_block(s@, p as int, attrs).0,
        r.1 == spec_address_block(s@, p as int, attrs).1,
        p <= r.1 < s@.len(),
    decreases measure(s@.len() as int, p as int, 29),
{
    let t = peek_at(s, p);
    if !is_identifier_exec(t) {
        (Err(Failed { error: unexpected_exec(s, p, Expected::CodeUnit), diags: Diags::Nil }), p)
    } else if t != Tok::Address {
        (Err(Failed { error: unexpected_exec(s, p, Expected::CodeUnit), diags: Diags::Nil }), adv_at(s, p))
    } else {
        let kw = span_at_exec(s, p);
        let p1 = adv_at(s, p);
        let (addr, p2) = parse_leading_name_at(s, p1);
        match addr {
            Err(e) => (Err(Failed { error: e, diags: Diags::Nil }), p2),
            Ok(addr) => if peek_at(s, p2) != Tok::LBrace {
                (Err(Failed { error: unexpected_exec(s, p2, Expected::Token(Tok::LBrace)), diags: Diags::Nil }), p2)
            } else {
                let p3 = adv_at(s, p2);
                let (ms, p4) = parse_address_modules_at(s, p3, None);
                match ms {
                    Err(f) => (Err(f), p4),
                    Ok((modules, d)) => {
                        let p5 = adv_at(s, p4);
                        (
                            Ok(
                                (
                                    Definition::Address(Box::new(AddressDefinition { attributes: attrs, start: addr.start, end: addr.end, addr, modules })),
                                    diags_append_exec(d, Diags::Cons(Diag::DeprecatedAddressBlock(kw), Box::new(Diags::Nil))),
                                ),
                            ),
                            p5,
                        )
                    },
                }
            },
        }
    }
}

fn parse_file_def_at(s: &Vec<Token>, p: usize) -> (r: (Result<(Definitions, Diags), Failed>, usize))
    requires
        p < s@.len(),
    ensures
        r.0 == spec_file_def(s@, p as int).0,
        r.1 == spec_file_def(s@, p as int).1,
        p <= r.1 < s@.len(),
    decreases measure(s@.len() as int, p as int, 30),
{
    let (attrs, p1) = parse_attributes_at(s, p);
    match attrs {
        Err(e) => (Err(Failed { error: e, diags: Diags::Nil }), p1),
        Ok(attrs) => {
            let t = peek_at(s, p1);
            if t == Tok::Spec || t == Tok::Module {
                parse_file_def_modules_at(s, p1, attrs)
            } else {
                let (a, p2) = parse_address_block_at(s, p1, attrs);
                match a {
                    Err(f) => (Err(f), p2),
                    Ok((def, d)) => (Ok((Definitions::Cons(Box::new(def), Box::new(Definitions::Nil)), d)), p2),
                }
            }
        },
    }
}

fn parse_file_at(s: &Vec<Token>, p: usize) -> (r: (Result<(Definitions, Diags), ParseError>, usize))
    requires
        p < s@.len(),
    ensures
        r.0 == spec_file(s@, p as int).0,
        r.1 == spec_file(s@, p as int).1,
        p <= r.1 < s@.len(),
    decreases measure(s@.len() as int, p as int, 31),
{
    if peek_at(s, p) == Tok::EOF {
        (Ok((Definitions::Nil, Diags::Nil)), p)
    } else {
        let (r, p1) = parse_file_def_at(s, p);
        match r {
            Ok((defs, d)) => if p1 <= p {
                (Ok((defs, d)), p1)
            } else {
                let (rest, p2) = parse_file_at(s, p1);
                match rest {
                    Err(e) => (Err(e), p2),
                    Ok((defs2, d2)) => (Ok((defs_append_exec(defs, defs2), diags_append_exec(d, d2))), p2),
                }
            },
            Err(f) => {
                let q = skip_to_exec(s, p1, 1);
                let d = diags_append_exec(f.diags, Diags::Cons(Diag::Syntax(f.error), Box::new(Diags::Nil)));
                if q <= p {
                    (Ok((Definitions::Nil, d)), q)
                } else {
                    let (rest, q1) = parse_file_at(s, q);
                    match rest {
                        Err(e) => (Err(e), q1),
                        Ok((defs2, d2)) => (Ok((defs2, diags_append_exec(d, d2))), q1),
                    }
                }
            },
        }
    }
}

// ---------------------------------------------------------------------------
// The token stream as a cursor, and the public entry points
// ---------------------------------------------------------------------------

/// A stream of tokens ending in an end-of-file token, and the position of the
/// next token to read.
pub struct Tokens {
    toks: Vec<Token>,
    pos: usize,
}

impl View for Tokens {
    type V = (Seq<Token>, int);

    closed spec fn view(&self) -> (Seq<Token>, int) {
        (self.toks@, self.pos as int)
    }
}

impl Tokens {
    /// The position is that of a token of the stream.
    pub closed spec fn wf(&self) -> bool {
        self.pos < self.toks@.len()
    }

    /// The tokens of a source of `source_len` bytes, followed by the
    /// end-of-file token at its end; reading starts at the first.
    pub fn new(toks: Vec<Token>, source_len: usize) -> (r: Tokens)
        ensures
            r.wf(),
            r@.0 == toks@.push(Token { tok: Tok::EOF, start: source_len, end: source_len }),
            r@.1 == 0,
    {
        let mut toks = toks;
        toks.push(Token { tok: Tok::EOF, start: source_len, end: source_len });
        Tokens { toks, pos: 0 }
    }

    /// The kind of the next token.
    pub fn peek(&self) -> (r: Tok)
        requires
            self.wf(),
        ensures
            r == peek(self@.0, self@.1),
    {
        peek_at(&self.toks, self.pos)
    }

    /// The error for an unexpected token at the cursor.
    pub fn error_here(&self, expected: Expected) -> (r: ParseError)
        requires
            self.wf(),
        ensures
            r == unexpected(self@.0, self@.1, expected),
    {
        unexpected_exec(&self.toks, self.pos, expected)
    }

    /// The position of the next token.
    pub fn position(&self) -> (r: usize)
        ensures
            r == self@.1,
    {
        self.pos
    }
}

/// Parses an expression at the cursor (`Exp`).
pub fn parse_exp(toks: &mut Tokens) -> (r: Result<Exp, ParseError>)
    requires
        old(toks).wf(),
    ensures
        final(toks).wf(),
        final(toks)@.0 == old(toks)@.0,
        old(toks)@.1 <= final(toks)@.1,
        (r, final(toks)@.1) == spec_exp(old(toks)@.0, old(toks)@.1),
{
    let (r, p) = parse_exp_at(&toks.toks, toks.pos);
    toks.pos = p;
    r
}

/// Parses a unary expression at the cursor (`UnaryExp`).
pub fn parse_unary_exp(toks: &mut Tokens) -> (r: Result<Exp, ParseError>)
    requires
        old(toks).wf(),
    ensures
        final(toks).wf(),
        final(toks)@.0 == old(toks)@.0,
        old(toks)@.1 <= final(toks)@.1,
        (r, final(toks)@.1) == spec_unary(old(toks)@.0, old(toks)@.1),
{
    let (r, p) = parse_unary_at(&toks.toks, toks.pos);
    toks.pos = p;
    r
}

/// Continues a binary-operator expression after its left operand `lhs`, with
/// operators of precedence at least `min_prec`.
pub fn parse_binop_exp(toks: &mut Tokens, lhs: Exp, min_prec: u32) -> (r: Result<Exp, ParseError>)
    requires
        old(toks).wf(),
    ensures
        final(toks).wf(),
        final(toks)@.0 == old(toks)@.0,
        old(toks)@.1 <= final(toks)@.1,
        (r, final(toks)@.1) == spec_binop(old(toks)@.0, old(toks)@.1, lhs, min_prec),
{
    let (r, p) = parse_binop_at(&toks.toks, toks.pos, lhs, min_prec);
    toks.pos = p;
    r
}

/// Parses an expression term at the cursor (`Term`).
pub fn parse_term(toks: &mut Tokens) -> (r: Result<Exp, ParseError>)
    requires
        old(toks).wf(),
    ensures
        final(toks).wf(),
        final(toks)@.0 == old(toks)@.0,
        old(toks)@.1 <= final(toks)@.1,
        (r, final(toks)@.1) == spec_term(old(toks)@.0, old(toks)@.1),
{
    let (r, p) = parse_term_at(&toks.toks, toks.pos);
    toks.pos = p;
    r
}

/// Parses a control expression at the cursor, which must start one
/// (`ControlExp`); the flag says whether it ends in a block.
pub fn parse_control_exp(toks: &mut Tokens) -> (r: Result<(Exp, bool), ParseError>)
    requires
        old(toks).wf(),
        is_control_exp(peek(old(toks)@.0, old(toks)@.1)),
    ensures
        final(toks).wf(),
        final(toks)@.0 == old(toks)@.0,
        final(toks)@.1 > old(toks)@.1,
        (r, final(toks)@.1) == spec_control(old(toks)@.0, old(toks)@.1),
{
    let (r, p) = parse_control_at(&toks.toks, toks.pos);
    toks.pos = p;
    r
}

/// Parses the rest of a block after its `{`, through its `}` (`Sequence`).
pub fn parse_sequence(toks: &mut Tokens) -> (r: Result<Sequence, ParseError>)
    requires
        old(toks).wf(),
    ensures
        final(toks).wf(),
        final(toks)@.0 == old(toks)@.0,
        old(toks)@.1 <= final(toks)@.1,
        (r, final(toks)@.1) == spec_sequence(old(toks)@.0, old(toks)@.1),
{
    let (r, p) = parse_sequence_at(&toks.toks, toks.pos);
    toks.pos = p;
    r
}

/// Parses a spec quantifier at the cursor, which must start one
/// (`Quantifier`).
pub fn parse_quant(toks: &mut Tokens) -> (r: Result<Exp, ParseError>)
    requires
        old(toks).wf(),
        is_quant(old(toks)@.0, old(toks)@.1),
    ensures
        final(toks).wf(),
        final(toks)@.0 == old(toks)@.0,
        old(toks)@.1 <= final(toks)@.1,
        (r, final(toks)@.1) == spec_quant(old(toks)@.0, old(toks)@.1),
{
    let (r, p) = parse_quant_at(&toks.toks, toks.pos);
    toks.pos = p;
    r
}

/// Parses a type at the cursor (`Type`).
pub fn parse_type(toks: &mut Tokens) -> (r: Result<Type, ParseError>)
    requires
        old(toks).wf(),
    ensures
        final(toks).wf(),
        final(toks)@.0 == old(toks)@.0,
        old(toks)@.1 <= final(toks)@.1,
        (r, final(toks)@.1) == spec_type(old(toks)@.0, old(toks)@.1, false),
{
    let (r, p) = parse_type_at(&toks.toks, toks.pos, false);
    toks.pos = p;
    r
}

/// Parses an address block at the cursor, with the attributes read before it
/// (`AddressBlock`), and the reports made while its modules were parsed.
pub fn parse_address_block(toks: &mut Tokens, attributes: AttrGroups) -> (r: Result<(Definition, Diags), Failed>)
    requires
        old(toks).wf(),
    ensures
        final(toks).wf(),
        final(toks)@.0 == old(toks)@.0,
        old(toks)@.1 <= final(toks)@.1,
        (r, final(toks)@.1) == spec_address_block(old(toks)@.0, old(toks)@.1, attributes),
{
    let (r, p) = parse_address_block_at(&toks.toks, toks.pos, attributes);
    toks.pos = p;
    r
}

/// Parses a module at the cursor, with the attributes read before it
/// (`Module`).
pub fn parse_module(toks: &mut Tokens, attributes: AttrGroups) -> (r: Result<ModuleOut, Failed>)
    requires
        old(toks).wf(),
    ensures
        final(toks).wf(),
        final(toks)@.0 == old(toks)@.0,
        old(toks)@.1 <= final(toks)@.1,
        (r, final(toks)@.1) == spec_module(old(toks)@.0, old(toks)@.1, attributes),
{
    let (r, p) = parse_module_at(&toks.toks, toks.pos, attributes);
    toks.pos = p;
    r
}

/// Parses a module member at the cursor, with its attributes.
pub fn parse_module_member(toks: &mut Tokens) -> (r: Result<MemberOut, ParseError>)
    requires
        old(toks).wf(),
    ensures
        final(toks).wf(),
        final(toks)@.0 == old(toks)@.0,
        old(toks)@.1 <= final(toks)@.1,
        (r, final(toks)@.1) == spec_member(old(toks)@.0, old(toks)@.1),
{
    let (r, p) = parse_member_at(&toks.toks, toks.pos);
    toks.pos = p;
    r
}

/// Parses attribute groups `#[...]` at the cursor.
pub fn parse_attributes(toks: &mut Tokens) -> (r: Result<AttrGroups, ParseError>)
    requires
        old(toks).wf(),
    ensures
        final(toks).wf(),
        final(toks)@.0 == old(toks)@.0,
        old(toks)@.1 <= final(toks)@.1,
        (r, final(toks)@.1) == spec_attributes(old(toks)@.0, old(toks)@.1),
{
    let (r, p) = parse_attributes_at(&toks.toks, toks.pos);
    toks.pos = p;
    r
}

/// Parses the definitions of a file from the cursor to its end, reporting
/// each definition that fails and resuming at the next `module` or `spec`.
pub fn parse_file(toks: &mut Tokens) -> (r: Result<(Definitions, Diags), ParseError>)
    requires
        old(toks).wf(),
    ensures
        final(toks).wf(),
        final(toks)@.0 == old(toks)@.0,
        old(toks)@.1 <= final(toks)@.1,
        (r, final(toks)@.1) == spec_file(old(toks)@.0, old(toks)@.1),
{
    let (r, p) = parse_file_at(&toks.toks, toks.pos);
    toks.pos = p;
    r
}

} // verus!
