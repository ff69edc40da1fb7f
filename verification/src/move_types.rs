//! Move type tags: the names of Move types, with their mathematical views.
use vstd::prelude::*;

use crate::base_types::IotaAddress;

verus! {

/// A Move type.
#[derive(Debug, PartialEq, Eq)]
pub enum TypeTag {
    Bool,
    U8,
    U64,
    U128,
    Address,
    Signer,
    Vector(Box<TypeTag>),
    Struct(Box<StructTag>),
    U16,
    U32,
    U256,
}

/// A Move struct type: its defining address, module, name and type arguments.
#[derive(Debug, PartialEq, Eq)]
pub struct StructTag {
    pub address: IotaAddress,
    pub module: String,
    pub name: String,
    pub type_params: Vec<TypeTag>,
}

/// The mathematical value of a `TypeTag`.
pub enum TypeTagView {
    Bool,
    U8,
    U64,
    U128,
    Address,
    Signer,
    Vector(Box<TypeTagView>),
    Struct(Box<StructTagView>),
    U16,
    U32,
    U256,
}

/// The mathematical value of a `StructTag`.
pub struct StructTagView {
    pub address: IotaAddress,
    pub module: Seq<char>,
    pub name: Seq<char>,
    pub type_params: Seq<TypeTagView>,
}

/// The views of a sequence of type tags.
pub open spec fn tags_view(tags: Seq<TypeTag>) -> Seq<TypeTagView>
    decreases tags,
{
    if tags.len() == 0 {
        Seq::empty()
    } else {
        tags_view(tags.drop_last()).push(tags.last().view())
    }
}

/// Sequences of type tags whose elements have equal views have equal views.
pub proof fn lemma_tags_view_eq(a: Seq<TypeTag>, b: Seq<TypeTag>)
    requires
        a.len() == b.len(),
        forall|j: int| 0 <= j < a.len() ==> a[j].view() == b[j].view(),
    ensures
        tags_view(a) == tags_view(b),
    decreases a.len(),
{
    if a.len() > 0 {
        lemma_tags_view_eq(a.drop_last(), b.drop_last());
    }
}

impl TypeTag {
    /// The mathematical value of the tag.
    pub open spec fn view(&self) -> TypeTagView
        decreases self,
    {
        match self {
            TypeTag::Bool => TypeTagView::Bool,
            TypeTag::U8 => TypeTagView::U8,
            TypeTag::U64 => TypeTagView::U64,
            TypeTag::U128 => TypeTagView::U128,
            TypeTag::Address => TypeTagView::Address,
            TypeTag::Signer => TypeTagView::Signer,
            TypeTag::Vector(t) => TypeTagView::Vector(Box::new(t.view())),
            TypeTag::Struct(s) => TypeTagView::Struct(Box::new(s.view())),
            TypeTag::U16 => TypeTagView::U16,
            TypeTag::U32 => TypeTagView::U32,
            TypeTag::U256 => TypeTagView::U256,
        }
    }

    /// A copy of the tag.
    pub fn duplicate(&self) -> (r: TypeTag)
        ensures
            r.view() == self.view(),
        decreases self,
    {
        match self {
            TypeTag::Bool => TypeTag::Bool,
            TypeTag::U8 => TypeTag::U8,
            TypeTag::U64 => TypeTag::U64,
            TypeTag::U128 => TypeTag::U128,
            TypeTag::Address => TypeTag::Address,
            TypeTag::Signer => TypeTag::Signer,
            TypeTag::Vector(t) => TypeTag::Vector(Box::new(t.duplicate())),
            TypeTag::Struct(s) => TypeTag::Struct(Box::new(s.duplicate())),
            TypeTag::U16 => TypeTag::U16,
            TypeTag::U32 => TypeTag::U32,
            TypeTag::U256 => TypeTag::U256,
        }
    }
}

impl StructTag {
    /// The mathematical value of the tag.
    pub open spec fn view(&self) -> StructTagView
        decreases self,
    {
        StructTagView {
            address: self.address,
            module: self.module@,
            name: self.name@,
            type_params: tags_view(self.type_params@),
        }
    }

    /// A copy of the tag.
    pub fn duplicate(&self) -> (r: StructTag)
        ensures
            r.view() == self.view(),
        decreases self,
    {
        let mut ps: Vec<TypeTag> = Vec::new();
        let mut i: usize = 0;
        while i < self.type_params.len()
            invariant
                i <= self.type_params@.len(),
                ps@.len() == i,
                forall|j: int| 0 <= j < i ==> ps@[j].view() == self.type_params@[j].view(),
            decreases self.type_params@.len() - i,
        {
            ps.push(self.type_params[i].duplicate());
            i = i + 1;
        }
        let r = StructTag {
            address: self.address,
            module: self.module.clone(),
            name: self.name.clone(),
            type_params: ps,
        };
        proof {
            lemma_tags_view_eq(ps@, self.type_params@);
        }
        r
    }
}

} // verus!
