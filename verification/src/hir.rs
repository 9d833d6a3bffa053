//! The HIR node shapes the index stores: functions, statements and
//! expressions, plus the records that hang off them.

use vstd::prelude::*;
use crate::ast::Ident;
use crate::location::Location;
use crate::node_interner::{DefinitionId, ExprId, StmtId, StructId};
use crate::types::{Type, TypeVariableId};

verus! {

/// A resolved identifier occurrence.
#[derive(Clone, Copy, PartialEq, Eq, Structural, Debug)]
pub struct HirIdent {
    pub id: DefinitionId,
    pub location: Location,
}

#[derive(Clone, PartialEq, Eq, Debug)]
pub struct HirBlockExpression(pub Vec<StmtId>);

/// A struct literal; the struct is referred to by its stable id.
#[derive(Clone, PartialEq, Eq, Debug)]
pub struct HirConstructorExpression {
    pub type_id: StructId,
    pub fields: Vec<(Ident, ExprId)>,
}

/// A field access `lhs.rhs`.
#[derive(Clone, PartialEq, Eq, Debug)]
pub struct HirMemberAccess {
    pub lhs: ExprId,
    pub rhs: Ident,
}

#[derive(Clone, PartialEq, Eq, Debug)]
pub struct HirCallExpression {
    pub func: ExprId,
    pub arguments: Vec<ExprId>,
}

#[derive(Clone, PartialEq, Eq, Debug)]
pub enum HirExpression {
    Ident(HirIdent),
    Literal(u64),
    Block(HirBlockExpression),
    Constructor(HirConstructorExpression),
    MemberAccess(HirMemberAccess),
    Call(HirCallExpression),
    Error,
}

impl HirExpression {
    /// The canonical empty block, pre-seeded at index 0 of every store.
    pub fn empty_block() -> (r: HirExpression)
        ensures
            r is Block,
            r->Block_0.0@.len() == 0,
    {
        HirExpression::Block(HirBlockExpression(Vec::new()))
    }
}

/// Whether an expression is an empty block.
pub open spec fn is_empty_block(e: HirExpression) -> bool {
    &&& e is Block
    &&& e->Block_0.0@.len() == 0
}

#[derive(Clone, Copy, PartialEq, Eq, Structural, Debug)]
pub struct HirLetStatement {
    pub expression: ExprId,
}

#[derive(Clone, Copy, PartialEq, Eq, Structural, Debug)]
pub enum HirStatement {
    Let(HirLetStatement),
    Expression(ExprId),
    Error,
}

/// A function body: the id of its block expression.
#[derive(Clone, Copy, PartialEq, Eq, Structural, Debug)]
pub struct HirFunction(pub ExprId);

impl HirFunction {
    pub fn empty() -> (r: HirFunction)
        ensures
            r == HirFunction(ExprId::spec_empty_block_id()),
    {
        HirFunction(ExprId::empty_block_id())
    }

    pub fn unchecked_from_expr(expr_id: ExprId) -> (r: HirFunction)
        ensures
            r == HirFunction(expr_id),
    {
        HirFunction(expr_id)
    }

    pub fn as_expr(&self) -> (r: ExprId)
        ensures
            r == self.0,
    {
        self.0
    }
}

/// The post-resolution record of a function: its name, its location, and
/// its (possibly generalized) type.
#[derive(Clone, PartialEq, Eq, Debug)]
pub struct FuncMeta {
    pub name: Ident,
    pub location: Location,
    pub typ: Type,
}

/// The signature of one trait method.
#[derive(Clone, PartialEq, Eq, Debug)]
pub struct TraitFunction {
    pub name: Ident,
    pub typ: Type,
}

/// A trait: identity, declared generics, self-type variable, and the
/// methods, constants and associated types collected so far.
#[derive(Clone, PartialEq, Eq, Debug)]
pub struct Trait {
    pub id: crate::node_interner::TraitId,
    pub name: Ident,
    pub crate_id: crate::node_interner::CrateId,
    pub location: Location,
    pub generics: Vec<TypeVariableId>,
    pub self_type_typevar_id: TypeVariableId,
    pub self_type_typevar: TypeVariableId,
    pub methods: Vec<TraitFunction>,
    pub method_ids: Vec<(String, crate::node_interner::FuncId)>,
    pub constants: Vec<Ident>,
    pub types: Vec<Ident>,
}

/// One obligation `typ: trait_id` of a `where` clause, and the element of
/// the failure chains the solver reports.
#[derive(Clone, PartialEq, Eq, Debug)]
pub struct TraitConstraint {
    pub typ: Type,
    pub trait_id: crate::node_interner::TraitId,
}

impl TraitConstraint {
    pub fn new(typ: Type, trait_id: crate::node_interner::TraitId) -> (r: TraitConstraint)
        ensures
            r == (TraitConstraint { typ, trait_id }),
    {
        TraitConstraint { typ, trait_id }
    }
}

/// A concrete trait implementation: the impl'd trait, its object type, the
/// span of its defining identifier, its methods and its `where` clause.
#[derive(Clone, PartialEq, Eq, Debug)]
pub struct TraitImpl {
    pub ident: Ident,
    pub typ: Type,
    pub trait_id: crate::node_interner::TraitId,
    pub file: crate::location::FileId,
    pub methods: Vec<crate::node_interner::FuncId>,
    pub where_clause: Vec<TraitConstraint>,
}

/// A resolved struct: identity, name, field names and types, generics.
#[derive(Clone, PartialEq, Eq, Debug)]
pub struct StructType {
    pub id: StructId,
    pub name: Ident,
    pub location: Location,
    pub fields: Vec<(Ident, Type)>,
    pub generics: Vec<TypeVariableId>,
}

impl StructType {
    pub fn new(
        id: StructId,
        name: Ident,
        location: Location,
        fields: Vec<(Ident, Type)>,
        generics: Vec<TypeVariableId>,
    ) -> (r: StructType)
        ensures
            r == (StructType { id, name, location, fields, generics }),
    {
        StructType { id, name, location, fields, generics }
    }
}

/// A type alias: its name and, once resolved, the aliased type.
#[derive(Clone, PartialEq, Eq, Debug)]
pub struct TypeAliasType {
    pub id: crate::node_interner::TypeAliasId,
    pub name: Ident,
    pub span: crate::location::Span,
    pub typ: Type,
    pub generics: Vec<TypeVariableId>,
}

impl TypeAliasType {
    pub fn new(
        id: crate::node_interner::TypeAliasId,
        name: Ident,
        span: crate::location::Span,
        typ: Type,
        generics: Vec<TypeVariableId>,
    ) -> (r: TypeAliasType)
        ensures
            r == (TypeAliasType { id, name, span, typ, generics }),
    {
        TypeAliasType { id, name, span, typ, generics }
    }

    pub fn set_type_and_generics(&mut self, new_type: Type, generics: Vec<TypeVariableId>)
        ensures
            final(self).id == old(self).id,
            final(self).name == old(self).name,
            final(self).span == old(self).span,
            final(self).typ == new_type,
            final(self).generics == generics,
    {
        self.typ = new_type;
        self.generics = generics;
    }
}

} // verus!
