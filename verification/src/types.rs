//! The type language shared by the tables and the trait-impl solver.
//!
//! Type variables are plain identifiers; every binding of a variable lives in
//! an explicit [`TypeBindings`] map rather than in a shared mutable cell, so
//! the solver's behaviour is a pure function of the bindings it is handed.
//! Type lists are cons lists, which keeps the whole type language a
//! first-order datatype with structural equality.

use vstd::prelude::*;
use crate::node_interner::{StructId, TraitId};
use crate::tables::{alist_get, alist_insert, KeyEq, Table};

verus! {

#[derive(Clone, Copy, PartialEq, Eq, Structural, Debug)]
pub struct TypeVariableId(pub u64);

impl KeyEq for TypeVariableId {
    open spec fn key_eqv(self, other: Self) -> bool {
        self == other
    }

    proof fn key_eqv_laws(a: Self, b: Self, c: Self) {
    }

    fn key_eq(&self, other: &Self) -> (r: bool) {
        let r = self.0 == other.0;
        proof {
            assert(self.key_eqv(*other) == (*self == *other));
        }
        r
    }
}

#[derive(Clone, Copy, PartialEq, Eq, Structural, Debug)]
pub enum TypeVariableKind {
    Normal,
    IntegerOrField,
}

#[derive(Clone, Copy, PartialEq, Eq, Structural, Debug)]
pub enum Signedness {
    Unsigned,
    Signed,
}

/// A type of the object language. `Forall` marks a generalized function
/// signature whose bound variables are listed first; `Error` is the recovery
/// type that unifies with everything.
#[derive(PartialEq, Eq, Debug)]
pub enum Type {
    FieldElement,
    Array(Box<Type>, Box<Type>),
    Integer(Signedness, u32),
    Bool,
    String(Box<Type>),
    FmtString(Box<Type>, Box<Type>),
    Unit,
    Tuple(Box<TypeList>),
    Struct(StructId, Box<TypeList>),
    TraitAsType(TraitId),
    NamedGeneric(TypeVariableId),
    Function(Box<TypeList>, Box<Type>, Box<Type>),
    MutableReference(Box<Type>),
    Forall(Box<TypeList>, Box<Type>),
    Constant(u64),
    NotConstant,
    TypeVariable(TypeVariableId, TypeVariableKind),
    Error,
}

/// A list of types, as a cons list so that the whole type language is a
/// plain recursive datatype.
#[derive(PartialEq, Eq, Debug)]
pub enum TypeList {
    Nil,
    Cons(Box<Type>, Box<TypeList>),
}

impl Type {
    /// A fresh unification variable.
    pub fn type_variable(id: TypeVariableId) -> (r: Type)
        ensures
            r == Type::TypeVariable(id, TypeVariableKind::Normal),
    {
        Type::TypeVariable(id, TypeVariableKind::Normal)
    }
}

/// Explicit bindings of type variables, used both for the ambient universe
/// of the index and for the local bindings a unification produces.
pub type TypeBindings = Table<TypeVariableId, Type>;

/// The successor of a variable counter, saturating at the top so that
/// minting an id can never overflow. No freshness is claimed of ids minted
/// at the ceiling.
pub open spec fn spec_sat_inc(c: u64) -> u64 {
    if c == u64::MAX {
        c
    } else {
        (c + 1) as u64
    }
}

pub fn sat_inc(c: u64) -> (r: u64)
    ensures
        r == spec_sat_inc(c),
{
    if c == u64::MAX {
        c
    } else {
        c + 1
    }
}

pub fn clone_type(t: &Type) -> (r: Type)
    ensures
        r == *t,
    decreases *t,
{
    match t {
        Type::FieldElement => Type::FieldElement,
        Type::Array(n, e) => Type::Array(Box::new(clone_type(n)), Box::new(clone_type(e))),
        Type::Integer(s, w) => Type::Integer(*s, *w),
        Type::Bool => Type::Bool,
        Type::String(l) => Type::String(Box::new(clone_type(l))),
        Type::FmtString(l, e) => Type::FmtString(Box::new(clone_type(l)), Box::new(clone_type(e))),
        Type::Unit => Type::Unit,
        Type::Tuple(ts) => Type::Tuple(Box::new(clone_type_list(ts))),
        Type::Struct(id, gs) => Type::Struct(*id, Box::new(clone_type_list(gs))),
        Type::TraitAsType(id) => Type::TraitAsType(*id),
        Type::NamedGeneric(id) => Type::NamedGeneric(*id),
        Type::Function(args, ret, env) => Type::Function(
            Box::new(clone_type_list(args)),
            Box::new(clone_type(ret)),
            Box::new(clone_type(env)),
        ),
        Type::MutableReference(e) => Type::MutableReference(Box::new(clone_type(e))),
        Type::Forall(vs, body) => Type::Forall(
            Box::new(clone_type_list(vs)),
            Box::new(clone_type(body)),
        ),
        Type::Constant(c) => Type::Constant(*c),
        Type::NotConstant => Type::NotConstant,
        Type::TypeVariable(id, k) => Type::TypeVariable(*id, *k),
        Type::Error => Type::Error,
    }
}

pub fn clone_type_list(l: &TypeList) -> (r: TypeList)
    ensures
        r == *l,
    decreases *l,
{
    match l {
        TypeList::Nil => TypeList::Nil,
        TypeList::Cons(h, t) => TypeList::Cons(
            Box::new(clone_type(h)),
            Box::new(clone_type_list(t)),
        ),
    }
}

impl Clone for Type {
    /// Cloning a type yields an equal type.
    fn clone(&self) -> (r: Self)
        ensures
            r == *self,
    {
        clone_type(self)
    }
}

impl Clone for TypeList {
    /// Cloning a type list yields an equal list.
    fn clone(&self) -> (r: Self)
        ensures
            r == *self,
    {
        clone_type_list(self)
    }
}

/// Whether the variable `id` occurs anywhere in `t` (syntactically, as a
/// unification variable or named generic).
pub open spec fn spec_occurs(id: TypeVariableId, t: Type) -> bool
    decreases t,
{
    match t {
        Type::Array(n, e) => spec_occurs(id, *n) || spec_occurs(id, *e),
        Type::String(l) => spec_occurs(id, *l),
        Type::FmtString(l, e) => spec_occurs(id, *l) || spec_occurs(id, *e),
        Type::Tuple(ts) => spec_occurs_list(id, *ts),
        Type::Struct(_, gs) => spec_occurs_list(id, *gs),
        Type::NamedGeneric(i) => i == id,
        Type::Function(args, ret, env) => spec_occurs_list(id, *args) || spec_occurs(id, *ret)
            || spec_occurs(id, *env),
        Type::MutableReference(e) => spec_occurs(id, *e),
        Type::Forall(vs, body) => spec_occurs_list(id, *vs) || spec_occurs(id, *body),
        Type::TypeVariable(i, _) => i == id,
        _ => false,
    }
}

pub open spec fn spec_occurs_list(id: TypeVariableId, l: TypeList) -> bool
    decreases l,
{
    match l {
        TypeList::Nil => false,
        TypeList::Cons(h, t) => spec_occurs(id, *h) || spec_occurs_list(id, *t),
    }
}

pub fn occurs(id: TypeVariableId, t: &Type) -> (r: bool)
    ensures
        r == spec_occurs(id, *t),
    decreases *t,
{
    match t {
        Type::Array(n, e) => occurs(id, n) || occurs(id, e),
        Type::String(l) => occurs(id, l),
        Type::FmtString(l, e) => occurs(id, l) || occurs(id, e),
        Type::Tuple(ts) => occurs_list(id, ts),
        Type::Struct(_, gs) => occurs_list(id, gs),
        Type::NamedGeneric(i) => i.0 == id.0,
        Type::Function(args, ret, env) => occurs_list(id, args) || occurs(id, ret) || occurs(
            id,
            env,
        ),
        Type::MutableReference(e) => occurs(id, e),
        Type::Forall(vs, body) => occurs_list(id, vs) || occurs(id, body),
        Type::TypeVariable(i, _) => i.0 == id.0,
        _ => false,
    }
}

pub fn occurs_list(id: TypeVariableId, l: &TypeList) -> (r: bool)
    ensures
        r == spec_occurs_list(id, *l),
    decreases *l,
{
    match l {
        TypeList::Nil => false,
        TypeList::Cons(h, t) => occurs(id, h) || occurs_list(id, t),
    }
}

/// Single-pass substitution: each variable bound in `b` is replaced by its
/// image verbatim; the image itself is not substituted again.
pub open spec fn spec_substitute(t: Type, b: Seq<(TypeVariableId, Type)>) -> Type
    decreases t,
{
    match t {
        Type::TypeVariable(id, _) => match alist_get(b, id) {
            Some(x) => x,
            None => t,
        },
        Type::NamedGeneric(id) => match alist_get(b, id) {
            Some(x) => x,
            None => t,
        },
        Type::Array(n, e) => Type::Array(
            Box::new(spec_substitute(*n, b)),
            Box::new(spec_substitute(*e, b)),
        ),
        Type::String(l) => Type::String(Box::new(spec_substitute(*l, b))),
        Type::FmtString(l, e) => Type::FmtString(
            Box::new(spec_substitute(*l, b)),
            Box::new(spec_substitute(*e, b)),
        ),
        Type::Tuple(ts) => Type::Tuple(Box::new(spec_substitute_list(*ts, b))),
        Type::Struct(id, gs) => Type::Struct(id, Box::new(spec_substitute_list(*gs, b))),
        Type::Function(args, ret, env) => Type::Function(
            Box::new(spec_substitute_list(*args, b)),
            Box::new(spec_substitute(*ret, b)),
            Box::new(spec_substitute(*env, b)),
        ),
        Type::MutableReference(e) => Type::MutableReference(Box::new(spec_substitute(*e, b))),
        Type::Forall(vs, body) => Type::Forall(vs, Box::new(spec_substitute(*body, b))),
        _ => t,
    }
}

pub open spec fn spec_substitute_list(l: TypeList, b: Seq<(TypeVariableId, Type)>) -> TypeList
    decreases l,
{
    match l {
        TypeList::Nil => TypeList::Nil,
        TypeList::Cons(h, t) => TypeList::Cons(
            Box::new(spec_substitute(*h, b)),
            Box::new(spec_substitute_list(*t, b)),
        ),
    }
}

pub fn substitute(t: &Type, b: &TypeBindings) -> (r: Type)
    ensures
        r == spec_substitute(*t, b.entries@),
    decreases *t,
{
    match t {
        Type::TypeVariable(id, k) => match b.get(id) {
            Some(x) => clone_type(x),
            None => Type::TypeVariable(*id, *k),
        },
        Type::NamedGeneric(id) => match b.get(id) {
            Some(x) => clone_type(x),
            None => Type::NamedGeneric(*id),
        },
        Type::Array(n, e) => Type::Array(
            Box::new(substitute(n, b)),
            Box::new(substitute(e, b)),
        ),
        Type::String(l) => Type::String(Box::new(substitute(l, b))),
        Type::FmtString(l, e) => Type::FmtString(
            Box::new(substitute(l, b)),
            Box::new(substitute(e, b)),
        ),
        Type::Tuple(ts) => Type::Tuple(Box::new(substitute_list(ts, b))),
        Type::Struct(id, gs) => Type::Struct(*id, Box::new(substitute_list(gs, b))),
        Type::Function(args, ret, env) => Type::Function(
            Box::new(substitute_list(args, b)),
            Box::new(substitute(ret, b)),
            Box::new(substitute(env, b)),
        ),
        Type::MutableReference(e) => Type::MutableReference(Box::new(substitute(e, b))),
        Type::Forall(vs, body) => Type::Forall(
            Box::new(clone_type_list(vs)),
            Box::new(substitute(body, b)),
        ),
        other => clone_type(other),
    }
}

pub fn substitute_list(l: &TypeList, b: &TypeBindings) -> (r: TypeList)
    ensures
        r == spec_substitute_list(*l, b.entries@),
    decreases *l,
{
    match l {
        TypeList::Nil => TypeList::Nil,
        TypeList::Cons(h, t) => TypeList::Cons(
            Box::new(substitute(h, b)),
            Box::new(substitute_list(t, b)),
        ),
    }
}

/// Merging one binding map into another, later entries of `src` winning.
pub open spec fn spec_bindings_extend(
    dst: Seq<(TypeVariableId, Type)>,
    src: Seq<(TypeVariableId, Type)>,
) -> Seq<(TypeVariableId, Type)>
    decreases src.len(),
{
    if src.len() == 0 {
        dst
    } else {
        spec_bindings_extend(alist_insert(dst, src[0].0, src[0].1), src.drop_first())
    }
}

pub fn bindings_extend(dst: &mut TypeBindings, src: &TypeBindings)
    ensures
        final(dst).entries@ == spec_bindings_extend(old(dst).entries@, src.entries@),
{
    let n = src.entries.len();
    let mut i: usize = 0;
    proof {
        assert(src.entries@.skip(0) =~= src.entries@);
    }
    while i < n
        invariant
            i <= n,
            n == src.entries@.len(),
            spec_bindings_extend(old(dst).entries@, src.entries@) == spec_bindings_extend(
                dst.entries@,
                src.entries@.skip(i as int),
            ),
        decreases n - i,
    {
        proof {
            assert(src.entries@.skip(i as int)[0] == src.entries@[i as int]);
            assert(src.entries@.skip(i as int).drop_first() =~= src.entries@.skip(i as int + 1));
        }
        let id = src.entries[i].0;
        let v = clone_type(&src.entries[i].1);
        dst.insert(id, v);
        i = i + 1;
    }
    proof {
        assert(src.entries@.skip(n as int).len() == 0);
    }
}

} // verus!
