//! Records handed to the index by the parser and the definition collector.

use vstd::prelude::*;
use crate::location::{FileId, Span};
use crate::node_interner::{CrateId, FuncId};

verus! {

/// A name together with the span it was written at.
#[derive(Clone, PartialEq, Eq, Debug)]
pub struct Ident {
    pub contents: String,
    pub span: Span,
}

impl Ident {
    pub fn new(contents: String, span: Span) -> (r: Ident)
        ensures
            r.contents@ == contents@,
            r.span == span,
    {
        Ident { contents, span }
    }

    pub fn span(&self) -> (r: Span)
        ensures
            r == self.span,
    {
        self.span
    }
}

pub fn clone_ident(i: &Ident) -> (r: Ident)
    ensures
        r == *i,
{
    let contents = i.contents.clone();
    assert(contents == i.contents);
    Ident { contents, span: i.span }
}

/// Clones a list of strings, preserving the sequence of values.
pub fn clone_string_vec(v: &Vec<String>) -> (r: Vec<String>)
    ensures
        r@ == v@,
{
    let mut r: Vec<String> = Vec::new();
    let mut i: usize = 0;
    while i < v.len()
        invariant
            i <= v@.len(),
            r@ == v@.take(i as int),
        decreases v@.len() - i,
    {
        let s = v[i].clone();
        assert(s == v@[i as int]);
        r.push(s);
        proof {
            assert(v@.take(i as int).push(v@[i as int]) =~= v@.take(i as int + 1));
        }
        i = i + 1;
    }
    proof {
        assert(v@.take(v@.len() as int) =~= v@);
    }
    r
}

pub fn clone_attributes(a: &Attributes) -> (r: Attributes)
    ensures
        r.function == a.function,
        r.secondary@ == a.secondary@,
{
    let function = match &a.function {
        Some(f) => {
            let c = f.clone();
            assert(c == *f);
            Some(c)
        },
        None => None,
    };
    Attributes { function, secondary: clone_string_vec(&a.secondary) }
}

#[derive(Clone, Copy, PartialEq, Eq, Structural, Debug)]
pub enum FunctionVisibility {
    Public,
    Private,
    PublicCrate,
}

/// Whether a contract function runs privately or openly. Functions outside
/// contracts are always `Secret`.
#[derive(Clone, Copy, PartialEq, Eq, Structural, Debug)]
pub enum ContractFunctionType {
    Open,
    Secret,
}

pub type SecondaryAttribute = String;

/// The attributes attached to a function definition.
#[derive(Clone, PartialEq, Eq, Debug)]
pub struct Attributes {
    pub function: Option<String>,
    pub secondary: Vec<SecondaryAttribute>,
}

impl Attributes {
    pub fn empty() -> (r: Attributes)
        ensures
            r.function is None,
            r.secondary@.len() == 0,
    {
        Attributes { function: None, secondary: Vec::new() }
    }
}

/// A function as the parser delivers it, before any resolution.
#[derive(Clone, PartialEq, Eq, Debug)]
pub struct FunctionDefinition {
    pub name: Ident,
    pub visibility: FunctionVisibility,
    pub attributes: Attributes,
    pub is_unconstrained: bool,
    pub is_open: bool,
    pub is_internal: bool,
}

/// An unresolved struct declaration: name, attributes and generic
/// parameters, fields to be filled in later.
#[derive(Clone, PartialEq, Eq, Debug)]
pub struct StructDeclaration {
    pub name: Ident,
    pub attributes: Vec<SecondaryAttribute>,
    pub generics: Vec<Ident>,
    pub span: Span,
}

#[derive(Clone, PartialEq, Eq, Debug)]
pub struct UnresolvedStruct {
    pub struct_def: StructDeclaration,
}

/// An unresolved trait declaration.
#[derive(Clone, PartialEq, Eq, Debug)]
pub struct TraitDeclaration {
    pub name: Ident,
    pub generics: Vec<Ident>,
    pub span: Span,
}

#[derive(Clone, PartialEq, Eq, Debug)]
pub struct UnresolvedTrait {
    pub trait_def: TraitDeclaration,
    pub crate_id: CrateId,
    pub file_id: FileId,
    pub method_ids: Vec<(String, FuncId)>,
}

/// An unresolved type alias declaration.
#[derive(Clone, PartialEq, Eq, Debug)]
pub struct TypeAliasDeclaration {
    pub name: Ident,
    pub generics: Vec<Ident>,
    pub span: Span,
}

#[derive(Clone, PartialEq, Eq, Debug)]
pub struct UnresolvedTypeAlias {
    pub type_alias_def: TypeAliasDeclaration,
}

} // verus!
