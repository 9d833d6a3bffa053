//! From a source location to the location of the definition it refers to:
//! find the innermost recorded node containing the query, then dispatch on
//! what the node is; when no node matches, try the jump from a trait impl's
//! defining identifier to the trait.

use vstd::prelude::*;
use crate::arena::Index;
use crate::ast::Ident;
use crate::hir::HirExpression;
use crate::location::{FileId, Location};
use crate::node_interner::{
    spec_find_location_index, DefinitionKind, Node, NodeInterner,
};
use crate::tables::alist_get;
use crate::types::{clone_type, Type};

verus! {

/// Resolution of the node at `index` to its definition's location, with a
/// budget for following function bodies and call chains. Dangling ids
/// resolve to nothing rather than faulting, so sentinel ids left behind by
/// earlier errors are safe to query.
pub open spec fn spec_resolve_location(s: NodeInterner, index: Index, fuel: nat) -> Option<
    Location,
>
    decreases fuel, 1int,
{
    if !s.nodes.spec_valid(index) {
        None
    } else {
        match s.nodes.items@[index.index as int] {
            Node::Function(func) => {
                if fuel == 0 {
                    None
                } else {
                    spec_resolve_location(s, func.0.0, (fuel - 1) as nat)
                }
            },
            Node::Expression(e) => spec_resolve_expression_location(s, e, fuel),
            Node::Statement(_) => None,
        }
    }
}

/// Where an expression's definition lives: identifiers through their
/// definition (functions through their metadata, locals through the
/// definition site), constructors through their struct, member accesses
/// through the field of the receiver's struct type, calls through the
/// callee; other expressions resolve to nothing.
pub open spec fn spec_resolve_expression_location(
    s: NodeInterner,
    e: HirExpression,
    fuel: nat,
) -> Option<Location>
    decreases fuel, 0int,
{
    match e {
        HirExpression::Ident(ident) => {
            if ident.id.0 < s.definitions@.len() {
                let def = s.definitions@[ident.id.0 as int];
                match def.kind {
                    DefinitionKind::Function(fid) => match alist_get(s.func_meta.entries@, fid) {
                        Some(meta) => Some(meta.location),
                        None => None,
                    },
                    DefinitionKind::Local(init) => Some(def.location),
                    _ => None,
                }
            } else {
                None
            }
        },
        HirExpression::Constructor(c) => match alist_get(s.structs.entries@, c.type_id) {
            Some(st) => Some(st.location),
            None => None,
        },
        HirExpression::MemberAccess(ma) => spec_member_access_location(s, ma),
        HirExpression::Call(call) => {
            if fuel == 0 {
                None
            } else {
                spec_resolve_location(s, call.func.0, (fuel - 1) as nat)
            }
        },
        _ => None,
    }
}

/// The location of the field a member access selects: the lookup of the
/// receiver's type, the struct behind it, and the named field within.
pub open spec fn spec_member_access_location(
    s: NodeInterner,
    ma: crate::hir::HirMemberAccess,
) -> Option<Location> {
    let lhs_type = match alist_get(s.id_to_type.entries@, ma.lhs.0) {
        Some(t) => t,
        None => Type::Error,
    };
    match lhs_type {
        Type::Struct(sid, _) => match alist_get(s.structs.entries@, sid) {
            Some(st) => spec_find_field(st.fields@, ma.rhs.contents@, st.location.file),
            None => None,
        },
        _ => None,
    }
}

/// The location of the first field with the given name: the span the field
/// name was declared at, in the struct's file.
pub open spec fn spec_find_field(
    fields: Seq<(Ident, Type)>,
    name: Seq<char>,
    file: FileId,
) -> Option<Location>
    decreases fields.len(),
{
    if fields.len() == 0 {
        None
    } else if fields[0].0.contents@ == name {
        Some(Location { span: fields[0].0.span, file })
    } else {
        spec_find_field(fields.drop_first(), name, file)
    }
}

/// The first stored trait impl whose defining identifier's span contains
/// the queried location, resolved to its trait's declared location.
pub open spec fn spec_trait_impl_jump(
    s: NodeInterner,
    impls: Seq<crate::hir::TraitImpl>,
    location: Location,
) -> Option<Location>
    decreases impls.len(),
{
    if impls.len() == 0 {
        None
    } else if impls[0].file == location.file && impls[0].ident.span.spec_contains(location.span) {
        match alist_get(s.traits.entries@, impls[0].trait_id) {
            Some(tr) => Some(tr.location),
            None => None,
        }
    } else {
        spec_trait_impl_jump(s, impls.drop_first(), location)
    }
}

/// What the whole query answers: resolve the innermost node at the
/// location, falling back to the trait-impl jump.
pub open spec fn spec_get_definition_location_from(s: NodeInterner, location: Location) -> Option<
    Location,
> {
    match spec_find_location_index(s.id_to_location.entries@, location) {
        Some(index) => match spec_resolve_location(s, index, s.nodes.items@.len()) {
            Some(loc) => Some(loc),
            None => spec_trait_impl_jump(s, s.trait_implementations@, location),
        },
        None => spec_trait_impl_jump(s, s.trait_implementations@, location),
    }
}

impl NodeInterner {
    /// The location of the definition of whatever the given location
    /// points into, or `None` when it cannot be resolved.
    pub fn get_definition_location_from(&self, location: Location) -> (r: Option<Location>)
        ensures
            r == spec_get_definition_location_from(*self, location),
    {
        let index = self.find_location_index(location);
        match index {
            Some(index) => {
                let fuel = self.nodes.len();
                match self.resolve_location(index, fuel) {
                    Some(loc) => Some(loc),
                    None => self.try_resolve_trait_impl_location(location),
                }
            },
            None => self.try_resolve_trait_impl_location(location),
        }
    }

    fn resolve_location(&self, index: Index, fuel: usize) -> (r: Option<Location>)
        ensures
            r == spec_resolve_location(*self, index, fuel as nat),
        decreases fuel, 1int,
    {
        let node = match self.nodes.get(index) {
            Some(node) => node,
            None => {
                return None;
            },
        };
        match node {
            Node::Function(func) => {
                if fuel == 0 {
                    None
                } else {
                    self.resolve_location(func.as_expr().as_index(), fuel - 1)
                }
            },
            Node::Expression(expression) => self.resolve_expression_location(expression, fuel),
            Node::Statement(_) => None,
        }
    }

    fn resolve_expression_location(&self, expression: &HirExpression, fuel: usize) -> (r: Option<
        Location,
    >)
        ensures
            r == spec_resolve_expression_location(*self, *expression, fuel as nat),
        decreases fuel, 0int,
    {
        match expression {
            HirExpression::Ident(ident) => {
                match self.try_definition(ident.id) {
                    Some(definition_info) => {
                        match &definition_info.kind {
                            DefinitionKind::Function(func_id) => {
                                match self.try_function_meta(func_id) {
                                    Some(meta) => Some(meta.location),
                                    None => None,
                                }
                            },
                            DefinitionKind::Local(_local_id) => Some(definition_info.location),
                            _ => None,
                        }
                    },
                    None => None,
                }
            },
            HirExpression::Constructor(expr) => {
                match self.structs.get(&expr.type_id) {
                    Some(struct_type) => Some(struct_type.location),
                    None => None,
                }
            },
            HirExpression::MemberAccess(expr_member_access) => self.resolve_struct_member_access(
                expr_member_access,
            ),
            HirExpression::Call(expr_call) => {
                if fuel == 0 {
                    None
                } else {
                    self.resolve_location(expr_call.func.as_index(), fuel - 1)
                }
            },
            _ => None,
        }
    }

    /// The location of the field a member access `lhs.rhs` selects: the
    /// field's declared span in the file of the receiver's struct.
    fn resolve_struct_member_access(
        &self,
        expr_member_access: &crate::hir::HirMemberAccess,
    ) -> (r: Option<Location>)
        ensures
            r == spec_member_access_location(*self, *expr_member_access),
    {
        let lhs_type = self.id_type(expr_member_access.lhs.as_index());

        let struct_id = match lhs_type {
            Type::Struct(sid, _) => sid,
            _ => {
                return None;
            },
        };
        let struct_type = match self.structs.get(&struct_id) {
            Some(st) => st,
            None => {
                return None;
            },
        };

        let n = struct_type.fields.len();
        let mut i: usize = 0;
        proof {
            assert(struct_type.fields@.skip(0) =~= struct_type.fields@);
        }
        while i < n
            invariant
                i <= n,
                n == struct_type.fields@.len(),
                spec_member_access_location(*self, *expr_member_access) == spec_find_field(
                    struct_type.fields@,
                    expr_member_access.rhs.contents@,
                    struct_type.location.file,
                ),
                spec_find_field(
                    struct_type.fields@,
                    expr_member_access.rhs.contents@,
                    struct_type.location.file,
                ) == spec_find_field(
                    struct_type.fields@.skip(i as int),
                    expr_member_access.rhs.contents@,
                    struct_type.location.file,
                ),
            decreases n - i,
        {
            proof {
                assert(struct_type.fields@.skip(i as int)[0] == struct_type.fields@[i as int]);
                assert(struct_type.fields@.skip(i as int).drop_first() =~= struct_type.fields@
                    .skip(i as int + 1));
            }
            if struct_type.fields[i].0.contents == expr_member_access.rhs.contents {
                proof {
                    assert(struct_type.fields@.skip(i as int)[0].0.contents@
                        == expr_member_access.rhs.contents@);
                    assert(spec_find_field(
                        struct_type.fields@.skip(i as int),
                        expr_member_access.rhs.contents@,
                        struct_type.location.file,
                    ) == Some(
                        Location {
                            span: struct_type.fields@[i as int].0.span,
                            file: struct_type.location.file,
                        },
                    ));
                }
                return Some(
                    Location::new(struct_type.fields[i].0.span, struct_type.location.file),
                );
            }
            i = i + 1;
        }
        proof {
            assert(struct_type.fields@.skip(n as int).len() == 0);
        }
        None
    }

    /// The trait a trait impl at the given location implements, resolved
    /// to the trait's declared location.
    fn try_resolve_trait_impl_location(&self, location: Location) -> (r: Option<Location>)
        ensures
            r == spec_trait_impl_jump(*self, self.trait_implementations@, location),
    {
        let n = self.trait_implementations.len();
        let mut i: usize = 0;
        proof {
            assert(self.trait_implementations@.skip(0) =~= self.trait_implementations@);
        }
        while i < n
            invariant
                i <= n,
                n == self.trait_implementations@.len(),
                spec_trait_impl_jump(*self, self.trait_implementations@, location)
                    == spec_trait_impl_jump(
                    *self,
                    self.trait_implementations@.skip(i as int),
                    location,
                ),
            decreases n - i,
        {
            proof {
                assert(self.trait_implementations@.skip(i as int)[0]
                    == self.trait_implementations@[i as int]);
                assert(self.trait_implementations@.skip(i as int).drop_first()
                    =~= self.trait_implementations@.skip(i as int + 1));
            }
            let ti = &self.trait_implementations[i];
            if ti.file.0 == location.file.0 && ti.ident.span.contains(&location.span) {
                return match self.traits.get(&ti.trait_id) {
                    Some(tr) => Some(tr.location),
                    None => None,
                };
            }
            i = i + 1;
        }
        proof {
            assert(self.trait_implementations@.skip(n as int).len() == 0);
        }
        None
    }

    /// The type recorded for a definition, with a trait-as-type return
    /// replaced by the type checked for the function's body, so that
    /// callers observe the concrete return type.
    pub fn id_type_substitute_trait_as_type(&self, def_id: crate::node_interner::DefinitionId) -> (
        r: Type)
        ensures
            r == spec_id_type_substitute(*self, def_id),
    {
        let typ = self.id_type(def_id.as_index());
        if let Type::Function(args, ret, env) = &typ {
            if matches!(&**ret, Type::TraitAsType(_)) {
                if def_id.0 < self.definitions.len() {
                    let def = &self.definitions[def_id.0];
                    if let DefinitionKind::Function(func_id) = &def.kind {
                        match self.nodes.get(func_id.0) {
                            Some(Node::Function(f)) => {
                                let body_expr = f.as_expr();
                                let ret_type = self.id_type(body_expr.as_index());
                                return Type::Function(
                                    Box::new(crate::types::clone_type_list(args)),
                                    Box::new(ret_type),
                                    Box::new(clone_type(env)),
                                );
                            },
                            _ => {},
                        }
                    }
                }
            }
        }
        typ
    }
}

/// What `id_type_substitute_trait_as_type` returns: the recorded type,
/// except that a function type returning a trait-as-type is rebuilt with
/// the type recorded for the function's body expression.
pub open spec fn spec_id_type_substitute(
    s: NodeInterner,
    def_id: crate::node_interner::DefinitionId,
) -> Type {
    let typ = match alist_get(
        s.id_to_type.entries@,
        (Index { index: def_id.0, generation: u64::MAX }),
    ) {
        Some(t) => t,
        None => Type::Error,
    };
    if typ is Function && *typ->Function_1 is TraitAsType && def_id.0 < s.definitions@.len() {
        let def = s.definitions@[def_id.0 as int];
        if def.kind is Function {
            let fid = def.kind->Function_0;
            if s.nodes.spec_valid(fid.0) && s.nodes.items@[fid.0.index as int] is Function {
                let body = s.nodes.items@[fid.0.index as int]->Function_0.0;
                let ret_type = match alist_get(s.id_to_type.entries@, body.0) {
                    Some(t) => t,
                    None => Type::Error,
                };
                Type::Function(typ->Function_0, Box::new(ret_type), typ->Function_2)
            } else {
                typ
            }
        } else {
            typ
        }
    } else {
        typ
    }
}

} // verus!
