//! The trait-impl solver: unification-driven impl selection with
//! bounded-depth discharge of `where` clauses.
//!
//! Every executable function mirrors a specification function over the same
//! state, so the solver's behaviour is pinned down as a pure function of the
//! store, the queried type and the recursion budget.

use vstd::prelude::*;
use crate::hir::{TraitConstraint, TraitImpl};
use crate::node_interner::{NodeInterner, TraitId, TraitImplId, TraitImplKind};
use crate::tables::{alist_get, alist_insert, KeyEq, Table};
use crate::types::{
    bindings_extend, clone_type, occurs, spec_bindings_extend, spec_occurs, spec_sat_inc,
    spec_substitute, substitute, Type, TypeBindings, TypeList, TypeVariableId, TypeVariableKind,
};

verus! {

/// How deep the search may recurse through `where` clauses before a lookup
/// is declared unresolved. This stops cyclic obligations such as an impl
/// for every `T` whose `where` clause requires the impl being searched for.
pub const IMPL_SEARCH_RECURSION_LIMIT: u32 = 10;

/// How many chained variable bindings a unification may follow. Bindings
/// produced by a single solver query are far shallower than this; a deeper
/// chain makes the unification fail rather than diverge.
pub const UNIFY_FOLLOW_LIMIT: u32 = 64;

// ---------------------------------------------------------------------------
// Unification
// ---------------------------------------------------------------------------

/// The binding of a variable, local bindings taking precedence over the
/// ambient universe.
pub open spec fn spec_resolve_var(
    id: TypeVariableId,
    local: Seq<(TypeVariableId, Type)>,
    ambient: Seq<(TypeVariableId, Type)>,
) -> Option<Type> {
    match alist_get(local, id) {
        Some(t) => Some(t),
        None => alist_get(ambient, id),
    }
}

/// Structural unification of `a` against `b` under `local` bindings (which
/// the unification extends) and the read-only `ambient` universe. Bound
/// variables are followed through at most `fuel` links. Returns success and
/// the extended bindings; on failure the bindings accumulated so far are
/// returned unchanged from the point of failure.
pub open spec fn spec_unify(
    a: Type,
    b: Type,
    local: Seq<(TypeVariableId, Type)>,
    ambient: Seq<(TypeVariableId, Type)>,
    fuel: u32,
) -> (bool, Seq<(TypeVariableId, Type)>)
    decreases fuel, a,
{
    if a is Error || b is Error {
        (true, local)
    } else if a is TypeVariable {
        let i = a->TypeVariable_0;
        let ka = a->TypeVariable_1;
        match spec_resolve_var(i, local, ambient) {
            Some(t) => if fuel == 0 {
                (false, local)
            } else {
                spec_unify(t, b, local, ambient, (fuel - 1) as u32)
            },
            None => if b is TypeVariable {
                let j = b->TypeVariable_0;
                let kb = b->TypeVariable_1;
                match spec_resolve_var(j, local, ambient) {
                    Some(t2) => if fuel == 0 {
                        (false, local)
                    } else {
                        spec_unify(a, t2, local, ambient, (fuel - 1) as u32)
                    },
                    None => if i == j {
                        (true, local)
                    } else if ka is IntegerOrField && kb is Normal {
                        (true, crate::tables::alist_insert(local, j, a))
                    } else {
                        (true, crate::tables::alist_insert(local, i, b))
                    },
                }
            } else if ka is IntegerOrField {
                if b is FieldElement || b is Integer {
                    (true, crate::tables::alist_insert(local, i, b))
                } else {
                    (false, local)
                }
            } else {
                if spec_occurs(i, b) {
                    (false, local)
                } else {
                    (true, crate::tables::alist_insert(local, i, b))
                }
            },
        }
    } else if b is TypeVariable {
        let j = b->TypeVariable_0;
        let kb = b->TypeVariable_1;
        match spec_resolve_var(j, local, ambient) {
            Some(t2) => if fuel == 0 {
                (false, local)
            } else {
                spec_unify(a, t2, local, ambient, (fuel - 1) as u32)
            },
            None => if kb is IntegerOrField {
                if a is FieldElement || a is Integer {
                    (true, crate::tables::alist_insert(local, j, a))
                } else {
                    (false, local)
                }
            } else {
                if spec_occurs(j, a) {
                    (false, local)
                } else {
                    (true, crate::tables::alist_insert(local, j, a))
                }
            },
        }
    } else {
        match (a, b) {
            (Type::FieldElement, Type::FieldElement) => (true, local),
            (Type::Bool, Type::Bool) => (true, local),
            (Type::Unit, Type::Unit) => (true, local),
            (Type::NotConstant, Type::NotConstant) => (true, local),
            (Type::Integer(s1, w1), Type::Integer(s2, w2)) => (s1 == s2 && w1 == w2, local),
            (Type::Constant(x), Type::Constant(y)) => (x == y, local),
            (Type::NamedGeneric(i1), Type::NamedGeneric(i2)) => (i1 == i2, local),
            (Type::TraitAsType(t1), Type::TraitAsType(t2)) => (t1 == t2, local),
            (Type::String(l1), Type::String(l2)) => spec_unify(*l1, *l2, local, ambient, fuel),
            (Type::MutableReference(e1), Type::MutableReference(e2)) => spec_unify(
                *e1,
                *e2,
                local,
                ambient,
                fuel,
            ),
            (Type::Array(n1, e1), Type::Array(n2, e2)) => {
                let (ok1, l1) = spec_unify(*n1, *n2, local, ambient, fuel);
                if ok1 {
                    spec_unify(*e1, *e2, l1, ambient, fuel)
                } else {
                    (false, l1)
                }
            },
            (Type::FmtString(n1, e1), Type::FmtString(n2, e2)) => {
                let (ok1, l1) = spec_unify(*n1, *n2, local, ambient, fuel);
                if ok1 {
                    spec_unify(*e1, *e2, l1, ambient, fuel)
                } else {
                    (false, l1)
                }
            },
            (Type::Tuple(t1), Type::Tuple(t2)) => spec_unify_list(*t1, *t2, local, ambient, fuel),
            (Type::Struct(id1, g1), Type::Struct(id2, g2)) => if id1 == id2 {
                spec_unify_list(*g1, *g2, local, ambient, fuel)
            } else {
                (false, local)
            },
            (Type::Function(a1, r1, e1), Type::Function(a2, r2, e2)) => {
                let (ok1, l1) = spec_unify_list(*a1, *a2, local, ambient, fuel);
                if ok1 {
                    let (ok2, l2) = spec_unify(*r1, *r2, l1, ambient, fuel);
                    if ok2 {
                        spec_unify(*e1, *e2, l2, ambient, fuel)
                    } else {
                        (false, l2)
                    }
                } else {
                    (false, l1)
                }
            },
            _ => (false, local),
        }
    }
}

pub open spec fn spec_unify_list(
    a: TypeList,
    b: TypeList,
    local: Seq<(TypeVariableId, Type)>,
    ambient: Seq<(TypeVariableId, Type)>,
    fuel: u32,
) -> (bool, Seq<(TypeVariableId, Type)>)
    decreases fuel, a,
{
    match (a, b) {
        (TypeList::Nil, TypeList::Nil) => (true, local),
        (TypeList::Cons(h1, t1), TypeList::Cons(h2, t2)) => {
            let (ok1, l1) = spec_unify(*h1, *h2, local, ambient, fuel);
            if ok1 {
                spec_unify_list(*t1, *t2, l1, ambient, fuel)
            } else {
                (false, l1)
            }
        },
        _ => (false, local),
    }
}

/// Attempts to unify `a` with `b`, extending `local` with the bindings the
/// match requires. `ambient` is the store's universe of already applied
/// bindings.
pub fn try_unify(
    a: &Type,
    b: &Type,
    local: &mut TypeBindings,
    ambient: &TypeBindings,
    fuel: u32,
) -> (r: bool)
    ensures
        ({
            let (ok, l2) = spec_unify(*a, *b, old(local).entries@, ambient.entries@, fuel);
            r == ok && final(local).entries@ == l2
        }),
    decreases fuel, *a,
{
    if matches!(a, Type::Error) || matches!(b, Type::Error) {
        return true;
    }
    if let Type::TypeVariable(i, ka) = a {
        let resolved = resolve_var(*i, local, ambient);
        match resolved {
            Some(t) => {
                if fuel == 0 {
                    return false;
                }
                return try_unify(&t, b, local, ambient, fuel - 1);
            },
            None => {
                if let Type::TypeVariable(j, kb) = b {
                    let resolved2 = resolve_var(*j, local, ambient);
                    match resolved2 {
                        Some(t2) => {
                            if fuel == 0 {
                                return false;
                            }
                            return try_unify(a, &t2, local, ambient, fuel - 1);
                        },
                        None => {
                            if i.0 == j.0 {
                                return true;
                            }
                            if matches!(ka, TypeVariableKind::IntegerOrField) && matches!(
                                kb,
                                TypeVariableKind::Normal,
                            ) {
                                local.insert(*j, clone_type(a));
                                return true;
                            }
                            local.insert(*i, clone_type(b));
                            return true;
                        },
                    }
                }
                if matches!(ka, TypeVariableKind::IntegerOrField) {
                    if matches!(b, Type::FieldElement | Type::Integer(..)) {
                        local.insert(*i, clone_type(b));
                        return true;
                    }
                    return false;
                }
                if occurs(*i, b) {
                    return false;
                }
                local.insert(*i, clone_type(b));
                return true;
            },
        }
    }
    if let Type::TypeVariable(j, kb) = b {
        let resolved2 = resolve_var(*j, local, ambient);
        match resolved2 {
            Some(t2) => {
                if fuel == 0 {
                    return false;
                }
                return try_unify(a, &t2, local, ambient, fuel - 1);
            },
            None => {
                if matches!(kb, TypeVariableKind::IntegerOrField) {
                    if matches!(a, Type::FieldElement | Type::Integer(..)) {
                        local.insert(*j, clone_type(a));
                        return true;
                    }
                    return false;
                }
                if occurs(*j, a) {
                    return false;
                }
                local.insert(*j, clone_type(a));
                return true;
            },
        }
    }
    match (a, b) {
        (Type::FieldElement, Type::FieldElement) => true,
        (Type::Bool, Type::Bool) => true,
        (Type::Unit, Type::Unit) => true,
        (Type::NotConstant, Type::NotConstant) => true,
        (Type::Integer(s1, w1), Type::Integer(s2, w2)) => s1 == s2 && w1 == w2,
        (Type::Constant(x), Type::Constant(y)) => x == y,
        (Type::NamedGeneric(i1), Type::NamedGeneric(i2)) => i1.0 == i2.0,
        (Type::TraitAsType(t1), Type::TraitAsType(t2)) => t1.key_eq(t2),
        (Type::String(l1), Type::String(l2)) => try_unify(l1, l2, local, ambient, fuel),
        (Type::MutableReference(e1), Type::MutableReference(e2)) => try_unify(
            e1,
            e2,
            local,
            ambient,
            fuel,
        ),
        (Type::Array(n1, e1), Type::Array(n2, e2)) => {
            if try_unify(n1, n2, local, ambient, fuel) {
                try_unify(e1, e2, local, ambient, fuel)
            } else {
                false
            }
        },
        (Type::FmtString(n1, e1), Type::FmtString(n2, e2)) => {
            if try_unify(n1, n2, local, ambient, fuel) {
                try_unify(e1, e2, local, ambient, fuel)
            } else {
                false
            }
        },
        (Type::Tuple(t1), Type::Tuple(t2)) => try_unify_list(t1, t2, local, ambient, fuel),
        (Type::Struct(id1, g1), Type::Struct(id2, g2)) => {
            if id1.key_eq(id2) {
                try_unify_list(g1, g2, local, ambient, fuel)
            } else {
                false
            }
        },
        (Type::Function(a1, r1, e1), Type::Function(a2, r2, e2)) => {
            if try_unify_list(a1, a2, local, ambient, fuel) {
                if try_unify(r1, r2, local, ambient, fuel) {
                    try_unify(e1, e2, local, ambient, fuel)
                } else {
                    false
                }
            } else {
                false
            }
        },
        _ => false,
    }
}

pub fn try_unify_list(
    a: &TypeList,
    b: &TypeList,
    local: &mut TypeBindings,
    ambient: &TypeBindings,
    fuel: u32,
) -> (r: bool)
    ensures
        ({
            let (ok, l2) = spec_unify_list(*a, *b, old(local).entries@, ambient.entries@, fuel);
            r == ok && final(local).entries@ == l2
        }),
    decreases fuel, *a,
{
    match (a, b) {
        (TypeList::Nil, TypeList::Nil) => true,
        (TypeList::Cons(h1, t1), TypeList::Cons(h2, t2)) => {
            if try_unify(h1, h2, local, ambient, fuel) {
                try_unify_list(t1, t2, local, ambient, fuel)
            } else {
                false
            }
        },
        _ => false,
    }
}

fn resolve_var(id: TypeVariableId, local: &TypeBindings, ambient: &TypeBindings) -> (r: Option<
    Type,
>)
    ensures
        r == spec_resolve_var(id, local.entries@, ambient.entries@),
{
    match local.get(&id) {
        Some(t) => Some(clone_type(t)),
        None => match ambient.get(&id) {
            Some(t) => Some(clone_type(t)),
            None => None,
        },
    }
}

// ---------------------------------------------------------------------------
// Instantiation
// ---------------------------------------------------------------------------

pub open spec fn spec_var_in(
    acc: Seq<(TypeVariableId, TypeVariableKind)>,
    id: TypeVariableId,
) -> bool
    decreases acc.len(),
{
    if acc.len() == 0 {
        false
    } else if acc[0].0 == id {
        true
    } else {
        spec_var_in(acc.drop_first(), id)
    }
}

/// The variables of `t` (unification variables and named generics alike) in
/// order of first occurrence, appended to `acc` without duplicates.
pub open spec fn spec_collect_vars(
    t: Type,
    acc: Seq<(TypeVariableId, TypeVariableKind)>,
) -> Seq<(TypeVariableId, TypeVariableKind)>
    decreases t,
{
    match t {
        Type::TypeVariable(i, k) => if spec_var_in(acc, i) {
            acc
        } else {
            acc.push((i, k))
        },
        Type::NamedGeneric(i) => if spec_var_in(acc, i) {
            acc
        } else {
            acc.push((i, TypeVariableKind::Normal))
        },
        Type::Array(n, e) => spec_collect_vars(*e, spec_collect_vars(*n, acc)),
        Type::String(l) => spec_collect_vars(*l, acc),
        Type::FmtString(n, e) => spec_collect_vars(*e, spec_collect_vars(*n, acc)),
        Type::Tuple(ts) => spec_collect_vars_list(*ts, acc),
        Type::Struct(_, gs) => spec_collect_vars_list(*gs, acc),
        Type::Function(args, ret, env) => spec_collect_vars(
            *env,
            spec_collect_vars(*ret, spec_collect_vars_list(*args, acc)),
        ),
        Type::MutableReference(e) => spec_collect_vars(*e, acc),
        Type::Forall(vs, body) => spec_collect_vars(*body, spec_collect_vars_list(*vs, acc)),
        _ => acc,
    }
}

pub open spec fn spec_collect_vars_list(
    l: TypeList,
    acc: Seq<(TypeVariableId, TypeVariableKind)>,
) -> Seq<(TypeVariableId, TypeVariableKind)>
    decreases l,
{
    match l {
        TypeList::Nil => acc,
        TypeList::Cons(h, t) => spec_collect_vars_list(*t, spec_collect_vars(*h, acc)),
    }
}

/// Adding `d` to the variable counter, saturating at the ceiling.
pub open spec fn spec_sat_add(c: u64, d: int) -> u64 {
    if c + d > u64::MAX {
        u64::MAX
    } else {
        (c + d) as u64
    }
}

/// The instantiation map for `vars`: the `i`-th variable is renamed to a
/// fresh variable numbered from `ctr`, keeping its kind.
pub open spec fn spec_fresh_map(
    vars: Seq<(TypeVariableId, TypeVariableKind)>,
    ctr: u64,
) -> Seq<(TypeVariableId, Type)> {
    Seq::new(
        vars.len(),
        |i: int|
            (vars[i].0, Type::TypeVariable(TypeVariableId(spec_sat_add(ctr, i)), vars[i].1)),
    )
}

/// Instantiation of a stored (generalized) type: a top-level `Forall`
/// binder is opened, and every variable is replaced by a fresh variable.
/// The renaming map is returned so that `where` clauses of the same impl
/// can be renamed consistently.
pub open spec fn spec_instantiate(t: Type, ctr: u64) -> (Type, Seq<(TypeVariableId, Type)>, u64) {
    let body = if t is Forall {
        *t->Forall_1
    } else {
        t
    };
    let vars = spec_collect_vars(body, Seq::empty());
    let map = spec_fresh_map(vars, ctr);
    (spec_substitute(body, map), map, spec_sat_add(ctr, vars.len() as int))
}

fn collect_vars(t: &Type, acc: &mut Vec<(TypeVariableId, TypeVariableKind)>)
    ensures
        final(acc)@ == spec_collect_vars(*t, old(acc)@),
    decreases *t,
{
    match t {
        Type::TypeVariable(i, k) => {
            if !vars_contain(acc, *i) {
                acc.push((*i, *k));
            }
        },
        Type::NamedGeneric(i) => {
            if !vars_contain(acc, *i) {
                acc.push((*i, TypeVariableKind::Normal));
            }
        },
        Type::Array(n, e) => {
            collect_vars(n, acc);
            collect_vars(e, acc);
        },
        Type::String(l) => collect_vars(l, acc),
        Type::FmtString(n, e) => {
            collect_vars(n, acc);
            collect_vars(e, acc);
        },
        Type::Tuple(ts) => collect_vars_list(ts, acc),
        Type::Struct(_, gs) => collect_vars_list(gs, acc),
        Type::Function(args, ret, env) => {
            collect_vars_list(args, acc);
            collect_vars(ret, acc);
            collect_vars(env, acc);
        },
        Type::MutableReference(e) => collect_vars(e, acc),
        Type::Forall(vs, body) => {
            collect_vars_list(vs, acc);
            collect_vars(body, acc);
        },
        _ => {},
    }
}

fn collect_vars_list(l: &TypeList, acc: &mut Vec<(TypeVariableId, TypeVariableKind)>)
    ensures
        final(acc)@ == spec_collect_vars_list(*l, old(acc)@),
    decreases *l,
{
    match l {
        TypeList::Nil => {},
        TypeList::Cons(h, t) => {
            collect_vars(h, acc);
            collect_vars_list(t, acc);
        },
    }
}

fn vars_contain(acc: &Vec<(TypeVariableId, TypeVariableKind)>, id: TypeVariableId) -> (r: bool)
    ensures
        r == spec_var_in(acc@, id),
{
    let n = acc.len();
    let mut i: usize = 0;
    proof {
        assert(acc@.skip(0) =~= acc@);
    }
    while i < n
        invariant
            i <= n,
            n == acc@.len(),
            spec_var_in(acc@, id) == spec_var_in(acc@.skip(i as int), id),
        decreases n - i,
    {
        proof {
            assert(acc@.skip(i as int)[0] == acc@[i as int]);
            assert(acc@.skip(i as int).drop_first() =~= acc@.skip(i as int + 1));
        }
        if acc[i].0.0 == id.0 {
            return true;
        }
        i = i + 1;
    }
    proof {
        assert(acc@.skip(n as int).len() == 0);
    }
    false
}

fn sat_add(c: u64, d: u64) -> (r: u64)
    ensures
        r == spec_sat_add(c, d as int),
{
    if c <= u64::MAX - d {
        c + d
    } else {
        u64::MAX
    }
}

impl NodeInterner {
    /// Replaces every variable of `typ` with a fresh one, returning the
    /// instantiated type and the renaming. The variable counter advances by
    /// the number of distinct variables.
    pub fn instantiate(&mut self, typ: &Type) -> (r: (Type, TypeBindings))
        ensures
            ({
                let (t2, map, ctr2) = spec_instantiate(*typ, old(self).next_type_variable_id);
                &&& *final(self) == (NodeInterner {
                    next_type_variable_id: final(self).next_type_variable_id,
                    ..*old(self)
                })
                &&& final(self).next_type_variable_id == ctr2
                &&& r.0 == t2
                &&& r.1.entries@ == map
            }),
    {
        let body: &Type = match typ {
            Type::Forall(_, inner) => inner,
            _ => typ,
        };
        let mut vars: Vec<(TypeVariableId, TypeVariableKind)> = Vec::new();
        collect_vars(body, &mut vars);
        let ctr = self.next_type_variable_id;
        let mut map: TypeBindings = Table::new();
        let n = vars.len();
        let mut i: usize = 0;
        while i < n
            invariant
                i <= n,
                n == vars@.len(),
                ctr == self.next_type_variable_id,
                map.entries@ == spec_fresh_map(vars@, ctr).take(i as int),
            decreases n - i,
        {
            let fresh = sat_add(ctr, i as u64);
            map.push_new(vars[i].0, Type::TypeVariable(TypeVariableId(fresh), vars[i].1));
            proof {
                assert(spec_fresh_map(vars@, ctr).take(i as int).push(
                    spec_fresh_map(vars@, ctr)[i as int],
                ) =~= spec_fresh_map(vars@, ctr).take(i as int + 1));
            }
            i = i + 1;
        }
        proof {
            assert(spec_fresh_map(vars@, ctr).take(n as int) =~= spec_fresh_map(vars@, ctr));
        }
        self.next_type_variable_id = sat_add(ctr, n as u64);
        let instantiated = substitute(body, &map);
        (instantiated, map)
    }

    /// Applies a set of bindings to the ambient universe; later lookups
    /// resolve the bound variables to their types.
    pub fn apply_type_bindings(&mut self, bindings: &TypeBindings)
        ensures
            *final(self) == (NodeInterner {
                type_variable_bindings: final(self).type_variable_bindings,
                ..*old(self)
            }),
            final(self).type_variable_bindings.entries@ == spec_bindings_extend(
                old(self).type_variable_bindings.entries@,
                bindings.entries@,
            ),
    {
        bindings_extend(&mut self.type_variable_bindings, bindings);
    }
}


// ---------------------------------------------------------------------------
// Impl lookup with bounded-depth where-clause discharge
// ---------------------------------------------------------------------------

pub fn clone_impl_entries(v: &Vec<(Type, TraitImplKind)>) -> (r: Vec<(Type, TraitImplKind)>)
    ensures
        r@ == v@,
{
    let mut r: Vec<(Type, TraitImplKind)> = Vec::new();
    let mut i: usize = 0;
    while i < v.len()
        invariant
            i <= v@.len(),
            r@ == v@.take(i as int),
        decreases v@.len() - i,
    {
        let t = clone_type(&v[i].0);
        let k = crate::node_interner::clone_trait_impl_kind(&v[i].1);
        r.push((t, k));
        proof {
            assert(v@.take(i as int).push(v@[i as int]) =~= v@.take(i as int + 1));
        }
        i = i + 1;
    }
    proof {
        assert(v@.take(v@.len() as int) =~= v@);
    }
    r
}

pub fn clone_constraints(v: &Vec<TraitConstraint>) -> (r: Vec<TraitConstraint>)
    ensures
        r@ == v@,
{
    let mut r: Vec<TraitConstraint> = Vec::new();
    let mut i: usize = 0;
    while i < v.len()
        invariant
            i <= v@.len(),
            r@ == v@.take(i as int),
        decreases v@.len() - i,
    {
        let t = clone_type(&v[i].typ);
        r.push(TraitConstraint { typ: t, trait_id: v[i].trait_id });
        proof {
            assert(v@.take(i as int).push(v@[i as int]) =~= v@.take(i as int + 1));
        }
        i = i + 1;
    }
    proof {
        assert(v@.take(v@.len() as int) =~= v@);
    }
    r
}

/// One search step: try to satisfy `object_type: trait_id` from the stored
/// impl entries, recursing through `where` clauses with a shrinking budget.
/// Returns the selected impl kind or the chain of unresolved constraints
/// (innermost first), the extended bindings, and the advanced variable
/// counter.
pub open spec fn spec_helper(
    imap: Seq<(TraitId, Vec<(Type, TraitImplKind)>)>,
    impls: Seq<TraitImpl>,
    ambient: Seq<(TypeVariableId, Type)>,
    object_type: Type,
    trait_id: TraitId,
    bindings: Seq<(TypeVariableId, Type)>,
    ctr: u64,
    limit: u32,
) -> (Result<TraitImplKind, Seq<TraitConstraint>>, Seq<(TypeVariableId, Type)>, u64)
    decreases limit, 2int, 0int,
{
    let c0 = TraitConstraint { typ: object_type, trait_id };
    if limit == 0 {
        (Err(seq![c0]), bindings, ctr)
    } else {
        let ot = spec_substitute(object_type, bindings);
        match alist_get(imap, trait_id) {
            None => (Err(seq![c0]), bindings, ctr),
            Some(v) => spec_candidates(
                imap,
                impls,
                ambient,
                object_type,
                ot,
                trait_id,
                v@,
                bindings,
                ctr,
                limit,
            ),
        }
    }
}

/// Scans the candidate entries in insertion order; the first whose
/// (freshly instantiated) object type unifies wins, provided its `where`
/// clause can be discharged.
pub open spec fn spec_candidates(
    imap: Seq<(TraitId, Vec<(Type, TraitImplKind)>)>,
    impls: Seq<TraitImpl>,
    ambient: Seq<(TypeVariableId, Type)>,
    object_type: Type,
    ot: Type,
    trait_id: TraitId,
    cands: Seq<(Type, TraitImplKind)>,
    bindings: Seq<(TypeVariableId, Type)>,
    ctr: u64,
    limit: u32,
) -> (Result<TraitImplKind, Seq<TraitConstraint>>, Seq<(TypeVariableId, Type)>, u64)
    decreases limit, 1int, cands.len(),
{
    let c0 = TraitConstraint { typ: object_type, trait_id };
    if cands.len() == 0 {
        (Err(seq![c0]), bindings, ctr)
    } else if limit == 0 {
        (Err(seq![c0]), bindings, ctr)
    } else {
        let (inst, inst_map, c1) = spec_instantiate(cands[0].0, ctr);
        let (ok, fresh) = spec_unify(ot, inst, Seq::empty(), ambient, UNIFY_FOLLOW_LIMIT);
        if ok {
            let b2 = spec_bindings_extend(bindings, fresh);
            match cands[0].1 {
                TraitImplKind::Normal(impl_id) => {
                    let wc = if 0 <= impl_id.0 < impls.len() {
                        impls[impl_id.0 as int].where_clause@
                    } else {
                        Seq::empty()
                    };
                    let (vres, c2) = spec_validate(
                        imap,
                        impls,
                        ambient,
                        wc,
                        b2,
                        inst_map,
                        c1,
                        limit,
                    );
                    match vres {
                        Err(e) => (Err(e.push(c0)), b2, c2),
                        Ok(u) => (Ok(cands[0].1), b2, c2),
                    }
                },
                TraitImplKind::Assumed { object_type: aot } => (Ok(cands[0].1), b2, c1),
            }
        } else {
            spec_candidates(
                imap,
                impls,
                ambient,
                object_type,
                ot,
                trait_id,
                cands.drop_first(),
                bindings,
                c1,
                limit,
            )
        }
    }
}

/// Discharges each obligation of a `where` clause in order, with the
/// remaining recursion budget. Instantiation bindings rename the impl's
/// variables into the fresh copies unification matched against, and the
/// accumulated bindings are then applied; each obligation is searched with
/// a fresh binding set so candidate-internal choices do not leak out.
pub open spec fn spec_validate(
    imap: Seq<(TraitId, Vec<(Type, TraitImplKind)>)>,
    impls: Seq<TraitImpl>,
    ambient: Seq<(TypeVariableId, Type)>,
    wc: Seq<TraitConstraint>,
    type_bindings: Seq<(TypeVariableId, Type)>,
    inst_map: Seq<(TypeVariableId, Type)>,
    ctr: u64,
    limit: u32,
) -> (Result<(), Seq<TraitConstraint>>, u64)
    decreases limit, 0int, wc.len(),
{
    if wc.len() == 0 {
        (Ok(()), ctr)
    } else if limit == 0 {
        (Ok(()), ctr)
    } else {
        let ct = spec_substitute(spec_substitute(wc[0].typ, inst_map), type_bindings);
        let (res, b1, c1) = spec_helper(
            imap,
            impls,
            ambient,
            ct,
            wc[0].trait_id,
            Seq::empty(),
            ctr,
            (limit - 1) as u32,
        );
        match res {
            Err(e) => (Err(e), c1),
            Ok(k) => spec_validate(imap, impls, ambient, wc.drop_first(), type_bindings, inst_map, c1, limit),
        }
    }
}

/// A whole lookup: the helper run on empty bindings with the full budget.
pub open spec fn spec_try_lookup(s: NodeInterner, object_type: Type, trait_id: TraitId) -> (
    Result<TraitImplKind, Seq<TraitConstraint>>,
    Seq<(TypeVariableId, Type)>,
    u64,
) {
    spec_helper(
        s.trait_implementation_map.entries@,
        s.trait_implementations@,
        s.type_variable_bindings.entries@,
        object_type,
        trait_id,
        Seq::empty(),
        s.next_type_variable_id,
        IMPL_SEARCH_RECURSION_LIMIT,
    )
}

impl NodeInterner {
    /// The recursive search behind impl lookup. Only the variable counter
    /// of the store advances; the chosen bindings accumulate in
    /// `type_bindings`.
    pub fn lookup_trait_implementation_helper(
        &mut self,
        object_type: &Type,
        trait_id: TraitId,
        type_bindings: &mut TypeBindings,
        recursion_limit: u32,
    ) -> (r: Result<TraitImplKind, Vec<TraitConstraint>>)
        ensures
            ({
                let (res, b2, c2) = spec_helper(
                    old(self).trait_implementation_map.entries@,
                    old(self).trait_implementations@,
                    old(self).type_variable_bindings.entries@,
                    *object_type,
                    trait_id,
                    old(type_bindings).entries@,
                    old(self).next_type_variable_id,
                    recursion_limit,
                );
                &&& *final(self) == (NodeInterner {
                    next_type_variable_id: final(self).next_type_variable_id,
                    ..*old(self)
                })
                &&& final(self).next_type_variable_id == c2
                &&& final(type_bindings).entries@ == b2
                &&& match (r, res) {
                    (Ok(k1), Ok(k2)) => k1 == k2,
                    (Err(e1), Err(e2)) => e1@ == e2,
                    _ => false,
                }
            }),
        decreases recursion_limit, 2int, 0int,
    {
        if recursion_limit == 0 {
            return Err(vec![TraitConstraint::new(clone_type(object_type), trait_id)]);
        }
        let ot = substitute(object_type, type_bindings);
        proof {
            crate::tables::lemma_alist_get_from_index(
                self.trait_implementation_map.entries@,
                trait_id,
            );
        }
        let cands = match self.trait_implementation_map.get(&trait_id) {
            Some(v) => clone_impl_entries(v),
            None => {
                return Err(vec![TraitConstraint::new(clone_type(object_type), trait_id)]);
            },
        };
        proof {
            assert(cands@ == alist_get(
                self.trait_implementation_map.entries@,
                trait_id,
            )->0@);
        }
        let r = self.helper_candidates(
            object_type,
            &ot,
            trait_id,
            &cands,
            0,
            type_bindings,
            recursion_limit,
        );
        proof {
            assert(cands@.skip(0) =~= cands@);
        }
        r
    }

    fn helper_candidates(
        &mut self,
        object_type: &Type,
        ot: &Type,
        trait_id: TraitId,
        cands: &Vec<(Type, TraitImplKind)>,
        idx: usize,
        type_bindings: &mut TypeBindings,
        recursion_limit: u32,
    ) -> (r: Result<TraitImplKind, Vec<TraitConstraint>>)
        requires
            idx <= cands@.len(),
            recursion_limit >= 1,
        ensures
            ({
                let (res, b2, c2) = spec_candidates(
                    old(self).trait_implementation_map.entries@,
                    old(self).trait_implementations@,
                    old(self).type_variable_bindings.entries@,
                    *object_type,
                    *ot,
                    trait_id,
                    cands@.skip(idx as int),
                    old(type_bindings).entries@,
                    old(self).next_type_variable_id,
                    recursion_limit,
                );
                &&& *final(self) == (NodeInterner {
                    next_type_variable_id: final(self).next_type_variable_id,
                    ..*old(self)
                })
                &&& final(self).next_type_variable_id == c2
                &&& final(type_bindings).entries@ == b2
                &&& match (r, res) {
                    (Ok(k1), Ok(k2)) => k1 == k2,
                    (Err(e1), Err(e2)) => e1@ == e2,
                    _ => false,
                }
            }),
        decreases recursion_limit, 1int, cands@.len() - idx,
    {
        if idx == cands.len() {
            proof {
                assert(cands@.skip(idx as int).len() == 0);
            }
            return Err(vec![TraitConstraint::new(clone_type(object_type), trait_id)]);
        }
        proof {
            assert(cands@.skip(idx as int)[0] == cands@[idx as int]);
            assert(cands@.skip(idx as int).drop_first() =~= cands@.skip(idx as int + 1));
        }
        let ghost pre_ctr = self.next_type_variable_id;
        let ghost pre_bindings = type_bindings.entries@;
        let ghost ambient0 = self.type_variable_bindings.entries@;
        let existing_object_type = clone_type(&cands[idx].0);
        let (inst, inst_bindings) = self.instantiate(&existing_object_type);
        let ghost c1_s = spec_instantiate(cands@[idx as int].0, pre_ctr).2;
        let mut fresh: TypeBindings = Table::new();
        proof {
            assert(fresh.entries@ =~= Seq::<(TypeVariableId, Type)>::empty());
            assert(inst == spec_instantiate(cands@[idx as int].0, pre_ctr).0);
            assert(inst_bindings.entries@ == spec_instantiate(cands@[idx as int].0, pre_ctr).1);
        }
        let ok = try_unify(ot, &inst, &mut fresh, &self.type_variable_bindings, UNIFY_FOLLOW_LIMIT);
        proof {
            let (ok_s, fresh_s) = spec_unify(
                *ot,
                spec_instantiate(cands@[idx as int].0, pre_ctr).0,
                Seq::empty(),
                ambient0,
                UNIFY_FOLLOW_LIMIT,
            );
            assert(ok == ok_s);
            assert(fresh.entries@ == fresh_s);
        }
        if ok {
            bindings_extend(type_bindings, &fresh);
            proof {
                assert(type_bindings.entries@ == spec_bindings_extend(pre_bindings, fresh.entries@));
            }
            match &cands[idx].1 {
                TraitImplKind::Normal(impl_id) => {
                    let wc = if impl_id.0 < self.trait_implementations.len() {
                        clone_constraints(&self.trait_implementations[impl_id.0].where_clause)
                    } else {
                        Vec::new()
                    };
                    proof {
                        if impl_id.0 < self.trait_implementations@.len() {
                            assert(wc@ == self.trait_implementations@[impl_id.0 as int]
                                .where_clause@);
                        } else {
                            assert(wc@ =~= Seq::<TraitConstraint>::empty());
                        }
                        assert(wc@.skip(0) =~= wc@);
                    }
                    match self.validate_where_clause(
                        &wc,
                        0,
                        type_bindings,
                        &inst_bindings,
                        recursion_limit,
                    ) {
                        Err(mut errors) => {
                            errors.push(TraitConstraint::new(clone_type(object_type), trait_id));
                            Err(errors)
                        },
                        Ok(()) => Ok(TraitImplKind::Normal(*impl_id)),
                    }
                },
                TraitImplKind::Assumed { object_type: aot } => {
                    proof {
                        assert(cands@[idx as int].1 == (TraitImplKind::Assumed {
                            object_type: *aot,
                        }));
                    }
                    Ok(TraitImplKind::Assumed { object_type: clone_type(aot) })
                },
            }
        } else {
            self.helper_candidates(
                object_type,
                ot,
                trait_id,
                cands,
                idx + 1,
                type_bindings,
                recursion_limit,
            )
        }
    }

    /// Checks each constraint of a `where` clause with the remaining
    /// budget; `type_bindings` is only read, and each obligation starts
    /// from a fresh binding set.
    fn validate_where_clause(
        &mut self,
        where_clause: &Vec<TraitConstraint>,
        idx: usize,
        type_bindings: &TypeBindings,
        instantiation_bindings: &TypeBindings,
        recursion_limit: u32,
    ) -> (r: Result<(), Vec<TraitConstraint>>)
        requires
            idx <= where_clause@.len(),
            recursion_limit >= 1,
        ensures
            ({
                let (res, c2) = spec_validate(
                    old(self).trait_implementation_map.entries@,
                    old(self).trait_implementations@,
                    old(self).type_variable_bindings.entries@,
                    where_clause@.skip(idx as int),
                    type_bindings.entries@,
                    instantiation_bindings.entries@,
                    old(self).next_type_variable_id,
                    recursion_limit,
                );
                &&& *final(self) == (NodeInterner {
                    next_type_variable_id: final(self).next_type_variable_id,
                    ..*old(self)
                })
                &&& final(self).next_type_variable_id == c2
                &&& match (r, res) {
                    (Ok(u1), Ok(u2)) => true,
                    (Err(e1), Err(e2)) => e1@ == e2,
                    _ => false,
                }
            }),
        decreases recursion_limit, 0int, where_clause@.len() - idx,
    {
        if idx == where_clause.len() {
            proof {
                assert(where_clause@.skip(idx as int).len() == 0);
            }
            return Ok(());
        }
        proof {
            assert(where_clause@.skip(idx as int)[0] == where_clause@[idx as int]);
            assert(where_clause@.skip(idx as int).drop_first() =~= where_clause@.skip(
                idx as int + 1,
            ));
        }
        // Instantiation bindings are applied first to undo any renaming of
        // the impl's variables; with explicit binding maps this forced
        // substitution is an ordinary substitution.
        let constraint_type = substitute(&where_clause[idx].typ, instantiation_bindings);
        let constraint_type = substitute(&constraint_type, type_bindings);

        let mut fresh: TypeBindings = Table::new();
        proof {
            assert(fresh.entries@ =~= Seq::<(TypeVariableId, Type)>::empty());
        }
        match self.lookup_trait_implementation_helper(
            &constraint_type,
            where_clause[idx].trait_id,
            &mut fresh,
            recursion_limit - 1,
        ) {
            Err(e) => Err(e),
            Ok(_) => self.validate_where_clause(
                where_clause,
                idx + 1,
                type_bindings,
                instantiation_bindings,
                recursion_limit,
            ),
        }
    }

    /// Tries to find an impl satisfying `object_type: trait_id` without
    /// applying any bindings; on success the bindings the match requires
    /// are returned alongside the impl kind. On failure the chain of
    /// unresolved constraints is returned, innermost first.
    pub fn try_lookup_trait_implementation(&mut self, object_type: &Type, trait_id: TraitId) -> (r:
        Result<(TraitImplKind, TypeBindings), Vec<TraitConstraint>>)
        ensures
            ({
                let (res, b2, c2) = spec_try_lookup(*old(self), *object_type, trait_id);
                &&& *final(self) == (NodeInterner {
                    next_type_variable_id: final(self).next_type_variable_id,
                    ..*old(self)
                })
                &&& final(self).next_type_variable_id == c2
                &&& match (r, res) {
                    (Ok((k1, tb)), Ok(k2)) => k1 == k2 && tb.entries@ == b2,
                    (Err(e1), Err(e2)) => e1@ == e2,
                    _ => false,
                }
            }),
    {
        let mut bindings: TypeBindings = Table::new();
        proof {
            assert(bindings.entries@ =~= Seq::<(TypeVariableId, Type)>::empty());
        }
        match self.lookup_trait_implementation_helper(
            object_type,
            trait_id,
            &mut bindings,
            IMPL_SEARCH_RECURSION_LIMIT,
        ) {
            Ok(impl_kind) => Ok((impl_kind, bindings)),
            Err(e) => Err(e),
        }
    }

    /// Finds an impl satisfying `object_type: trait_id` and applies the
    /// bindings the match requires to the ambient universe. On failure the
    /// chain of unresolved constraints is returned, innermost first.
    pub fn lookup_trait_implementation(&mut self, object_type: &Type, trait_id: TraitId) -> (r:
        Result<TraitImplKind, Vec<TraitConstraint>>)
        ensures
            ({
                let (res, b2, c2) = spec_try_lookup(*old(self), *object_type, trait_id);
                &&& *final(self) == (NodeInterner {
                    next_type_variable_id: final(self).next_type_variable_id,
                    type_variable_bindings: final(self).type_variable_bindings,
                    ..*old(self)
                })
                &&& final(self).next_type_variable_id == c2
                &&& match (r, res) {
                    (Ok(k1), Ok(k2)) => k1 == k2 && final(self).type_variable_bindings.entries@
                        == spec_bindings_extend(old(self).type_variable_bindings.entries@, b2),
                    (Err(e1), Err(e2)) => e1@ == e2 && final(self).type_variable_bindings == old(
                        self,
                    ).type_variable_bindings,
                    _ => false,
                }
            }),
    {
        match self.try_lookup_trait_implementation(object_type, trait_id) {
            Ok((impl_kind, bindings)) => {
                self.apply_type_bindings(&bindings);
                Ok(impl_kind)
            },
            Err(e) => Err(e),
        }
    }

    /// The id the next registered trait impl must use.
    pub fn next_trait_impl_id(&self) -> (r: TraitImplId)
        ensures
            r == (TraitImplId(self.trait_implementations@.len() as usize)),
    {
        TraitImplId(self.trait_implementations.len())
    }

    /// The impl registered under `id`.
    pub fn get_trait_implementation(&self, id: TraitImplId) -> (r: &TraitImpl)
        requires
            id.0 < self.trait_implementations@.len(),
        ensures
            *r == self.trait_implementations@[id.0 as int],
    {
        &self.trait_implementations[id.0]
    }

    /// Records that `object_type: trait_id` is assumed to hold (for a
    /// surrounding `where` clause). Succeeds if and only if no existing
    /// impl already resolves for the type, so an assumption never shadows
    /// a real impl.
    pub fn add_assumed_trait_implementation(&mut self, object_type: Type, trait_id: TraitId) -> (r:
        bool)
        ensures
            ({
                let (res, b2, c2) = spec_try_lookup(*old(self), object_type, trait_id);
                &&& r == (res is Err)
                &&& *final(self) == (NodeInterner {
                    next_type_variable_id: final(self).next_type_variable_id,
                    trait_implementation_map: final(self).trait_implementation_map,
                    ..*old(self)
                })
                &&& final(self).next_type_variable_id == c2
                &&& (res is Ok ==> final(self).trait_implementation_map == old(
                    self,
                ).trait_implementation_map)
                &&& (res is Err ==> exists|v: Vec<(Type, TraitImplKind)>|
                    final(self).trait_implementation_map.entries@ == crate::tables::alist_insert(
                        old(self).trait_implementation_map.entries@,
                        trait_id,
                        v,
                    ) && v@ == impl_entries_of(*old(self), trait_id).push(
                        (object_type, TraitImplKind::Assumed { object_type }),
                    ))
            }),
    {
        if self.try_lookup_trait_implementation(&object_type, trait_id).is_ok() {
            return false;
        }
        let entry = (clone_type(&object_type), TraitImplKind::Assumed { object_type });
        proof {
            assert(entry.0 == entry.1->Assumed_object_type);
        }
        self.impl_map_push(trait_id, entry);
        true
    }

    /// Appends one entry to a trait's candidate list, creating the list
    /// when the trait has none yet.
    fn impl_map_push(&mut self, trait_id: TraitId, entry: (Type, TraitImplKind))
        ensures
            *final(self) == (NodeInterner {
                trait_implementation_map: final(self).trait_implementation_map,
                ..*old(self)
            }),
            exists|v: Vec<(Type, TraitImplKind)>|
                final(self).trait_implementation_map.entries@ == crate::tables::alist_insert(
                    old(self).trait_implementation_map.entries@,
                    trait_id,
                    v,
                ) && v@ == impl_entries_of(*old(self), trait_id).push(entry),
    {
        proof {
            crate::tables::lemma_alist_get_from_index(
                self.trait_implementation_map.entries@,
                trait_id,
            );
        }
        let mut list = match self.trait_implementation_map.get(&trait_id) {
            Some(v) => clone_impl_entries(v),
            None => Vec::new(),
        };
        list.push(entry);
        let ghost v2 = list;
        self.trait_implementation_map.insert(trait_id, list);
        proof {
            assert(final(self).trait_implementation_map.entries@ == crate::tables::alist_insert(
                old(self).trait_implementation_map.entries@,
                trait_id,
                v2,
            ) && v2@ == impl_entries_of(*old(self), trait_id).push(entry));
        }
    }

    /// Removes every assumed entry for a trait, keeping the concrete
    /// impls; a trait without entries ends up with an empty list.
    pub fn remove_assumed_trait_implementations_for_trait(&mut self, trait_id: TraitId)
        ensures
            *final(self) == (NodeInterner {
                trait_implementation_map: final(self).trait_implementation_map,
                ..*old(self)
            }),
            exists|v: Vec<(Type, TraitImplKind)>|
                final(self).trait_implementation_map.entries@ == crate::tables::alist_insert(
                    old(self).trait_implementation_map.entries@,
                    trait_id,
                    v,
                ) && v@ == spec_retain_normal(impl_entries_of(*old(self), trait_id)),
    {
        proof {
            crate::tables::lemma_alist_get_from_index(
                self.trait_implementation_map.entries@,
                trait_id,
            );
        }
        let list = match self.trait_implementation_map.get(&trait_id) {
            Some(v) => clone_impl_entries(v),
            None => Vec::new(),
        };
        let mut kept: Vec<(Type, TraitImplKind)> = Vec::new();
        let n = list.len();
        let mut i: usize = 0;
        while i < n
            invariant
                i <= n,
                n == list@.len(),
                kept@ == spec_retain_normal(list@.take(i as int)),
            decreases n - i,
        {
            proof {
                assert(list@.take(i as int + 1).drop_last() =~= list@.take(i as int));
                assert(list@.take(i as int + 1).last() == list@[i as int]);
            }
            if matches!(list[i].1, TraitImplKind::Normal(_)) {
                let t = clone_type(&list[i].0);
                let k = crate::node_interner::clone_trait_impl_kind(&list[i].1);
                kept.push((t, k));
            }
            i = i + 1;
        }
        proof {
            assert(list@.take(n as int) =~= list@);
        }
        let ghost v2 = kept;
        self.trait_implementation_map.insert(trait_id, kept);
        proof {
            assert(final(self).trait_implementation_map.entries@ == crate::tables::alist_insert(
                old(self).trait_implementation_map.entries@,
                trait_id,
                v2,
            ) && v2@ == spec_retain_normal(impl_entries_of(*old(self), trait_id)));
        }
    }
}

/// The candidate list a trait currently has, empty when none.
pub open spec fn impl_entries_of(s: NodeInterner, trait_id: TraitId) -> Seq<(Type, TraitImplKind)> {
    match alist_get(s.trait_implementation_map.entries@, trait_id) {
        Some(v) => v@,
        None => Seq::empty(),
    }
}

/// The entries of a candidate list that are concrete (`Normal`) impls, in
/// order.
pub open spec fn spec_retain_normal(s: Seq<(Type, TraitImplKind)>) -> Seq<(Type, TraitImplKind)>
    decreases s.len(),
{
    if s.len() == 0 {
        Seq::empty()
    } else if s.last().1 is Normal {
        spec_retain_normal(s.drop_last()).push(s.last())
    } else {
        spec_retain_normal(s.drop_last())
    }
}


/// Every method of an impl has its modifiers (so its name is known) and a
/// function-shaped signature on record.
pub open spec fn impl_methods_ok(s: NodeInterner, ms: Seq<crate::node_interner::FuncId>) -> bool
    decreases ms.len(),
{
    ms.len() == 0 || {
        &&& alist_get(s.function_modifiers.entries@, ms[0]) is Some
        &&& alist_get(s.func_meta.entries@, ms[0]) is Some
        &&& crate::methods::spec_fn_shaped(alist_get(s.func_meta.entries@, ms[0])->0.typ)
        &&& impl_methods_ok(s, ms.drop_first())
    }
}

pub proof fn lemma_impl_methods_ok_index(
    s: NodeInterner,
    ms: Seq<crate::node_interner::FuncId>,
    j: int,
)
    requires
        impl_methods_ok(s, ms),
        0 <= j < ms.len(),
    ensures
        alist_get(s.function_modifiers.entries@, ms[j]) is Some,
        alist_get(s.func_meta.entries@, ms[j]) is Some,
        crate::methods::spec_fn_shaped(alist_get(s.func_meta.entries@, ms[j])->0.typ),
    decreases j,
{
    if j > 0 {
        lemma_impl_methods_ok_index(s, ms.drop_first(), j - 1);
        assert(ms.drop_first()[j - 1] == ms[j]);
    }
}

/// The recorded name of a function.
pub open spec fn name_of(s: NodeInterner, fid: crate::node_interner::FuncId) -> String {
    alist_get(s.function_modifiers.entries@, fid)->0.name
}

/// The duplicate `add_method` reports: for a struct receiver, the method
/// an exact-receiver lookup already finds; `None` for every other
/// receiver.
pub open spec fn add_method_result(s: NodeInterner, t: Type, name: String) -> Option<
    crate::node_interner::FuncId,
> {
    match crate::methods::strip_mut_refs(t) {
        Type::Struct(sid, _) => crate::methods::spec_lookup_method(
            s,
            crate::methods::strip_mut_refs(t),
            sid,
            name,
            true,
        ).0,
        _ => None,
    }
}

/// One `add_method` step with its (determined) result.
pub open spec fn add_one_method_rel(
    mid: NodeInterner,
    post: NodeInterner,
    object_type: Type,
    name: String,
    m: crate::node_interner::FuncId,
) -> bool {
    crate::methods::add_method_rel(
        mid,
        post,
        object_type,
        name,
        m,
        true,
        add_method_result(mid, object_type, name),
    )
}

/// Registering the methods of an impl one by one, each under the impl's
/// object type as a trait method.
pub open spec fn add_methods_rel(
    pre: NodeInterner,
    post: NodeInterner,
    object_type: Type,
    ms: Seq<crate::node_interner::FuncId>,
) -> bool
    decreases ms.len(),
{
    if ms.len() == 0 {
        post == pre
    } else {
        exists|mid: NodeInterner|
            add_methods_rel(pre, mid, object_type, ms.drop_last()) && #[trigger] add_one_method_rel(
                mid,
                post,
                object_type,
                name_of(pre, ms.last()),
                ms.last(),
            )
    }
}

pub proof fn lemma_add_methods_snoc(
    pre: NodeInterner,
    mid: NodeInterner,
    post: NodeInterner,
    object_type: Type,
    ms: Seq<crate::node_interner::FuncId>,
)
    requires
        ms.len() > 0,
        add_methods_rel(pre, mid, object_type, ms.drop_last()),
        add_one_method_rel(mid, post, object_type, name_of(pre, ms.last()), ms.last()),
    ensures
        add_methods_rel(pre, post, object_type, ms),
{
    assert(exists|m: NodeInterner|
        add_methods_rel(pre, m, object_type, ms.drop_last()) && #[trigger] add_one_method_rel(
            m,
            post,
            object_type,
            name_of(pre, ms.last()),
            ms.last(),
        )) by {
        assert(add_methods_rel(pre, mid, object_type, ms.drop_last()) && add_one_method_rel(
            mid,
            post,
            object_type,
            name_of(pre, ms.last()),
            ms.last(),
        ));
    }
}

impl NodeInterner {
    /// Registers a concrete trait implementation under the id the caller
    /// reserved with `next_trait_impl_id`. The impl is stored first; a
    /// probe with a freshly instantiated copy of the object type then
    /// rejects the impl when a concrete impl for an overlapping type
    /// already resolves, returning that impl's defining span and file
    /// (overlap with assumed impls never blocks a concrete impl). On
    /// success the impl's methods are registered under the object type and
    /// the type joins the trait's candidate list.
    pub fn add_trait_implementation(
        &mut self,
        object_type: Type,
        trait_id: TraitId,
        impl_id: TraitImplId,
        trait_impl: TraitImpl,
    ) -> (r: Result<(), (crate::location::Span, crate::location::FileId)>)
        requires
            impl_id.0 == old(self).trait_implementations@.len(),
            crate::methods::methods_wf(*old(self)),
            crate::methods::add_method_receiver_ok(object_type),
            impl_methods_ok(*old(self), trait_impl.methods@),
        ensures
            ({
                let (inst, imap0, c1) = spec_instantiate(
                    object_type,
                    old(self).next_type_variable_id,
                );
                let impls2 = old(self).trait_implementations@.push(trait_impl);
                let (res, b2, c2) = spec_helper(
                    old(self).trait_implementation_map.entries@,
                    impls2,
                    old(self).type_variable_bindings.entries@,
                    inst,
                    trait_id,
                    Seq::empty(),
                    c1,
                    IMPL_SEARCH_RECURSION_LIMIT,
                );
                let found_normal = res is Ok && res->Ok_0 is Normal;
                &&& final(self).trait_implementations@ == impls2
                &&& (r is Err <==> found_normal)
                &&& (found_normal ==> {
                    let eid = res->Ok_0->Normal_0;
                    &&& r->Err_0 == (if 0 <= eid.0 < impls2.len() {
                        (impls2[eid.0 as int].ident.span, impls2[eid.0 as int].file)
                    } else {
                        (
                            crate::location::Span { start: 0, end: 0 },
                            crate::location::FileId(u32::MAX),
                        )
                    })
                    &&& *final(self) == (NodeInterner {
                        trait_implementations: final(self).trait_implementations,
                        next_type_variable_id: c2,
                        ..*old(self)
                    })
                })
                &&& (!found_normal ==> exists|
                    mid: NodeInterner,
                    mid2: NodeInterner,
                    v: Vec<(Type, TraitImplKind)>,
                |
                    {
                        &&& mid == (NodeInterner {
                            trait_implementations: mid.trait_implementations,
                            next_type_variable_id: c2,
                            ..*old(self)
                        })
                        &&& mid.trait_implementations@ == impls2
                        &&& add_methods_rel(mid, mid2, object_type, trait_impl.methods@)
                        &&& *final(self) == (NodeInterner {
                            trait_implementation_map: final(self).trait_implementation_map,
                            ..mid2
                        })
                        &&& final(self).trait_implementation_map.entries@ == alist_insert(
                            mid2.trait_implementation_map.entries@,
                            trait_id,
                            v,
                        )
                        &&& v@ == impl_entries_of(mid2, trait_id).push(
                            (object_type, TraitImplKind::Normal(impl_id)),
                        )
                    })
                &&& crate::methods::methods_wf(*final(self))
            }),
    {
        let ghost pre = *old(self);
        let mut methods: Vec<crate::node_interner::FuncId> = Vec::new();
        let mut i: usize = 0;
        while i < trait_impl.methods.len()
            invariant
                i <= trait_impl.methods@.len(),
                methods@ == trait_impl.methods@.take(i as int),
            decreases trait_impl.methods@.len() - i,
        {
            methods.push(trait_impl.methods[i]);
            proof {
                assert(trait_impl.methods@.take(i as int).push(trait_impl.methods@[i as int])
                    =~= trait_impl.methods@.take(i as int + 1));
            }
            i = i + 1;
        }
        proof {
            assert(trait_impl.methods@.take(trait_impl.methods@.len() as int)
                =~= trait_impl.methods@);
        }
        let ghost ms = trait_impl.methods@;

        self.trait_implementations.push(trait_impl);

        // Overlapping assumed impls are ignored here: an assumption from a
        // `where` clause must never prevent defining a concrete impl.
        let (instantiated_object_type, _substitutions) = self.instantiate(&object_type);

        match self.try_lookup_trait_implementation(&instantiated_object_type, trait_id) {
            Ok((TraitImplKind::Normal(existing), _)) => {
                if existing.0 < self.trait_implementations.len() {
                    let existing_impl = &self.trait_implementations[existing.0];
                    return Err((existing_impl.ident.span, existing_impl.file));
                }
                return Err((
                    crate::location::Span::new(0, 0),
                    crate::location::FileId(u32::MAX),
                ));
            },
            _ => {},
        }

        let ghost mid0 = *self;
        let n = methods.len();
        let mut j: usize = 0;
        proof {
            assert(add_methods_rel(mid0, *self, object_type, ms.take(0)));
        }
        while j < n
            invariant
                j <= n,
                n == ms.len(),
                methods@ == ms,
                crate::methods::methods_wf(*self),
                crate::methods::add_method_receiver_ok(object_type),
                impl_methods_ok(pre, ms),
                self.function_modifiers == pre.function_modifiers,
                self.func_meta == pre.func_meta,
                mid0.function_modifiers == pre.function_modifiers,
                *self == (NodeInterner {
                    struct_methods: self.struct_methods,
                    primitive_methods: self.primitive_methods,
                    type_variable_bindings: self.type_variable_bindings,
                    next_type_variable_id: self.next_type_variable_id,
                    ..mid0
                }),
                add_methods_rel(mid0, *self, object_type, ms.take(j as int)),
            decreases n - j,
        {
            proof {
                lemma_impl_methods_ok_index(pre, ms, j as int);
            }
            let method = methods[j];
            let method_name = self.function_name(&method).clone();
            proof {
                assert(method_name == name_of(mid0, method));
            }
            let ghost before = *self;
            let dup = self.add_method(&object_type, method_name, method, true);
            proof {
                assert(ms.take(j as int + 1).drop_last() =~= ms.take(j as int));
                assert(ms.take(j as int + 1).last() == ms[j as int]);
                if crate::methods::strip_mut_refs(object_type) is Struct {
                    assert(dup == add_method_result(before, object_type, name_of(mid0, ms[j as int])));
                } else {
                    assert(dup is None);
                }
                assert(add_one_method_rel(
                    before,
                    *self,
                    object_type,
                    name_of(mid0, ms[j as int]),
                    ms[j as int],
                ));
                lemma_add_methods_snoc(
                    mid0,
                    before,
                    *self,
                    object_type,
                    ms.take(j as int + 1),
                );
            }
            j = j + 1;
        }
        proof {
            assert(ms.take(n as int) =~= ms);
        }
        let ghost mid2 = *self;

        // With explicit binding maps the probe bound only its own fresh
        // copy of the object type, so the generalized entry is the object
        // type itself.
        let entry_type = clone_type(&object_type);
        self.impl_map_push(trait_id, (entry_type, TraitImplKind::Normal(impl_id)));
        proof {
            assert(crate::methods::methods_wf(*self));
        }
        Ok(())
    }
}

} // verus!
