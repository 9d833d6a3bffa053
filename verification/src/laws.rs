//! The index's cross-cutting guarantees, stated once as proof functions so
//! a reader finds them written out rather than implied: ids of different
//! kinds never collide, stored nodes are stable under unrelated insertions
//! and updates, impl ids stay dense, an ambiguous method name forces
//! type-directed dispatch, method dispatch returns only listed candidates
//! with directly defined ones taking precedence, and the impl search only
//! ever hands back a recorded impl — so assumed entries never reject a
//! registration — and on failure reports a chain of unresolved constraints
//! ending in its own goal.

use vstd::prelude::*;
use crate::arena::Index;
use crate::hir::{TraitConstraint, TraitImpl};
use crate::location::{FileId, Span};
use crate::hir::FuncMeta;
use crate::methods::{spec_find_matching, spec_fm_list};
use crate::node_interner::{
    ExprId, FuncId, Methods, Node, NodeInterner, StmtId, TraitId, TraitImplId, TraitImplKind,
    TypeMethodKey,
};
use crate::solver::{
    spec_candidates, spec_helper, spec_instantiate, spec_retain_normal, spec_unify,
    UNIFY_FOLLOW_LIMIT,
};
use crate::tables::alist_get;
use crate::types::{Type, TypeVariableId};

verus! {

/// Ids of different kinds never share an arena index: an expression id and
/// a statement id of the same store always differ in their underlying
/// index, because one slot holds one node of one kind.
pub proof fn lemma_expr_stmt_ids_distinct(s: NodeInterner, e: ExprId, st: StmtId)
    requires
        s.spec_is_expr(e),
        s.spec_is_stmt(st),
    ensures
        e.0 != st.0,
{
    if e.0 == st.0 {
        assert(s.spec_node_at(e.0) is Expression);
        assert(s.spec_node_at(st.0) is Statement);
    }
}

/// Id stability under growth: appending any node leaves every live index
/// resolving to the same node as before.
pub proof fn lemma_push_preserves_nodes(
    pre: NodeInterner,
    post: NodeInterner,
    node: Node,
    e: Index,
)
    requires
        post.nodes.items@ == pre.nodes.items@.push(node),
        pre.nodes.spec_valid(e),
    ensures
        post.nodes.spec_valid(e),
        post.spec_node_at(e) == pre.spec_node_at(e),
{
}

/// Id stability under updates: replacing the node in one slot leaves every
/// other live index resolving to the same node, and the updated index
/// resolving to the new node.
pub proof fn lemma_update_preserves_other_nodes(
    pre: NodeInterner,
    post: NodeInterner,
    i: int,
    node: Node,
    e: Index,
)
    requires
        0 <= i < pre.nodes.items@.len(),
        post.nodes.items@ == pre.nodes.items@.update(i, node),
        pre.nodes.spec_valid(e),
    ensures
        post.nodes.spec_valid(e),
        e.index != i ==> post.spec_node_at(e) == pre.spec_node_at(e),
        e.index == i ==> post.spec_node_at(e) == node,
{
}

/// Impl id density: an impl registered under the reserved id makes the
/// count one larger, and the id resolves to the registered impl.
pub proof fn lemma_impl_id_density(
    pre: NodeInterner,
    post: NodeInterner,
    impl_id: TraitImplId,
    trait_impl: TraitImpl,
)
    requires
        impl_id.0 == pre.trait_implementations@.len(),
        post.trait_implementations@ == pre.trait_implementations@.push(trait_impl),
    ensures
        post.trait_implementations@.len() == impl_id.0 + 1,
        post.trait_implementations@[impl_id.0 as int] == trait_impl,
{
}

/// A name defined both directly on a type and through a trait impl is
/// never returned as unambiguous, so dispatch falls through to the
/// type-directed search.
pub proof fn lemma_ambiguous_name_forces_dispatch(m: Methods)
    requires
        m.direct@.len() > 0,
        m.trait_impl_methods@.len() > 0,
    ensures
        m.spec_get_unambiguous() is None,
{
}


/// A type-directed candidate scan only ever returns a listed candidate:
/// dispatch never invents a method.
pub proof fn lemma_fm_list_some_is_candidate(
    metas: Seq<(FuncId, FuncMeta)>,
    ambient: Seq<(TypeVariableId, Type)>,
    cands: Seq<FuncId>,
    typ: Type,
    ctr: u64,
)
    requires
        spec_fm_list(metas, ambient, cands, typ, ctr).0 is Some,
    ensures
        exists|j: int|
            0 <= j < cands.len() && #[trigger] cands[j] == spec_fm_list(
                metas,
                ambient,
                cands,
                typ,
                ctr,
            ).0->0,
    decreases cands.len(),
{
    let r = spec_fm_list(metas, ambient, cands, typ, ctr);
    match alist_get(metas, cands[0]) {
        None => {
            lemma_fm_list_some_is_candidate(metas, ambient, cands.drop_first(), typ, ctr);
            let rd = spec_fm_list(metas, ambient, cands.drop_first(), typ, ctr);
            let j = choose|j: int|
                0 <= j < cands.drop_first().len() && #[trigger] cands.drop_first()[j] == rd.0->0;
            assert(cands[j + 1] == r.0->0);
        },
        Some(meta) => {
            let (it, map, c1) = spec_instantiate(meta.typ, ctr);
            match it {
                Type::Function(args, _ret, _env) => match *args {
                    crate::types::TypeList::Cons(obj, _rest) => {
                        let (ok, fresh) = spec_unify(
                            *obj,
                            typ,
                            Seq::empty(),
                            ambient,
                            UNIFY_FOLLOW_LIMIT,
                        );
                        if ok {
                            assert(cands[0] == r.0->0);
                        } else {
                            lemma_fm_list_some_is_candidate(
                                metas,
                                ambient,
                                cands.drop_first(),
                                typ,
                                c1,
                            );
                            let rd = spec_fm_list(metas, ambient, cands.drop_first(), typ, c1);
                            let j = choose|j: int|
                                0 <= j < cands.drop_first().len() && #[trigger] cands.drop_first()[j]
                                    == rd.0->0;
                            assert(cands[j + 1] == r.0->0);
                        }
                    },
                    crate::types::TypeList::Nil => {
                        lemma_fm_list_some_is_candidate(metas, ambient, cands.drop_first(), typ, c1);
                        let rd = spec_fm_list(metas, ambient, cands.drop_first(), typ, c1);
                        let j = choose|j: int|
                            0 <= j < cands.drop_first().len() && #[trigger] cands.drop_first()[j]
                                == rd.0->0;
                        assert(cands[j + 1] == r.0->0);
                    },
                },
                _ => {
                    lemma_fm_list_some_is_candidate(metas, ambient, cands.drop_first(), typ, c1);
                    let rd = spec_fm_list(metas, ambient, cands.drop_first(), typ, c1);
                    let j = choose|j: int|
                        0 <= j < cands.drop_first().len() && #[trigger] cands.drop_first()[j]
                            == rd.0->0;
                    assert(cands[j + 1] == r.0->0);
                },
            }
        },
    }
}

/// Direct methods win: when any directly defined candidate matches the
/// queried type, the whole dispatch returns that scan's result — a direct
/// candidate — and the trait-impl and generic fallback lists are never
/// consulted.
pub proof fn lemma_direct_method_precedence(
    metas: Seq<(FuncId, FuncMeta)>,
    primitive_methods: Seq<((TypeMethodKey, String), Methods)>,
    ambient: Seq<(TypeVariableId, Type)>,
    methods: Methods,
    name: String,
    typ: Type,
    ctr: u64,
)
    requires
        spec_fm_list(metas, ambient, methods.direct@, typ, ctr).0 is Some,
    ensures
        spec_find_matching(metas, primitive_methods, ambient, methods, name, typ, ctr).0
            == spec_fm_list(metas, ambient, methods.direct@, typ, ctr).0,
        exists|j: int|
            0 <= j < methods.direct@.len() && #[trigger] methods.direct@[j] == spec_find_matching(
                metas,
                primitive_methods,
                ambient,
                methods,
                name,
                typ,
                ctr,
            ).0->0,
{
    lemma_fm_list_some_is_candidate(metas, ambient, methods.direct@, typ, ctr);
}

/// Overlap exclusion: when the probe of a later registration selects the
/// concrete impl registered first, the later registration is rejected with
/// exactly the first impl's defining span and file. The hypotheses are
/// what `add_trait_implementation` ensures for the two registrations.
pub proof fn lemma_overlap_exclusion(
    impls_before_first: Seq<TraitImpl>,
    first_impl: TraitImpl,
    first_id: TraitImplId,
    second_impl: TraitImpl,
    impls_at_second: Seq<TraitImpl>,
    second_result: Result<(), (Span, FileId)>,
    probe_found: TraitImplId,
)
    requires
        first_id.0 == impls_before_first.len(),
        impls_at_second == impls_before_first.push(first_impl).push(second_impl),
        probe_found == first_id,
        second_result is Err,
        second_result->Err_0 == (if 0 <= probe_found.0 < impls_at_second.len() {
            (
                impls_at_second[probe_found.0 as int].ident.span,
                impls_at_second[probe_found.0 as int].file,
            )
        } else {
            (Span { start: 0, end: 0 }, FileId(u32::MAX))
        }),
    ensures
        second_result->Err_0 == (first_impl.ident.span, first_impl.file),
{
    assert(impls_at_second[first_id.0 as int] == first_impl);
}

/// The kind a candidate scan hands back on success is one of the scanned
/// entries' kinds: the scan never invents an impl.
pub proof fn lemma_candidates_ok_is_entry(
    imap: Seq<(TraitId, Vec<(Type, TraitImplKind)>)>,
    impls: Seq<TraitImpl>,
    ambient: Seq<(TypeVariableId, Type)>,
    object_type: Type,
    ot: Type,
    trait_id: TraitId,
    cands: Seq<(Type, TraitImplKind)>,
    bindings: Seq<(TypeVariableId, Type)>,
    ctr: u64,
    limit: u32,
)
    requires
        spec_candidates(
            imap,
            impls,
            ambient,
            object_type,
            ot,
            trait_id,
            cands,
            bindings,
            ctr,
            limit,
        ).0 is Ok,
    ensures
        exists|j: int|
            0 <= j < cands.len() && #[trigger] cands[j].1 == spec_candidates(
                imap,
                impls,
                ambient,
                object_type,
                ot,
                trait_id,
                cands,
                bindings,
                ctr,
                limit,
            ).0->Ok_0,
    decreases cands.len(),
{
    let r = spec_candidates(
        imap,
        impls,
        ambient,
        object_type,
        ot,
        trait_id,
        cands,
        bindings,
        ctr,
        limit,
    );
    let (inst, inst_map, c1) = spec_instantiate(cands[0].0, ctr);
    let (ok, fresh) = spec_unify(ot, inst, Seq::empty(), ambient, UNIFY_FOLLOW_LIMIT);
    if ok {
        assert(cands[0].1 == r.0->Ok_0);
    } else {
        lemma_candidates_ok_is_entry(
            imap,
            impls,
            ambient,
            object_type,
            ot,
            trait_id,
            cands.drop_first(),
            bindings,
            c1,
            limit,
        );
        let rd = spec_candidates(
            imap,
            impls,
            ambient,
            object_type,
            ot,
            trait_id,
            cands.drop_first(),
            bindings,
            c1,
            limit,
        );
        let j = choose|j: int| 0 <= j < cands.drop_first().len() && #[trigger] cands.drop_first()[j].1
            == rd.0->Ok_0;
        assert(cands[j + 1].1 == r.0->Ok_0);
    }
}

/// On success the whole search hands back a kind recorded for the searched
/// trait in the impl map.
pub proof fn lemma_helper_ok_is_entry(
    imap: Seq<(TraitId, Vec<(Type, TraitImplKind)>)>,
    impls: Seq<TraitImpl>,
    ambient: Seq<(TypeVariableId, Type)>,
    object_type: Type,
    trait_id: TraitId,
    bindings: Seq<(TypeVariableId, Type)>,
    ctr: u64,
    limit: u32,
)
    requires
        spec_helper(imap, impls, ambient, object_type, trait_id, bindings, ctr, limit).0 is Ok,
    ensures
        alist_get(imap, trait_id) is Some,
        exists|j: int|
            0 <= j < alist_get(imap, trait_id)->0@.len() && #[trigger] alist_get(
                imap,
                trait_id,
            )->0@[j].1 == spec_helper(
                imap,
                impls,
                ambient,
                object_type,
                trait_id,
                bindings,
                ctr,
                limit,
            ).0->Ok_0,
{
    let ot = crate::types::spec_substitute(object_type, bindings);
    lemma_candidates_ok_is_entry(
        imap,
        impls,
        ambient,
        object_type,
        ot,
        trait_id,
        alist_get(imap, trait_id)->0@,
        bindings,
        ctr,
        limit,
    );
}

/// A failed candidate scan reports a nonempty chain of unresolved
/// constraints ending in the constraint the scan was asked about.
pub proof fn lemma_candidates_err_ends_with_goal(
    imap: Seq<(TraitId, Vec<(Type, TraitImplKind)>)>,
    impls: Seq<TraitImpl>,
    ambient: Seq<(TypeVariableId, Type)>,
    object_type: Type,
    ot: Type,
    trait_id: TraitId,
    cands: Seq<(Type, TraitImplKind)>,
    bindings: Seq<(TypeVariableId, Type)>,
    ctr: u64,
    limit: u32,
)
    requires
        spec_candidates(
            imap,
            impls,
            ambient,
            object_type,
            ot,
            trait_id,
            cands,
            bindings,
            ctr,
            limit,
        ).0 is Err,
    ensures
        ({
            let e = spec_candidates(
                imap,
                impls,
                ambient,
                object_type,
                ot,
                trait_id,
                cands,
                bindings,
                ctr,
                limit,
            ).0->Err_0;
            e.len() >= 1 && e.last() == (TraitConstraint { typ: object_type, trait_id })
        }),
    decreases cands.len(),
{
    if cands.len() == 0 || limit == 0 {
    } else {
        let (inst, inst_map, c1) = spec_instantiate(cands[0].0, ctr);
        let (ok, fresh) = spec_unify(ot, inst, Seq::empty(), ambient, UNIFY_FOLLOW_LIMIT);
        if !ok {
            lemma_candidates_err_ends_with_goal(
                imap,
                impls,
                ambient,
                object_type,
                ot,
                trait_id,
                cands.drop_first(),
                bindings,
                c1,
                limit,
            );
        }
    }
}

/// A failed search never diverges and never fails silently: the recursion
/// budget bounds it, and the error is a nonempty chain of unresolved
/// constraints whose last element is the lookup's own goal.
pub proof fn lemma_helper_err_ends_with_goal(
    imap: Seq<(TraitId, Vec<(Type, TraitImplKind)>)>,
    impls: Seq<TraitImpl>,
    ambient: Seq<(TypeVariableId, Type)>,
    object_type: Type,
    trait_id: TraitId,
    bindings: Seq<(TypeVariableId, Type)>,
    ctr: u64,
    limit: u32,
)
    requires
        spec_helper(imap, impls, ambient, object_type, trait_id, bindings, ctr, limit).0 is Err,
    ensures
        ({
            let e = spec_helper(
                imap,
                impls,
                ambient,
                object_type,
                trait_id,
                bindings,
                ctr,
                limit,
            ).0->Err_0;
            e.len() >= 1 && e.last() == (TraitConstraint { typ: object_type, trait_id })
        }),
{
    if limit != 0 && alist_get(imap, trait_id) is Some {
        let ot = crate::types::spec_substitute(object_type, bindings);
        lemma_candidates_err_ends_with_goal(
            imap,
            impls,
            ambient,
            object_type,
            ot,
            trait_id,
            alist_get(imap, trait_id)->0@,
            bindings,
            ctr,
            limit,
        );
    }
}

/// Assumed impls never exclude a concrete registration: when every entry
/// recorded for the trait is assumed, the overlap probe cannot return a
/// concrete impl. `add_trait_implementation` rejects exactly when the
/// probe finds a `Normal` kind, so under this hypothesis it returns `Ok`.
pub proof fn lemma_assumed_entries_never_reject(
    imap: Seq<(TraitId, Vec<(Type, TraitImplKind)>)>,
    impls: Seq<TraitImpl>,
    ambient: Seq<(TypeVariableId, Type)>,
    object_type: Type,
    trait_id: TraitId,
    bindings: Seq<(TypeVariableId, Type)>,
    ctr: u64,
    limit: u32,
)
    requires
        alist_get(imap, trait_id) is Some ==> forall|j: int|
            0 <= j < alist_get(imap, trait_id)->0@.len() ==> (#[trigger] alist_get(
                imap,
                trait_id,
            )->0@[j]).1 is Assumed,
    ensures
        ({
            let res = spec_helper(
                imap,
                impls,
                ambient,
                object_type,
                trait_id,
                bindings,
                ctr,
                limit,
            ).0;
            !(res is Ok && res->Ok_0 is Normal)
        }),
{
    let res = spec_helper(imap, impls, ambient, object_type, trait_id, bindings, ctr, limit).0;
    if res is Ok {
        lemma_helper_ok_is_entry(
            imap,
            impls,
            ambient,
            object_type,
            trait_id,
            bindings,
            ctr,
            limit,
        );
    }
}

/// After assumed impls are removed for a trait, only concrete impls
/// remain, in their original order.
pub proof fn lemma_retain_normal_keeps_only_normal(s: Seq<(Type, TraitImplKind)>)
    ensures
        forall|j: int|
            0 <= j < spec_retain_normal(s).len() ==> (#[trigger] spec_retain_normal(s)[j]).1
                is Normal,
        forall|j: int|
            0 <= j < spec_retain_normal(s).len() ==> exists|k: int|
                0 <= k < s.len() && s[k] == #[trigger] spec_retain_normal(s)[j],
    decreases s.len(),
{
    if s.len() > 0 {
        lemma_retain_normal_keeps_only_normal(s.drop_last());
        assert(forall|k: int| 0 <= k < s.drop_last().len() ==> s.drop_last()[k] == s[k]);
        let r = spec_retain_normal(s);
        let rd = spec_retain_normal(s.drop_last());
        if s.last().1 is Normal {
            assert(r == rd.push(s.last()));
            assert(forall|j: int| 0 <= j < rd.len() ==> r[j] == rd[j]);
            assert(r[r.len() - 1] == s.last());
            assert(s[s.len() - 1] == s.last());
            assert(forall|j: int| 0 <= j < r.len() ==> r[j].1 is Normal) by {
                assert(forall|j: int| 0 <= j < rd.len() ==> #[trigger] r[j] == rd[j]);
            }
            assert forall|j: int| 0 <= j < r.len() implies exists|k: int|
                0 <= k < s.len() && s[k] == #[trigger] r[j] by {
                if j < rd.len() {
                    let k = choose|k: int| 0 <= k < s.drop_last().len() && s.drop_last()[k] == rd[j];
                    assert(s[k] == r[j]);
                } else {
                    assert(s[s.len() - 1] == r[j]);
                }
            }
        } else {
            assert(r == rd);
            assert forall|j: int| 0 <= j < r.len() implies exists|k: int|
                0 <= k < s.len() && s[k] == #[trigger] r[j] by {
                let k = choose|k: int| 0 <= k < s.drop_last().len() && s.drop_last()[k] == rd[j];
                assert(s[k] == r[j]);
            }
        }
    }
}

} // verus!
