//! Method tables and type-directed method dispatch: inherent and trait-impl
//! methods per struct, methods on primitive type shapes, and the matching
//! procedure that instantiates each candidate's signature and unifies its
//! receiver with the queried type.

use vstd::prelude::*;
use crate::hir::FuncMeta;
use crate::node_interner::{FuncId, Methods, NodeInterner, StructId, TypeMethodKey};
use crate::solver::{spec_instantiate, spec_unify, UNIFY_FOLLOW_LIMIT};
use crate::tables::{alist_get, alist_index_of, alist_insert, lemma_alist_get_from_index, KeyEq, Table};
use crate::types::{clone_type, spec_bindings_extend, Type, TypeBindings, TypeList};

verus! {

/// Following top-level variable bindings, what shape of type would carry
/// the methods of `t`; `None` for the shapes that cannot carry methods.
pub open spec fn spec_type_method_key(
    t: Type,
    ambient: Seq<(crate::types::TypeVariableId, Type)>,
    fuel: u32,
) -> Option<TypeMethodKey>
    decreases fuel, t,
{
    match t {
        Type::FieldElement => Some(TypeMethodKey::FieldOrInt),
        Type::Integer(_, _) => Some(TypeMethodKey::FieldOrInt),
        Type::Array(_, _) => Some(TypeMethodKey::Array),
        Type::Bool => Some(TypeMethodKey::Bool),
        Type::String(_) => Some(TypeMethodKey::String),
        Type::FmtString(_, _) => Some(TypeMethodKey::FmtString),
        Type::Unit => Some(TypeMethodKey::Unit),
        Type::Tuple(_) => Some(TypeMethodKey::Tuple),
        Type::Function(_, _, _) => Some(TypeMethodKey::Function),
        Type::NamedGeneric(_) => Some(TypeMethodKey::Generic),
        Type::MutableReference(e) => spec_type_method_key(*e, ambient, fuel),
        Type::TypeVariable(i, k) => match alist_get(ambient, i) {
            Some(bound) => if fuel == 0 {
                None
            } else {
                spec_type_method_key(bound, ambient, (fuel - 1) as u32)
            },
            None => if k is IntegerOrField {
                Some(TypeMethodKey::FieldOrInt)
            } else {
                None
            },
        },
        _ => None,
    }
}

/// The type shape that would carry methods for `t`, following top-level
/// variable bindings in `bindings`. Unbound integer-or-field variables key
/// as fields; the remaining shapes carry no methods.
pub fn get_type_method_key(typ: &Type, bindings: &TypeBindings) -> (r: Option<TypeMethodKey>)
    ensures
        r == spec_type_method_key(*typ, bindings.entries@, UNIFY_FOLLOW_LIMIT),
{
    type_method_key_fueled(typ, bindings, UNIFY_FOLLOW_LIMIT)
}

fn type_method_key_fueled(typ: &Type, bindings: &TypeBindings, fuel: u32) -> (r: Option<
    TypeMethodKey,
>)
    ensures
        r == spec_type_method_key(*typ, bindings.entries@, fuel),
    decreases fuel, *typ,
{
    match typ {
        Type::FieldElement => Some(TypeMethodKey::FieldOrInt),
        Type::Integer(_, _) => Some(TypeMethodKey::FieldOrInt),
        Type::Array(_, _) => Some(TypeMethodKey::Array),
        Type::Bool => Some(TypeMethodKey::Bool),
        Type::String(_) => Some(TypeMethodKey::String),
        Type::FmtString(_, _) => Some(TypeMethodKey::FmtString),
        Type::Unit => Some(TypeMethodKey::Unit),
        Type::Tuple(_) => Some(TypeMethodKey::Tuple),
        Type::Function(_, _, _) => Some(TypeMethodKey::Function),
        Type::NamedGeneric(_) => Some(TypeMethodKey::Generic),
        Type::MutableReference(e) => type_method_key_fueled(e, bindings, fuel),
        Type::TypeVariable(i, k) => match bindings.get(i) {
            Some(bound) => {
                if fuel == 0 {
                    None
                } else {
                    let b = clone_type(bound);
                    type_method_key_fueled(&b, bindings, fuel - 1)
                }
            },
            None => {
                if matches!(k, crate::types::TypeVariableKind::IntegerOrField) {
                    Some(TypeMethodKey::FieldOrInt)
                } else {
                    None
                }
            },
        },
        _ => None,
    }
}

/// A function signature as stored in metadata: possibly generalized, and
/// `Error` for signatures that failed to resolve.
pub open spec fn spec_fn_shaped(t: Type) -> bool {
    ||| t is Function
    ||| t is Error
    ||| (t is Forall && (*t->Forall_1 is Function || *t->Forall_1 is Error))
}

/// Every listed candidate has metadata, and its recorded type is a
/// (possibly generalized) function signature.
pub open spec fn candidates_wf(metas: Seq<(FuncId, FuncMeta)>, cands: Seq<FuncId>) -> bool
    decreases cands.len(),
{
    cands.len() == 0 || {
        &&& alist_get(metas, cands[0]) is Some
        &&& spec_fn_shaped(alist_get(metas, cands[0])->0.typ)
        &&& candidates_wf(metas, cands.drop_first())
    }
}

pub proof fn lemma_candidates_wf_index(metas: Seq<(FuncId, FuncMeta)>, cands: Seq<FuncId>, j: int)
    requires
        candidates_wf(metas, cands),
        0 <= j < cands.len(),
    ensures
        alist_get(metas, cands[j]) is Some,
        spec_fn_shaped(alist_get(metas, cands[j])->0.typ),
    decreases j,
{
    if j > 0 {
        lemma_candidates_wf_index(metas, cands.drop_first(), j - 1);
        assert(cands.drop_first()[j - 1] == cands[j]);
    }
}

/// Both lists of every table entry are well formed.
pub open spec fn methods_table_wf<K>(
    metas: Seq<(FuncId, FuncMeta)>,
    entries: Seq<(K, Methods)>,
) -> bool
    decreases entries.len(),
{
    entries.len() == 0 || {
        &&& candidates_wf(metas, entries[0].1.direct@)
        &&& candidates_wf(metas, entries[0].1.trait_impl_methods@)
        &&& methods_table_wf(metas, entries.drop_first())
    }
}

pub proof fn lemma_methods_table_wf_index<K>(
    metas: Seq<(FuncId, FuncMeta)>,
    entries: Seq<(K, Methods)>,
    i: int,
)
    requires
        methods_table_wf(metas, entries),
        0 <= i < entries.len(),
    ensures
        candidates_wf(metas, entries[i].1.direct@),
        candidates_wf(metas, entries[i].1.trait_impl_methods@),
    decreases i,
{
    if i > 0 {
        lemma_methods_table_wf_index(metas, entries.drop_first(), i - 1);
        assert(entries.drop_first()[i - 1] == entries[i]);
    }
}

/// The single wellformedness condition dispatch needs of the store: every
/// method recorded in either table is a function with metadata.
pub open spec fn methods_wf(s: NodeInterner) -> bool {
    &&& methods_table_wf(s.func_meta.entries@, s.struct_methods.entries@)
    &&& methods_table_wf(s.func_meta.entries@, s.primitive_methods.entries@)
}

/// One pass over a candidate list: instantiate each signature, read its
/// first parameter, unify it with the queried type; the first success wins
/// and its bindings are applied to the ambient universe.
pub open spec fn spec_fm_list(
    metas: Seq<(FuncId, FuncMeta)>,
    ambient: Seq<(crate::types::TypeVariableId, Type)>,
    cands: Seq<FuncId>,
    typ: Type,
    ctr: u64,
) -> (Option<FuncId>, Seq<(crate::types::TypeVariableId, Type)>, u64)
    decreases cands.len(),
{
    if cands.len() == 0 {
        (None, ambient, ctr)
    } else {
        match alist_get(metas, cands[0]) {
            None => spec_fm_list(metas, ambient, cands.drop_first(), typ, ctr),
            Some(meta) => {
                let (it, map, c1) = spec_instantiate(meta.typ, ctr);
                match it {
                    Type::Function(args, _, _) => match *args {
                        TypeList::Cons(obj, _) => {
                            let (ok, fresh) = spec_unify(
                                *obj,
                                typ,
                                Seq::empty(),
                                ambient,
                                UNIFY_FOLLOW_LIMIT,
                            );
                            if ok {
                                (Some(cands[0]), spec_bindings_extend(ambient, fresh), c1)
                            } else {
                                spec_fm_list(metas, ambient, cands.drop_first(), typ, c1)
                            }
                        },
                        TypeList::Nil => spec_fm_list(metas, ambient, cands.drop_first(), typ, c1),
                    },
                    _ => spec_fm_list(metas, ambient, cands.drop_first(), typ, c1),
                }
            },
        }
    }
}

/// Both candidate lists of a name, inherent methods first, then the
/// fallback list of methods on every generic receiver.
pub open spec fn spec_find_matching(
    metas: Seq<(FuncId, FuncMeta)>,
    primitive_methods: Seq<((TypeMethodKey, String), Methods)>,
    ambient: Seq<(crate::types::TypeVariableId, Type)>,
    methods: Methods,
    name: String,
    typ: Type,
    ctr: u64,
) -> (Option<FuncId>, Seq<(crate::types::TypeVariableId, Type)>, u64) {
    let (r1, am1, c1) = spec_fm_list(metas, ambient, methods.direct@, typ, ctr);
    if r1 is Some {
        (r1, am1, c1)
    } else {
        let (r2, am2, c2) = spec_fm_list(metas, am1, methods.trait_impl_methods@, typ, c1);
        if r2 is Some {
            (r2, am2, c2)
        } else {
            match alist_get(primitive_methods, (TypeMethodKey::Generic, name)) {
                None => (None, am2, c2),
                Some(gm) => {
                    let (r3, am3, c3) = spec_fm_list(metas, am2, gm.direct@, typ, c2);
                    if r3 is Some {
                        (r3, am3, c3)
                    } else {
                        spec_fm_list(metas, am3, gm.trait_impl_methods@, typ, c3)
                    }
                },
            }
        }
    }
}

/// The result of a name lookup on a primitive type shape: the shape key
/// of the queried type selects the candidate lists, which are then matched
/// by type.
pub open spec fn spec_lookup_primitive_method(s: NodeInterner, typ: Type, name: String) -> (
    Option<FuncId>,
    Seq<(crate::types::TypeVariableId, Type)>,
    u64,
) {
    match spec_type_method_key(typ, s.type_variable_bindings.entries@, UNIFY_FOLLOW_LIMIT) {
        None => (None, s.type_variable_bindings.entries@, s.next_type_variable_id),
        Some(k) => match alist_get(s.primitive_methods.entries@, (k, name)) {
            None => (None, s.type_variable_bindings.entries@, s.next_type_variable_id),
            Some(methods) => spec_find_matching(
                s.func_meta.entries@,
                s.primitive_methods.entries@,
                s.type_variable_bindings.entries@,
                methods,
                name,
                typ,
                s.next_type_variable_id,
            ),
        },
    }
}

/// The result of a name lookup on a struct: with `force_type_check` off, a
/// single unambiguous candidate is returned as is; otherwise candidates are
/// matched against the queried type.
pub open spec fn spec_lookup_method(
    s: NodeInterner,
    typ: Type,
    id: StructId,
    name: String,
    force_type_check: bool,
) -> (Option<FuncId>, Seq<(crate::types::TypeVariableId, Type)>, u64) {
    match alist_get(s.struct_methods.entries@, (id, name)) {
        None => (None, s.type_variable_bindings.entries@, s.next_type_variable_id),
        Some(methods) => {
            if !force_type_check && methods.spec_get_unambiguous() is Some {
                (
                    methods.spec_get_unambiguous(),
                    s.type_variable_bindings.entries@,
                    s.next_type_variable_id,
                )
            } else {
                spec_find_matching(
                    s.func_meta.entries@,
                    s.primitive_methods.entries@,
                    s.type_variable_bindings.entries@,
                    methods,
                    name,
                    typ,
                    s.next_type_variable_id,
                )
            }
        },
    }
}

impl NodeInterner {
    /// Runs one candidate list against `typ`, in order; the first
    /// signature whose receiver unifies wins, and its bindings are applied.
    fn find_matching_in(&mut self, cands: &Vec<FuncId>, typ: &Type) -> (r: Option<FuncId>)
        requires
            candidates_wf(old(self).func_meta.entries@, cands@),
        ensures
            ({
                let (res, am, c2) = spec_fm_list(
                    old(self).func_meta.entries@,
                    old(self).type_variable_bindings.entries@,
                    cands@,
                    *typ,
                    old(self).next_type_variable_id,
                );
                &&& r == res
                &&& *final(self) == (NodeInterner {
                    type_variable_bindings: final(self).type_variable_bindings,
                    next_type_variable_id: final(self).next_type_variable_id,
                    ..*old(self)
                })
                &&& final(self).type_variable_bindings.entries@ == am
                &&& final(self).next_type_variable_id == c2
            }),
    {
        let ghost metas = old(self).func_meta.entries@;
        let n = cands.len();
        let mut i: usize = 0;
        proof {
            assert(cands@.skip(0) =~= cands@);
        }
        while i < n
            invariant
                i <= n,
                n == cands@.len(),
                candidates_wf(metas, cands@),
                metas == old(self).func_meta.entries@,
                self.func_meta == old(self).func_meta,
                *self == (NodeInterner {
                    type_variable_bindings: self.type_variable_bindings,
                    next_type_variable_id: self.next_type_variable_id,
                    ..*old(self)
                }),
                spec_fm_list(
                    metas,
                    old(self).type_variable_bindings.entries@,
                    cands@,
                    *typ,
                    old(self).next_type_variable_id,
                ) == spec_fm_list(
                    metas,
                    self.type_variable_bindings.entries@,
                    cands@.skip(i as int),
                    *typ,
                    self.next_type_variable_id,
                ),
            decreases n - i,
        {
            proof {
                assert(cands@.skip(i as int)[0] == cands@[i as int]);
                assert(cands@.skip(i as int).drop_first() =~= cands@.skip(i as int + 1));
                lemma_candidates_wf_index(metas, cands@, i as int);
            }
            let ghost pre_am = self.type_variable_bindings.entries@;
            let ghost pre_ctr = self.next_type_variable_id;
            let method = cands[i];
            let meta_typ = clone_type(&self.function_meta(&method).typ);
            proof {
                assert(meta_typ == alist_get(metas, method)->0.typ);
                assert(spec_fn_shaped(meta_typ));
            }
            let (instantiated, _map) = self.instantiate(&meta_typ);
            let ghost it_s = spec_instantiate(meta_typ, pre_ctr).0;
            let ghost c1_s = spec_instantiate(meta_typ, pre_ctr).2;
            proof {
                assert(instantiated == it_s);
                assert(self.next_type_variable_id == c1_s);
            }
            match instantiated {
                Type::Function(args, _, _) => {
                    match *args {
                        TypeList::Cons(object, _) => {
                            let mut fresh: TypeBindings = Table::new();
                            proof {
                                assert(fresh.entries@ =~= Seq::<
                                    (crate::types::TypeVariableId, Type),
                                >::empty());
                            }
                            let ok = crate::solver::try_unify(
                                &object,
                                typ,
                                &mut fresh,
                                &self.type_variable_bindings,
                                UNIFY_FOLLOW_LIMIT,
                            );
                            if ok {
                                self.apply_type_bindings(&fresh);
                                proof {
                                    assert(spec_fm_list(metas, pre_am, cands@.skip(i as int), *typ, pre_ctr)
                                        == (Some(method), spec_bindings_extend(pre_am, fresh.entries@), c1_s));
                                }
                                return Some(method);
                            }
                            proof {
                                assert(spec_fm_list(metas, pre_am, cands@.skip(i as int), *typ, pre_ctr)
                                    == spec_fm_list(metas, pre_am, cands@.skip(i as int + 1), *typ, c1_s));
                            }
                        },
                        TypeList::Nil => {
                            proof {
                                assert(spec_fm_list(metas, pre_am, cands@.skip(i as int), *typ, pre_ctr)
                                    == spec_fm_list(metas, pre_am, cands@.skip(i as int + 1), *typ, c1_s));
                            }
                        },
                    }
                },
                Type::Error => {
                    proof {
                        assert(spec_fm_list(metas, pre_am, cands@.skip(i as int), *typ, pre_ctr)
                            == spec_fm_list(metas, pre_am, cands@.skip(i as int + 1), *typ, c1_s));
                    }
                },
                _ => {
                    proof {
                        let bodyv = if meta_typ is Forall {
                            *meta_typ->Forall_1
                        } else {
                            meta_typ
                        };
                        assert(bodyv is Function || bodyv is Error);
                        let mapv = spec_instantiate(meta_typ, pre_ctr).1;
                        if bodyv is Function {
                            assert(crate::types::spec_substitute(bodyv, mapv) is Function);
                        } else {
                            assert(crate::types::spec_substitute(bodyv, mapv) is Error);
                        }
                        assert(false);
                    }
                },
            }
            i = i + 1;
        }
        proof {
            assert(cands@.skip(n as int).len() == 0);
        }
        None
    }

    /// Selects the single method whose receiver type matches `typ`, first
    /// among the given candidates, then among methods defined for every
    /// generic receiver.
    pub fn find_matching_method(&mut self, typ: &Type, methods: &Methods, method_name: &String) -> (
        r: Option<FuncId>)
        requires
            methods_wf(*old(self)),
            candidates_wf(old(self).func_meta.entries@, methods.direct@),
            candidates_wf(old(self).func_meta.entries@, methods.trait_impl_methods@),
        ensures
            ({
                let (res, am, c2) = spec_find_matching(
                    old(self).func_meta.entries@,
                    old(self).primitive_methods.entries@,
                    old(self).type_variable_bindings.entries@,
                    *methods,
                    *method_name,
                    *typ,
                    old(self).next_type_variable_id,
                );
                &&& r == res
                &&& *final(self) == (NodeInterner {
                    type_variable_bindings: final(self).type_variable_bindings,
                    next_type_variable_id: final(self).next_type_variable_id,
                    ..*old(self)
                })
                &&& final(self).type_variable_bindings.entries@ == am
                &&& final(self).next_type_variable_id == c2
            }),
    {
        let r1 = self.find_matching_in(&methods.direct, typ);
        if r1.is_some() {
            return r1;
        }
        let r2 = self.find_matching_in(&methods.trait_impl_methods, typ);
        if r2.is_some() {
            return r2;
        }
        let name = method_name.clone();
        assert(name == *method_name);
        let key = (TypeMethodKey::Generic, name);
        proof {
            lemma_alist_get_from_index(self.primitive_methods.entries@, key);
        }
        let gm = match self.primitive_methods.get(&key) {
            Some(gm) => gm.clone_methods(),
            None => {
                return None;
            },
        };
        proof {
            let idx = crate::tables::alist_index_of(self.primitive_methods.entries@, key);
            assert(self.primitive_methods.entries@[idx->0].1 == alist_get(
                self.primitive_methods.entries@,
                key,
            )->0);
            lemma_methods_table_wf_index(
                old(self).func_meta.entries@,
                self.primitive_methods.entries@,
                idx->0,
            );
            assert(gm.direct@ == alist_get(self.primitive_methods.entries@, key)->0.direct@);
            assert(gm.trait_impl_methods@ == alist_get(
                self.primitive_methods.entries@,
                key,
            )->0.trait_impl_methods@);
        }
        let r3 = self.find_matching_in(&gm.direct, typ);
        if r3.is_some() {
            return r3;
        }
        self.find_matching_in(&gm.trait_impl_methods, typ)
    }

    /// Searches by name for a method on the given struct. With
    /// `force_type_check` off, a lone unambiguous candidate is returned
    /// without type checking; otherwise (and always when declaring new
    /// methods, to detect duplicates) candidates are matched by type.
    pub fn lookup_method(
        &mut self,
        typ: &Type,
        id: StructId,
        method_name: &String,
        force_type_check: bool,
    ) -> (r: Option<FuncId>)
        requires
            methods_wf(*old(self)),
        ensures
            ({
                let (res, am, c2) = spec_lookup_method(
                    *old(self),
                    *typ,
                    id,
                    *method_name,
                    force_type_check,
                );
                &&& r == res
                &&& *final(self) == (NodeInterner {
                    type_variable_bindings: final(self).type_variable_bindings,
                    next_type_variable_id: final(self).next_type_variable_id,
                    ..*old(self)
                })
                &&& final(self).type_variable_bindings.entries@ == am
                &&& final(self).next_type_variable_id == c2
            }),
    {
        let name = method_name.clone();
        assert(name == *method_name);
        let key = (id, name);
        proof {
            lemma_alist_get_from_index(self.struct_methods.entries@, key);
            assert((id, *method_name).key_eqv(key)) by {
                <(StructId, String) as KeyEq>::key_eqv_laws(key, key, key);
            }
        }
        let methods = match self.struct_methods.get(&key) {
            Some(m) => m.clone_methods(),
            None => {
                proof {
                    assert(alist_get(old(self).struct_methods.entries@, (id, *method_name))
                        is None) by {
                        lemma_alist_get_keyv(self.struct_methods.entries@, key, (id, *method_name));
                    }
                }
                return None;
            },
        };
        proof {
            let idx = crate::tables::alist_index_of(self.struct_methods.entries@, key);
            assert(self.struct_methods.entries@[idx->0].1 == alist_get(
                self.struct_methods.entries@,
                key,
            )->0);
            lemma_methods_table_wf_index(
                old(self).func_meta.entries@,
                self.struct_methods.entries@,
                idx->0,
            );
            lemma_alist_get_keyv(self.struct_methods.entries@, key, (id, *method_name));
            assert(methods.direct@ == alist_get(self.struct_methods.entries@, key)->0.direct@);
        }
        if !force_type_check {
            if let Some(method) = methods.get_unambiguous() {
                proof {
                    assert(alist_get(old(self).struct_methods.entries@, (id, *method_name))->0
                        .spec_get_unambiguous() == Some(method));
                }
                return Some(method);
            }
        }
        let r = self.find_matching_method(typ, &methods, method_name);
        proof {
            let stored = alist_get(old(self).struct_methods.entries@, (id, *method_name))->0;
            assert(spec_fm_list(
                old(self).func_meta.entries@,
                old(self).type_variable_bindings.entries@,
                stored.direct@,
                *typ,
                old(self).next_type_variable_id,
            ) == spec_fm_list(
                old(self).func_meta.entries@,
                old(self).type_variable_bindings.entries@,
                methods.direct@,
                *typ,
                old(self).next_type_variable_id,
            ));
        }
        r
    }

    /// Looks up a method name on a primitive type shape.
    pub fn lookup_primitive_method(&mut self, typ: &Type, method_name: &String) -> (r: Option<
        FuncId,
    >)
        requires
            methods_wf(*old(self)),
        ensures
            ({
                let (res, am, c2) = spec_lookup_primitive_method(*old(self), *typ, *method_name);
                &&& r == res
                &&& *final(self) == (NodeInterner {
                    type_variable_bindings: final(self).type_variable_bindings,
                    next_type_variable_id: final(self).next_type_variable_id,
                    ..*old(self)
                })
                &&& final(self).type_variable_bindings.entries@ == am
                &&& final(self).next_type_variable_id == c2
            }),
    {
        let key_kind = match get_type_method_key(typ, &self.type_variable_bindings) {
            Some(k) => k,
            None => {
                return None;
            },
        };
        let name = method_name.clone();
        assert(name == *method_name);
        let key = (key_kind, name);
        proof {
            lemma_alist_get_from_index(self.primitive_methods.entries@, key);
            assert((key_kind, *method_name).key_eqv(key)) by {
                <(TypeMethodKey, String) as KeyEq>::key_eqv_laws(key, key, key);
            }
            lemma_alist_get_keyv(self.primitive_methods.entries@, key, (key_kind, *method_name));
        }
        let methods = match self.primitive_methods.get(&key) {
            Some(m) => m.clone_methods(),
            None => {
                return None;
            },
        };
        proof {
            let idx = crate::tables::alist_index_of(self.primitive_methods.entries@, key);
            assert(self.primitive_methods.entries@[idx->0].1 == alist_get(
                self.primitive_methods.entries@,
                key,
            )->0);
            lemma_methods_table_wf_index(
                old(self).func_meta.entries@,
                self.primitive_methods.entries@,
                idx->0,
            );
        }
        let r = self.find_matching_method(typ, &methods, method_name);
        proof {
            let stored = alist_get(old(self).primitive_methods.entries@, (key_kind, *method_name))->0;
            assert(spec_fm_list(
                old(self).func_meta.entries@,
                old(self).type_variable_bindings.entries@,
                stored.direct@,
                *typ,
                old(self).next_type_variable_id,
            ) == spec_fm_list(
                old(self).func_meta.entries@,
                old(self).type_variable_bindings.entries@,
                methods.direct@,
                *typ,
                old(self).next_type_variable_id,
            ));
        }
        r
    }

    /// Looks up a method name on `&mut typ`, for primitive trait methods
    /// taking their receiver by mutable reference.
    pub fn lookup_primitive_trait_method_mut(&mut self, typ: &Type, method_name: &String) -> (r:
        Option<FuncId>)
        requires
            methods_wf(*old(self)),
        ensures
            ({
                let (res, am, c2) = spec_lookup_primitive_method(
                    *old(self),
                    Type::MutableReference(Box::new(*typ)),
                    *method_name,
                );
                &&& r == res
                &&& *final(self) == (NodeInterner {
                    type_variable_bindings: final(self).type_variable_bindings,
                    next_type_variable_id: final(self).next_type_variable_id,
                    ..*old(self)
                })
                &&& final(self).type_variable_bindings.entries@ == am
                &&& final(self).next_type_variable_id == c2
            }),
    {
        let wrapped = Type::MutableReference(Box::new(clone_type(typ)));
        self.lookup_primitive_method(&wrapped, method_name)
    }
}

/// Two equivalent keys read the same entry.
pub proof fn lemma_alist_get_keyv<K: KeyEq, V>(s: Seq<(K, V)>, k1: K, k2: K)
    requires
        k1.key_eqv(k2),
    ensures
        alist_get(s, k1) == alist_get(s, k2),
        alist_index_of(s, k1) == alist_index_of(s, k2),
    decreases s.len(),
{
    K::key_eqv_laws(k1, k2, k2);
    if s.len() > 0 {
        K::key_eqv_laws(s[0].0, k1, k2);
        K::key_eqv_laws(s[0].0, k2, k1);
        if !s[0].0.key_eqv(k1) {
            lemma_alist_get_keyv(s.drop_first(), k1, k2);
        }
    }
}

/// Receiver shapes that may carry methods, decided structurally (a bare
/// unification variable may not; following its binding would make the
/// answer depend on the evolving ambient universe).
pub open spec fn add_method_receiver_ok(t: Type) -> bool
    decreases t,
{
    match t {
        Type::FieldElement => true,
        Type::Integer(_, _) => true,
        Type::Array(_, _) => true,
        Type::Bool => true,
        Type::String(_) => true,
        Type::FmtString(_, _) => true,
        Type::Unit => true,
        Type::Tuple(_) => true,
        Type::Function(_, _, _) => true,
        Type::NamedGeneric(_) => true,
        Type::Struct(_, _) => true,
        Type::Error => true,
        Type::MutableReference(e) => add_method_receiver_ok(*e),
        _ => false,
    }
}

proof fn lemma_receiver_key_some(t: Type, ambient: Seq<(crate::types::TypeVariableId, Type)>)
    requires
        add_method_receiver_ok(t),
        !(t is Struct),
        !(t is Error),
        !(t is MutableReference),
    ensures
        spec_type_method_key(t, ambient, UNIFY_FOLLOW_LIMIT) is Some,
{
}

/// What `add_method` does for one entry: push the new id onto the right
/// list, keeping the other list as it was.
pub open spec fn methods_push(
    old_direct: Seq<FuncId>,
    old_trait: Seq<FuncId>,
    m2: Methods,
    mid: FuncId,
    is_trait: bool,
) -> bool {
    if is_trait {
        m2.direct@ == old_direct && m2.trait_impl_methods@ == old_trait.push(mid)
    } else {
        m2.direct@ == old_direct.push(mid) && m2.trait_impl_methods@ == old_trait
    }
}


/// The inherent list of an optional table entry, empty when absent.
pub open spec fn entry_direct(e: Option<Methods>) -> Seq<FuncId> {
    match e {
        Some(m) => m.direct@,
        None => Seq::empty(),
    }
}

/// The trait-impl list of an optional table entry, empty when absent.
pub open spec fn entry_trait_methods(e: Option<Methods>) -> Seq<FuncId> {
    match e {
        Some(m) => m.trait_impl_methods@,
        None => Seq::empty(),
    }
}

/// The receiver with any outer mutable references stripped.
pub open spec fn strip_mut_refs(t: Type) -> Type
    decreases t,
{
    if t is MutableReference {
        strip_mut_refs(*t->MutableReference_0)
    } else {
        t
    }
}

/// The relation `add_method` establishes between the store before and
/// after, on the receiver with mutable references stripped: a struct
/// receiver first probes for a duplicate with a forced type check; any
/// other supported receiver files the method under its primitive shape
/// key; `Error` receivers are skipped silently.
#[verifier::inline]
pub open spec fn add_method_rel_stripped(
    pre: NodeInterner,
    post: NodeInterner,
    t2: Type,
    name: String,
    mid: FuncId,
    is_trait: bool,
    r: Option<FuncId>,
) -> bool {
    match t2 {
        Type::Error => post == pre && r is None,
        Type::Struct(sid, _) => {
            let (dup, am, c) = spec_lookup_method(pre, t2, sid, name, true);
            &&& r == dup
            &&& post.type_variable_bindings.entries@ == am
            &&& post.next_type_variable_id == c
            &&& post == (NodeInterner {
                struct_methods: post.struct_methods,
                type_variable_bindings: post.type_variable_bindings,
                next_type_variable_id: post.next_type_variable_id,
                ..pre
            })
            &&& (dup is Some ==> post.struct_methods == pre.struct_methods)
            &&& (dup is None ==> exists|m2: Methods|
                post.struct_methods.entries@ == alist_insert(
                    pre.struct_methods.entries@,
                    (sid, name),
                    m2,
                ) && methods_push(
                    entry_direct(alist_get(pre.struct_methods.entries@, (sid, name))),
                    entry_trait_methods(alist_get(pre.struct_methods.entries@, (sid, name))),
                    m2,
                    mid,
                    is_trait,
                ))
        },
        _ => {
            let k = spec_type_method_key(
                t2,
                pre.type_variable_bindings.entries@,
                UNIFY_FOLLOW_LIMIT,
            );
            &&& k is Some
            &&& r is None
            &&& post == (NodeInterner { primitive_methods: post.primitive_methods, ..pre })
            &&& (exists|m2: Methods|
                post.primitive_methods.entries@ == alist_insert(
                    pre.primitive_methods.entries@,
                    (k->0, name),
                    m2,
                ) && methods_push(
                    entry_direct(alist_get(pre.primitive_methods.entries@, (k->0, name))),
                    entry_trait_methods(alist_get(pre.primitive_methods.entries@, (k->0, name))),
                    m2,
                    mid,
                    is_trait,
                ))
        },
    }
}

#[verifier::inline]
pub open spec fn add_method_rel(
    pre: NodeInterner,
    post: NodeInterner,
    self_type: Type,
    name: String,
    mid: FuncId,
    is_trait: bool,
    r: Option<FuncId>,
) -> bool {
    add_method_rel_stripped(pre, post, strip_mut_refs(self_type), name, mid, is_trait, r)
}

pub proof fn lemma_candidates_wf_push(
    metas: Seq<(FuncId, FuncMeta)>,
    cands: Seq<FuncId>,
    mid: FuncId,
)
    requires
        candidates_wf(metas, cands),
        alist_get(metas, mid) is Some,
        spec_fn_shaped(alist_get(metas, mid)->0.typ),
    ensures
        candidates_wf(metas, cands.push(mid)),
    decreases cands.len(),
{
    let p = cands.push(mid);
    if cands.len() == 0 {
        assert(p.len() == 1);
        assert(p[0] == mid);
        assert(p.drop_first() =~= Seq::<FuncId>::empty());
        assert(candidates_wf(metas, p.drop_first()));
    } else {
        lemma_candidates_wf_push(metas, cands.drop_first(), mid);
        assert(p[0] == cands[0]);
        assert(alist_get(metas, cands[0]) is Some);
        assert(p.drop_first() =~= cands.drop_first().push(mid));
        assert(candidates_wf(metas, p.drop_first()));
    }
}

pub proof fn lemma_methods_table_wf_insert<K: KeyEq>(
    metas: Seq<(FuncId, FuncMeta)>,
    entries: Seq<(K, Methods)>,
    k: K,
    m2: Methods,
)
    requires
        methods_table_wf(metas, entries),
        candidates_wf(metas, m2.direct@),
        candidates_wf(metas, m2.trait_impl_methods@),
    ensures
        methods_table_wf(metas, alist_insert(entries, k, m2)),
    decreases entries.len(),
{
    if entries.len() == 0 {
        let s2 = alist_insert(entries, k, m2);
        assert(s2 == seq![(k, m2)]);
        assert(s2.len() == 1);
        assert(s2[0] == (k, m2));
        assert(s2.drop_first() =~= Seq::<(K, Methods)>::empty());
        assert(methods_table_wf(metas, s2.drop_first()));
    } else if entries[0].0.key_eqv(k) {
        let s2 = entries.update(0, (k, m2));
        assert(alist_insert(entries, k, m2) == s2);
        assert(s2[0] == (k, m2));
        assert(s2.drop_first() =~= entries.drop_first());
        assert(methods_table_wf(metas, s2.drop_first()));
        assert(methods_table_wf(metas, s2));
    } else {
        lemma_methods_table_wf_insert(metas, entries.drop_first(), k, m2);
        let s2 = seq![entries[0]] + alist_insert(entries.drop_first(), k, m2);
        assert(alist_insert(entries, k, m2) == s2);
        assert(s2.len() > 0);
        assert(s2[0] == entries[0]);
        assert(candidates_wf(metas, entries[0].1.direct@));
        assert(s2.drop_first() =~= alist_insert(entries.drop_first(), k, m2));
        assert(methods_table_wf(metas, s2.drop_first()));
        assert(methods_table_wf(metas, s2));
    }
}


proof fn lemma_rel_struct_dup(
    pre: NodeInterner,
    post: NodeInterner,
    t: Type,
    name: String,
    mid: FuncId,
    is_trait: bool,
    existing: FuncId,
)
    requires
        t is Struct,
        spec_lookup_method(pre, t, t->Struct_0, name, true).0 == Some(existing),
        post.type_variable_bindings.entries@ == spec_lookup_method(
            pre,
            t,
            t->Struct_0,
            name,
            true,
        ).1,
        post.next_type_variable_id == spec_lookup_method(pre, t, t->Struct_0, name, true).2,
        post == (NodeInterner {
            type_variable_bindings: post.type_variable_bindings,
            next_type_variable_id: post.next_type_variable_id,
            ..pre
        }),
    ensures
        add_method_rel(pre, post, t, name, mid, is_trait, Some(existing)),
{
    assert(strip_mut_refs(t) == t);
    assert(post.struct_methods == pre.struct_methods);
}

proof fn lemma_rel_struct_new(
    pre: NodeInterner,
    post: NodeInterner,
    t: Type,
    name: String,
    mid: FuncId,
    is_trait: bool,
    m2: Methods,
)
    requires
        t is Struct,
        spec_lookup_method(pre, t, t->Struct_0, name, true).0 is None,
        post.type_variable_bindings.entries@ == spec_lookup_method(
            pre,
            t,
            t->Struct_0,
            name,
            true,
        ).1,
        post.next_type_variable_id == spec_lookup_method(pre, t, t->Struct_0, name, true).2,
        post == (NodeInterner {
            struct_methods: post.struct_methods,
            type_variable_bindings: post.type_variable_bindings,
            next_type_variable_id: post.next_type_variable_id,
            ..pre
        }),
        post.struct_methods.entries@ == alist_insert(
            pre.struct_methods.entries@,
            (t->Struct_0, name),
            m2,
        ),
        methods_push(
            entry_direct(alist_get(pre.struct_methods.entries@, (t->Struct_0, name))),
            entry_trait_methods(alist_get(pre.struct_methods.entries@, (t->Struct_0, name))),
            m2,
            mid,
            is_trait,
        ),
    ensures
        add_method_rel(pre, post, t, name, mid, is_trait, None),
{
    assert(strip_mut_refs(t) == t);
}

proof fn lemma_rel_prim_new(
    pre: NodeInterner,
    post: NodeInterner,
    t: Type,
    name: String,
    mid: FuncId,
    is_trait: bool,
    m2: Methods,
)
    requires
        !(t is Struct),
        !(t is Error),
        !(t is MutableReference),
        spec_type_method_key(t, pre.type_variable_bindings.entries@, UNIFY_FOLLOW_LIMIT) is Some,
        post == (NodeInterner { primitive_methods: post.primitive_methods, ..pre }),
        ({
            let k = spec_type_method_key(
                t,
                pre.type_variable_bindings.entries@,
                UNIFY_FOLLOW_LIMIT,
            )->0;
            &&& post.primitive_methods.entries@ == alist_insert(
                pre.primitive_methods.entries@,
                (k, name),
                m2,
            )
            &&& methods_push(
                entry_direct(alist_get(pre.primitive_methods.entries@, (k, name))),
                entry_trait_methods(alist_get(pre.primitive_methods.entries@, (k, name))),
                m2,
                mid,
                is_trait,
            )
        }),
    ensures
        add_method_rel(pre, post, t, name, mid, is_trait, None),
{
    assert(strip_mut_refs(t) == t);
}

impl NodeInterner {
    /// Adds a method under its receiver type. For a struct receiver, an
    /// existing method with an exactly matching receiver type is reported
    /// as the duplicate instead of being added; `Error` receivers are
    /// silently skipped; every other supported receiver files the method
    /// under its primitive shape.
    #[verifier::rlimit(60)]
    pub fn add_method(
        &mut self,
        self_type: &Type,
        method_name: String,
        method_id: FuncId,
        is_trait_method: bool,
    ) -> (r: Option<FuncId>)
        requires
            methods_wf(*old(self)),
            add_method_receiver_ok(*self_type),
            alist_get(old(self).func_meta.entries@, method_id) is Some,
            spec_fn_shaped(alist_get(old(self).func_meta.entries@, method_id)->0.typ),
        ensures
            add_method_rel(
                *old(self),
                *final(self),
                *self_type,
                method_name,
                method_id,
                is_trait_method,
                r,
            ),
            methods_wf(*final(self)),
            final(self).func_meta == old(self).func_meta,
            *final(self) == (NodeInterner {
                struct_methods: final(self).struct_methods,
                primitive_methods: final(self).primitive_methods,
                type_variable_bindings: final(self).type_variable_bindings,
                next_type_variable_id: final(self).next_type_variable_id,
                ..*old(self)
            }),
        decreases *self_type,
    {
        match self_type {
            Type::Struct(struct_type, _generics) => {
                let id = *struct_type;

                let ghost name_g = method_name;
                if let Some(existing) = self.lookup_method(self_type, id, &method_name, true) {
                    proof {
                        lemma_rel_struct_dup(
                            *old(self),
                            *self,
                            *self_type,
                            name_g,
                            method_id,
                            is_trait_method,
                            existing,
                        );
                    }
                    return Some(existing);
                }

                let key = (id, method_name);
                proof {
                    lemma_alist_get_from_index(self.struct_methods.entries@, key);
                }
                let m0 = match self.struct_methods.get(&key) {
                    Some(cur) => {
                        proof {
                            let idx = alist_index_of(self.struct_methods.entries@, key);
                            assert(self.struct_methods.entries@[idx->0].1 == alist_get(
                                self.struct_methods.entries@,
                                key,
                            )->0);
                            lemma_methods_table_wf_index(
                                self.func_meta.entries@,
                                self.struct_methods.entries@,
                                idx->0,
                            );
                        }
                        cur.clone_methods()
                    },
                    None => Methods::empty(),
                };
                let ghost pre_m = m0;
                proof {
                    assert(candidates_wf(self.func_meta.entries@, pre_m.direct@));
                    assert(candidates_wf(self.func_meta.entries@, pre_m.trait_impl_methods@));
                }
                let mut m = m0;
                m.add_method(method_id, is_trait_method);
                let ghost m2 = m;
                let ghost pre_entries = self.struct_methods.entries@;
                proof {
                    if is_trait_method {
                        lemma_candidates_wf_push(
                            self.func_meta.entries@,
                            pre_m.trait_impl_methods@,
                            method_id,
                        );
                    } else {
                        lemma_candidates_wf_push(self.func_meta.entries@, pre_m.direct@, method_id);
                    }
                }
                self.struct_methods.insert(key, m);
                proof {
                    lemma_methods_table_wf_insert(self.func_meta.entries@, pre_entries, key, m2);
                    assert(pre_entries == old(self).struct_methods.entries@);
                    if alist_get(old(self).struct_methods.entries@, (id, name_g)) is Some {
                        assert(pre_m.direct@ == alist_get(
                            old(self).struct_methods.entries@,
                            (id, name_g),
                        )->0.direct@);
                        assert(pre_m.trait_impl_methods@ == alist_get(
                            old(self).struct_methods.entries@,
                            (id, name_g),
                        )->0.trait_impl_methods@);
                    } else {
                        assert(pre_m.direct@ =~= Seq::<FuncId>::empty());
                        assert(pre_m.trait_impl_methods@ =~= Seq::<FuncId>::empty());
                    }
                    lemma_rel_struct_new(
                        *old(self),
                        *self,
                        *self_type,
                        name_g,
                        method_id,
                        is_trait_method,
                        m2,
                    );
                }
                None
            },
            Type::Error => {
                proof {
                    assert(strip_mut_refs(*self_type) == *self_type);
                }
                None
            },
            Type::MutableReference(element) => {
                let r = self.add_method(element, method_name, method_id, is_trait_method);
                proof {
                    assert(strip_mut_refs(*self_type) == strip_mut_refs(**element));
                }
                r
            },
            other => {
                proof {
                    lemma_receiver_key_some(*self_type, self.type_variable_bindings.entries@);
                }
                let key_kind = match get_type_method_key(self_type, &self.type_variable_bindings) {
                    Some(k) => k,
                    None => vstd::pervasive::unreached(),
                };
                let ghost name_g = method_name;
                let key = (key_kind, method_name);
                proof {
                    lemma_alist_get_from_index(self.primitive_methods.entries@, key);
                }
                let m0 = match self.primitive_methods.get(&key) {
                    Some(cur) => {
                        proof {
                            let idx = alist_index_of(self.primitive_methods.entries@, key);
                            assert(self.primitive_methods.entries@[idx->0].1 == alist_get(
                                self.primitive_methods.entries@,
                                key,
                            )->0);
                            lemma_methods_table_wf_index(
                                self.func_meta.entries@,
                                self.primitive_methods.entries@,
                                idx->0,
                            );
                        }
                        cur.clone_methods()
                    },
                    None => Methods::empty(),
                };
                let ghost pre_m = m0;
                proof {
                    assert(candidates_wf(self.func_meta.entries@, pre_m.direct@));
                    assert(candidates_wf(self.func_meta.entries@, pre_m.trait_impl_methods@));
                }
                let mut m = m0;
                m.add_method(method_id, is_trait_method);
                let ghost m2 = m;
                let ghost pre_entries = self.primitive_methods.entries@;
                proof {
                    if is_trait_method {
                        lemma_candidates_wf_push(
                            self.func_meta.entries@,
                            pre_m.trait_impl_methods@,
                            method_id,
                        );
                    } else {
                        lemma_candidates_wf_push(self.func_meta.entries@, pre_m.direct@, method_id);
                    }
                }
                self.primitive_methods.insert(key, m);
                proof {
                    lemma_methods_table_wf_insert(self.func_meta.entries@, pre_entries, key, m2);
                    assert(pre_entries == old(self).primitive_methods.entries@);
                    if alist_get(old(self).primitive_methods.entries@, (key_kind, name_g)) is Some {
                        assert(pre_m.direct@ == alist_get(
                            old(self).primitive_methods.entries@,
                            (key_kind, name_g),
                        )->0.direct@);
                        assert(pre_m.trait_impl_methods@ == alist_get(
                            old(self).primitive_methods.entries@,
                            (key_kind, name_g),
                        )->0.trait_impl_methods@);
                    } else {
                        assert(pre_m.direct@ =~= Seq::<FuncId>::empty());
                        assert(pre_m.trait_impl_methods@ =~= Seq::<FuncId>::empty());
                    }
                    lemma_rel_prim_new(
                        *old(self),
                        *self,
                        *self_type,
                        name_g,
                        method_id,
                        is_trait_method,
                        m2,
                    );
                }
                None
            },
        }
    }
}

} // verus!
