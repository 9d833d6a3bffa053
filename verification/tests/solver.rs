use hir_index::ast::Ident;
use hir_index::hir::{TraitConstraint, TraitImpl};
use hir_index::location::{FileId, Span};
use hir_index::node_interner::{
    CrateId, LocalModuleId, ModuleId, NodeInterner, TraitId, TraitImplId, TraitImplKind,
};
use hir_index::types::{Signedness, Type, TypeVariableId, TypeVariableKind};

fn trait_id(n: u32) -> TraitId {
    TraitId(ModuleId { krate: CrateId(0), local_id: LocalModuleId(n) })
}

fn u32_type() -> Type {
    Type::Integer(Signedness::Unsigned, 32)
}

fn impl_for(name: &str, typ: Type, tid: TraitId, span: Span, file: FileId) -> TraitImpl {
    TraitImpl {
        ident: Ident::new(name.to_string(), span),
        typ,
        trait_id: tid,
        file,
        methods: Vec::new(),
        where_clause: Vec::new(),
    }
}

#[test]
fn simple_impl_resolution() {
    let mut interner = NodeInterner::new();
    let eq = trait_id(1);
    assert_eq!(interner.next_trait_impl_id(), TraitImplId(0));

    let ti = impl_for("Eq", u32_type(), eq, Span::new(5, 7), FileId(1));
    let added = interner.add_trait_implementation(u32_type(), eq, TraitImplId(0), ti);
    assert!(added.is_ok());
    assert_eq!(interner.next_trait_impl_id(), TraitImplId(1));

    match interner.lookup_trait_implementation(&u32_type(), eq) {
        Ok(TraitImplKind::Normal(id)) => assert_eq!(id, TraitImplId(0)),
        other => panic!("expected the registered impl, found {:?}", other),
    }

    match interner.lookup_trait_implementation(&Type::Bool, eq) {
        Err(chain) => {
            assert_eq!(chain.len(), 1);
            assert_eq!(chain[0], TraitConstraint { typ: Type::Bool, trait_id: eq });
        },
        other => panic!("expected an unresolved chain, found {:?}", other),
    }
}

#[test]
fn generic_impl_with_where_clause() {
    let mut interner = NodeInterner::new();
    let eq = trait_id(1);
    let foo = trait_id(2);
    let t_var = Type::TypeVariable(TypeVariableId(1000), TypeVariableKind::Normal);

    // impl<T> Foo for T where T: Eq
    let mut generic_impl = impl_for("Foo", Type::Error, foo, Span::new(1, 4), FileId(1));
    generic_impl.typ = Type::TypeVariable(TypeVariableId(1000), TypeVariableKind::Normal);
    generic_impl.where_clause = vec![TraitConstraint {
        typ: Type::TypeVariable(TypeVariableId(1000), TypeVariableKind::Normal),
        trait_id: eq,
    }];
    assert!(interner
        .add_trait_implementation(t_var, foo, TraitImplId(0), generic_impl)
        .is_ok());

    // impl Eq for u32
    let eq_impl = impl_for("Eq", u32_type(), eq, Span::new(10, 12), FileId(1));
    assert!(interner
        .add_trait_implementation(u32_type(), eq, TraitImplId(1), eq_impl)
        .is_ok());

    match interner.lookup_trait_implementation(&u32_type(), foo) {
        Ok(TraitImplKind::Normal(id)) => assert_eq!(id, TraitImplId(0)),
        other => panic!("expected the generic impl, found {:?}", other),
    }

    match interner.lookup_trait_implementation(&Type::Bool, foo) {
        Err(chain) => {
            assert_eq!(chain.len(), 2);
            assert_eq!(chain[0], TraitConstraint { typ: Type::Bool, trait_id: eq });
            assert_eq!(chain[1], TraitConstraint { typ: Type::Bool, trait_id: foo });
        },
        other => panic!("expected a two-deep unresolved chain, found {:?}", other),
    }
}

#[test]
fn overlapping_impl_is_rejected_with_original_span() {
    let mut interner = NodeInterner::new();
    let eq = trait_id(1);

    let first = impl_for("Eq", u32_type(), eq, Span::new(5, 7), FileId(1));
    assert!(interner
        .add_trait_implementation(u32_type(), eq, TraitImplId(0), first)
        .is_ok());

    let second = impl_for("Eq", u32_type(), eq, Span::new(50, 52), FileId(2));
    let rejected = interner.add_trait_implementation(u32_type(), eq, TraitImplId(1), second);
    assert_eq!(rejected, Err((Span::new(5, 7), FileId(1))));
}

#[test]
fn cyclic_where_clause_terminates_unresolved() {
    let mut interner = NodeInterner::new();
    let foo = trait_id(3);

    // impl<T> Foo for T where T: Foo
    let mut cyclic = impl_for("Foo", Type::Error, foo, Span::new(0, 3), FileId(1));
    cyclic.typ = Type::TypeVariable(TypeVariableId(77), TypeVariableKind::Normal);
    cyclic.where_clause = vec![TraitConstraint {
        typ: Type::TypeVariable(TypeVariableId(77), TypeVariableKind::Normal),
        trait_id: foo,
    }];
    assert!(interner
        .add_trait_implementation(
            Type::TypeVariable(TypeVariableId(77), TypeVariableKind::Normal),
            foo,
            TraitImplId(0),
            cyclic,
        )
        .is_ok());

    let looked_up = interner.lookup_trait_implementation(&u32_type(), foo);
    match looked_up {
        Err(chain) => assert!(chain.len() >= 1),
        other => panic!("a cyclic where clause must not resolve, found {:?}", other),
    }
}

#[test]
fn assumed_impls_shadow_nothing_and_can_be_removed() {
    let mut interner = NodeInterner::new();
    let eq = trait_id(1);

    // An assumption succeeds only while nothing resolves.
    assert!(interner.add_assumed_trait_implementation(u32_type(), eq));
    assert!(!interner.add_assumed_trait_implementation(u32_type(), eq));

    match interner.lookup_trait_implementation(&u32_type(), eq) {
        Ok(TraitImplKind::Assumed { object_type }) => assert_eq!(object_type, u32_type()),
        other => panic!("expected the assumed impl, found {:?}", other),
    }

    // Removing assumptions leaves only concrete impls; here, none.
    interner.remove_assumed_trait_implementations_for_trait(eq);
    assert!(interner.try_lookup_trait_implementation(&u32_type(), eq).is_err());

    // A concrete impl survives the removal.
    let ti = impl_for("Eq", u32_type(), eq, Span::new(5, 7), FileId(1));
    assert!(interner
        .add_trait_implementation(u32_type(), eq, TraitImplId(1), ti)
        .is_ok());
    assert!(interner.add_assumed_trait_implementation(Type::Bool, eq));
    interner.remove_assumed_trait_implementations_for_trait(eq);
    assert!(interner.lookup_trait_implementation(&u32_type(), eq).is_ok());
    assert!(interner.lookup_trait_implementation(&Type::Bool, eq).is_err());
}

#[test]
fn generic_struct_impls_unify_on_their_generics() {
    let mut interner = NodeInterner::new();
    let eq = trait_id(1);
    let pair = |arg: Type| {
        Type::Struct(
            hir_index::node_interner::StructId(ModuleId {
                krate: CrateId(0),
                local_id: LocalModuleId(8),
            }),
            Box::new(hir_index::types::TypeList::Cons(
                Box::new(arg),
                Box::new(hir_index::types::TypeList::Nil),
            )),
        )
    };

    // impl<T> Eq for Pair<T>
    let generic_obj = pair(Type::TypeVariable(TypeVariableId(5), TypeVariableKind::Normal));
    let ti = impl_for("Eq", Type::Error, eq, Span::new(0, 2), FileId(1));
    assert!(interner
        .add_trait_implementation(generic_obj, eq, TraitImplId(0), ti)
        .is_ok());

    // Pair<u32> resolves through the generic impl; a different struct does not.
    assert!(interner.lookup_trait_implementation(&pair(u32_type()), eq).is_ok());
    let other = Type::Struct(
        hir_index::node_interner::StructId(ModuleId {
            krate: CrateId(0),
            local_id: LocalModuleId(9),
        }),
        Box::new(hir_index::types::TypeList::Nil),
    );
    assert!(interner.lookup_trait_implementation(&other, eq).is_err());
}

#[test]
fn impl_ids_stay_dense_and_resolve() {
    let mut interner = NodeInterner::new();
    let eq = trait_id(1);
    let foo = trait_id(2);
    assert_eq!(interner.next_trait_impl_id(), TraitImplId(0));
    let first = impl_for("Eq", u32_type(), eq, Span::new(5, 7), FileId(1));
    assert!(interner
        .add_trait_implementation(u32_type(), eq, TraitImplId(0), first)
        .is_ok());
    assert_eq!(interner.next_trait_impl_id(), TraitImplId(1));
    let second = impl_for("Foo", Type::Bool, foo, Span::new(9, 12), FileId(1));
    assert!(interner
        .add_trait_implementation(Type::Bool, foo, TraitImplId(1), second)
        .is_ok());
    assert_eq!(interner.next_trait_impl_id(), TraitImplId(2));
    assert_eq!(
        interner.get_trait_implementation(TraitImplId(0)).ident.span(),
        Span::new(5, 7)
    );
    assert_eq!(
        interner.get_trait_implementation(TraitImplId(1)).trait_id,
        foo
    );
}

#[test]
fn selected_impls_and_instantiation_bindings_round_trip() {
    let mut interner = NodeInterner::new();
    let e1 = interner.push_expr(hir_index::hir::HirExpression::Literal(1));
    interner.select_impl_for_expression(e1, TraitImplKind::Normal(TraitImplId(4)));
    match interner.get_selected_impl_for_expression(e1) {
        Some(TraitImplKind::Normal(id)) => assert_eq!(id, TraitImplId(4)),
        other => panic!("expected the selected impl back, found {:?}", other),
    }
    interner.set_field_index(e1, 3);
    assert_eq!(interner.get_field_index(e1), 3);
}
