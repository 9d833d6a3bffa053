use hir_index::ast::{Ident, TraitDeclaration, UnresolvedTrait};
use hir_index::hir::TraitFunction;
use hir_index::location::{FileId, Span};
use hir_index::node_interner::{
    BinaryOpKind, CrateId, LocalModuleId, ModuleId, NodeInterner, TraitId, TraitMethodId,
};
use hir_index::types::{Type, TypeList};

fn trait_id(n: u32) -> TraitId {
    TraitId(ModuleId { krate: CrateId(0), local_id: LocalModuleId(n) })
}

fn push_trait(interner: &mut NodeInterner, tid: TraitId, name: &str) {
    let unresolved = UnresolvedTrait {
        trait_def: TraitDeclaration {
            name: Ident::new(name.to_string(), Span::new(0, name.len() as u32)),
            generics: Vec::new(),
            span: Span::new(0, name.len() as u32),
        },
        crate_id: CrateId(0),
        file_id: FileId(0),
        method_ids: Vec::new(),
    };
    interner.push_empty_trait(tid, &unresolved);
}

#[test]
fn registering_eq_binds_both_equality_operators() {
    let mut interner = NodeInterner::new();
    let tid = trait_id(9);
    push_trait(&mut interner, tid, "Eq");
    interner.try_add_operator_trait(tid);

    assert_eq!(
        interner.get_operator_trait_method(BinaryOpKind::Equal),
        TraitMethodId { trait_id: tid, method_index: 0 }
    );
    assert_eq!(
        interner.get_operator_trait_method(BinaryOpKind::NotEqual),
        TraitMethodId { trait_id: tid, method_index: 0 }
    );
}

#[test]
fn registering_ord_binds_comparisons_and_ordering_type() {
    let mut interner = NodeInterner::new();
    let tid = trait_id(11);
    push_trait(&mut interner, tid, "Ord");

    // Give the trait its first method: a generalized `cmp` returning the
    // `Ordering` stand-in type.
    let mut the_trait = interner.get_trait(tid).clone();
    the_trait.methods = vec![TraitFunction {
        name: Ident::new("cmp".to_string(), Span::new(4, 7)),
        typ: Type::Forall(
            Box::new(TypeList::Nil),
            Box::new(Type::Function(
                Box::new(TypeList::Nil),
                Box::new(Type::FieldElement),
                Box::new(Type::Unit),
            )),
        ),
    }];
    interner.update_trait(tid, the_trait);

    interner.try_add_operator_trait(tid);

    for op in [
        BinaryOpKind::Less,
        BinaryOpKind::LessEqual,
        BinaryOpKind::Greater,
        BinaryOpKind::GreaterEqual,
    ] {
        assert_eq!(
            interner.get_operator_trait_method(op),
            TraitMethodId { trait_id: tid, method_index: 0 }
        );
    }
    assert_eq!(interner.ordering_type(), Type::FieldElement);
}

#[test]
fn arithmetic_trait_names_bind_their_operator() {
    let mut interner = NodeInterner::new();
    let add = trait_id(1);
    push_trait(&mut interner, add, "Add");
    interner.try_add_operator_trait(add);
    assert_eq!(
        interner.get_operator_trait_method(BinaryOpKind::Add),
        TraitMethodId { trait_id: add, method_index: 0 }
    );

    // A trait with an unrecognized name binds nothing.
    let other = trait_id(2);
    push_trait(&mut interner, other, "Display");
    interner.try_add_operator_trait(other);
}

#[test]
fn dummy_operator_traits_cover_every_operator() {
    let mut interner = NodeInterner::new();
    interner.populate_dummy_operator_traits();
    for op in [
        BinaryOpKind::Add,
        BinaryOpKind::Subtract,
        BinaryOpKind::Multiply,
        BinaryOpKind::Divide,
        BinaryOpKind::Modulo,
        BinaryOpKind::Equal,
        BinaryOpKind::NotEqual,
        BinaryOpKind::Less,
        BinaryOpKind::LessEqual,
        BinaryOpKind::Greater,
        BinaryOpKind::GreaterEqual,
        BinaryOpKind::And,
        BinaryOpKind::Or,
        BinaryOpKind::Xor,
        BinaryOpKind::ShiftLeft,
        BinaryOpKind::ShiftRight,
    ] {
        assert_eq!(
            interner.get_operator_trait_method(op).trait_id,
            TraitId::dummy_id()
        );
    }
}
