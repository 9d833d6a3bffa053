use hir_index::arena::Index;
use hir_index::ast::Ident;
use hir_index::hir::FuncMeta;
use hir_index::location::{FileId, Location, Span};
use hir_index::node_interner::{
    CrateId, FuncId, LocalModuleId, Methods, ModuleId, NodeInterner, StructId,
};
use hir_index::types::{Type, TypeList};

fn struct_id(n: u32) -> StructId {
    StructId(ModuleId { krate: CrateId(0), local_id: LocalModuleId(n) })
}

fn func_id(n: usize) -> FuncId {
    FuncId(Index { index: n, generation: 0 })
}

fn struct_type(n: u32) -> Type {
    Type::Struct(struct_id(n), Box::new(TypeList::Nil))
}

/// A method whose receiver is the given type.
fn method_meta(receiver: Type) -> FuncMeta {
    FuncMeta {
        name: Ident::new("m".to_string(), Span::new(0, 1)),
        location: Location::dummy(),
        typ: Type::Function(
            Box::new(TypeList::Cons(Box::new(receiver), Box::new(TypeList::Nil))),
            Box::new(Type::Unit),
            Box::new(Type::Unit),
        ),
    }
}

#[test]
fn single_direct_method_is_unambiguous() {
    let mut methods = Methods::empty();
    methods.add_method(func_id(1), false);
    assert_eq!(methods.get_unambiguous(), Some(func_id(1)));
}

#[test]
fn single_trait_method_is_unambiguous() {
    let mut methods = Methods::empty();
    methods.add_method(func_id(2), true);
    assert_eq!(methods.get_unambiguous(), Some(func_id(2)));
}

#[test]
fn mixed_direct_and_trait_methods_force_dispatch() {
    let mut methods = Methods::empty();
    methods.add_method(func_id(1), false);
    methods.add_method(func_id(2), true);
    assert_eq!(methods.get_unambiguous(), None);
}

#[test]
fn duplicate_struct_method_is_reported() {
    let mut interner = NodeInterner::new();
    let receiver = struct_type(7);

    let fid = func_id(10);
    interner.push_fn_meta(method_meta(struct_type(7)), fid);
    assert_eq!(
        interner.add_method(&receiver, "len".to_string(), fid, false),
        None
    );

    // A second method with an exactly matching receiver type is a duplicate.
    let fid2 = func_id(11);
    interner.push_fn_meta(method_meta(struct_type(7)), fid2);
    assert_eq!(
        interner.add_method(&receiver, "len".to_string(), fid2, false),
        Some(fid)
    );
}

#[test]
fn lookup_method_prefers_the_unambiguous_candidate() {
    let mut interner = NodeInterner::new();
    let receiver = struct_type(3);
    let fid = func_id(20);
    interner.push_fn_meta(method_meta(struct_type(3)), fid);
    assert_eq!(interner.add_method(&receiver, "go".to_string(), fid, false), None);

    assert_eq!(
        interner.lookup_method(&receiver, struct_id(3), &"go".to_string(), false),
        Some(fid)
    );
    // Forced type checking selects it as well, by unifying receivers.
    assert_eq!(
        interner.lookup_method(&receiver, struct_id(3), &"go".to_string(), true),
        Some(fid)
    );
    // An unknown name finds nothing.
    assert_eq!(
        interner.lookup_method(&receiver, struct_id(3), &"missing".to_string(), false),
        None
    );
}

#[test]
fn primitive_methods_are_keyed_by_type_shape() {
    let mut interner = NodeInterner::new();
    let fid = func_id(30);
    interner.push_fn_meta(method_meta(Type::Bool), fid);
    assert_eq!(
        interner.add_method(&Type::Bool, "flip".to_string(), fid, false),
        None
    );
    assert_eq!(
        interner.lookup_primitive_method(&Type::Bool, &"flip".to_string()),
        Some(fid)
    );
    assert_eq!(
        interner.lookup_primitive_method(&Type::Unit, &"flip".to_string()),
        None
    );
}

#[test]
fn mutable_reference_receivers_reach_the_element_type() {
    let mut interner = NodeInterner::new();
    let fid = func_id(40);
    interner.push_fn_meta(method_meta(Type::MutableReference(Box::new(Type::Bool))), fid);
    let receiver = Type::MutableReference(Box::new(Type::Bool));
    assert_eq!(
        interner.add_method(&receiver, "toggle".to_string(), fid, false),
        None
    );
    assert_eq!(
        interner.lookup_primitive_trait_method_mut(&Type::Bool, &"toggle".to_string()),
        Some(fid)
    );
}

#[test]
fn function_tables_round_trip() {
    let mut interner = NodeInterner::new();
    let fid = interner.push_test_function_definition("main".to_string());
    assert_eq!(interner.function_name(&fid), "main");
    interner.push_fn_meta(method_meta(Type::Bool), fid);
    assert!(interner.try_function_meta(&fid).is_some());

    assert_eq!(interner.find_function(&"main".to_string()), Some(fid));
    assert_eq!(interner.find_function(&"absent".to_string()), None);
}
