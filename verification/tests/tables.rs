use hir_index::ast::{
    Attributes, FunctionDefinition, FunctionVisibility, Ident, TypeAliasDeclaration,
    UnresolvedTypeAlias,
};
use hir_index::hir::{HirExpression, HirFunction, HirStatement};
use hir_index::location::{FileId, Location, Span};
use hir_index::node_interner::{
    CrateId, DefinitionKind, LocalModuleId, ModuleId, NodeInterner, TypeAliasId,
};
use hir_index::types::{Type, TypeVariableId};

#[test]
fn type_aliases_start_as_error_and_get_resolved() {
    let mut interner = NodeInterner::new();
    let unresolved = UnresolvedTypeAlias {
        type_alias_def: TypeAliasDeclaration {
            name: Ident::new("Alias".to_string(), Span::new(0, 5)),
            generics: vec![Ident::new("T".to_string(), Span::new(6, 7))],
            span: Span::new(0, 9),
        },
    };
    let id = interner.push_type_alias(&unresolved);
    assert_eq!(id, TypeAliasId(0));
    assert_eq!(interner.get_type_alias(id).typ, Type::Error);
    assert_eq!(interner.get_type_alias(id).generics.len(), 1);
    assert_eq!(interner.get_type_alias(id).generics[0], TypeVariableId(0));

    interner.set_type_alias(id, Type::Bool, vec![TypeVariableId(42)]);
    assert_eq!(interner.get_type_alias(id).typ, Type::Bool);
    assert_eq!(interner.get_type_alias(id).generics, vec![TypeVariableId(42)]);
}

#[test]
fn globals_are_recorded_per_statement() {
    let mut interner = NodeInterner::new();
    let stmt = interner.push_empty_global();
    assert_eq!(interner.statement(&stmt), &HirStatement::Error);
    interner.push_global(
        stmt,
        Ident::new("G".to_string(), Span::new(0, 1)),
        LocalModuleId(5),
    );
    let info = interner.get_global(&stmt).unwrap();
    assert_eq!(info.ident.contents, "G");
    assert_eq!(info.local_id, LocalModuleId(5));
    assert_eq!(interner.get_all_globals().entries.len(), 1);

    interner.update_global(stmt, HirStatement::Expression(hir_index::node_interner::ExprId::empty_block_id()));
    assert!(matches!(interner.statement(&stmt), HirStatement::Expression(_)));
}

#[test]
fn function_records_cover_modifiers_modules_and_types() {
    let mut interner = NodeInterner::new();
    let fid = interner.push_empty_fn();
    let module = ModuleId { krate: CrateId(2), local_id: LocalModuleId(3) };
    let def = FunctionDefinition {
        name: Ident::new("f".to_string(), Span::new(0, 1)),
        visibility: FunctionVisibility::Private,
        attributes: Attributes::empty(),
        is_unconstrained: true,
        is_open: true,
        is_internal: false,
    };
    let def_id = interner.push_function(fid, &def, module, Location::dummy());
    assert_eq!(interner.function_definition_id(fid), def_id);
    assert_eq!(interner.function_visibility(fid), FunctionVisibility::Private);
    assert_eq!(interner.function_module(fid), module);
    assert_eq!(interner.function_name(&fid), "f");
    assert!(interner.function_modifiers(&fid).is_unconstrained);
    assert_eq!(
        interner.function_modifiers(&fid).contract_function_type,
        Some(hir_index::ast::ContractFunctionType::Open)
    );
    assert_eq!(interner.function_modifiers(&fid).is_internal, Some(false));
    assert!(interner.function_attributes(&fid).function.is_none());
    assert!(interner.definition(def_id).kind == DefinitionKind::Function(fid));

    // The function body can be filled in later without changing its id.
    let body = interner.push_expr(HirExpression::Literal(3));
    interner.update_fn(fid, HirFunction::unchecked_from_expr(body));
    assert_eq!(interner.function(&fid).as_expr(), body);

    interner.set_function_trait(
        fid,
        Type::Bool,
        hir_index::node_interner::TraitId::dummy_id(),
    );
    assert_eq!(
        interner.get_function_trait(&fid),
        Some((Type::Bool, hir_index::node_interner::TraitId::dummy_id()))
    );
}

#[test]
fn id_types_default_to_error() {
    let mut interner = NodeInterner::new();
    let e = interner.push_expr(HirExpression::Literal(1));
    assert_eq!(interner.id_type(e.as_index()), Type::Error);
    interner.push_expr_type(&e, Type::Bool);
    assert_eq!(interner.id_type(e.as_index()), Type::Bool);

    let d = interner.push_definition(
        "v".to_string(),
        false,
        DefinitionKind::Local(None),
        Location::dummy(),
    );
    interner.push_definition_type(d, Type::FieldElement);
    assert_eq!(interner.id_type(d.as_index()), Type::FieldElement);
    // Sentinel ids resolve to the error type, never to a fault.
    assert_eq!(
        interner.id_type(hir_index::node_interner::DefinitionId::dummy_id().as_index()),
        Type::Error
    );
}

#[test]
fn let_statements_are_read_back() {
    let mut interner = NodeInterner::new();
    let init = interner.push_expr(HirExpression::Literal(4));
    let stmt = interner.push_stmt(HirStatement::Let(hir_index::hir::HirLetStatement {
        expression: init,
    }));
    assert_eq!(interner.let_statement(&stmt).expression, init);
}

#[test]
fn fresh_type_variables_are_sequential() {
    let mut interner = NodeInterner::new();
    let a = interner.next_type_variable_id();
    let b = interner.next_type_variable_id();
    assert_eq!(a, TypeVariableId(0));
    assert_eq!(b, TypeVariableId(1));
    let t = interner.next_type_variable();
    assert_eq!(
        t,
        Type::TypeVariable(TypeVariableId(2), hir_index::types::TypeVariableKind::Normal)
    );
}
