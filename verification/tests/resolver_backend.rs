use hir_index::ast::Ident;
use hir_index::backend::{backends_directory, Backend, BackendError};
use hir_index::hir::{FuncMeta, HirExpression, HirIdent, HirMemberAccess, StructType};
use hir_index::location::{FileId, Location, Span};
use hir_index::node_interner::{
    CrateId, DefinitionKind, LocalModuleId, ModuleId, NodeInterner, StructId,
};
use hir_index::types::{Type, TypeList};

fn struct_id(n: u32) -> StructId {
    StructId(ModuleId { krate: CrateId(0), local_id: LocalModuleId(n) })
}

#[test]
fn goto_definition_for_a_local_identifier() {
    let mut interner = NodeInterner::new();
    let def_location = Location::new(Span::new(2, 5), FileId(1));
    let def_id = interner.push_definition(
        "x".to_string(),
        false,
        DefinitionKind::Local(None),
        def_location,
    );
    let use_expr = interner.push_expr(HirExpression::Ident(HirIdent {
        id: def_id,
        location: Location::new(Span::new(20, 21), FileId(1)),
    }));
    interner.push_expr_location(use_expr, Span::new(20, 21), FileId(1));

    let resolved =
        interner.get_definition_location_from(Location::new(Span::new(20, 21), FileId(1)));
    assert_eq!(resolved, Some(def_location));
}

#[test]
fn goto_definition_for_a_struct_field() {
    let mut interner = NodeInterner::new();
    let sid = struct_id(4);
    let struct_location = Location::new(Span::new(0, 10), FileId(7));
    let field_span = Span::new(3, 8);
    let st = StructType::new(
        sid,
        Ident::new("Pair".to_string(), Span::new(0, 4)),
        struct_location,
        vec![
            (Ident::new("left".to_string(), field_span), Type::Bool),
            (Ident::new("right".to_string(), Span::new(9, 10)), Type::Bool),
        ],
        Vec::new(),
    );
    // Seed the struct table through the unresolved path, then resolve it.
    let unresolved = hir_index::ast::UnresolvedStruct {
        struct_def: hir_index::ast::StructDeclaration {
            name: Ident::new("Pair".to_string(), Span::new(0, 4)),
            attributes: Vec::new(),
            generics: Vec::new(),
            span: Span::new(0, 10),
        },
    };
    let got = interner.new_struct(&unresolved, CrateId(0), LocalModuleId(4), FileId(7));
    assert_eq!(got, sid);
    interner.update_struct(sid, st);

    let lhs = interner.push_expr(HirExpression::Literal(0));
    interner.push_expr_type(&lhs, Type::Struct(sid, Box::new(TypeList::Nil)));
    let access = interner.push_expr(HirExpression::MemberAccess(HirMemberAccess {
        lhs,
        rhs: Ident::new("left".to_string(), Span::new(22, 26)),
    }));
    interner.push_expr_location(access, Span::new(20, 27), FileId(7));

    let resolved =
        interner.get_definition_location_from(Location::new(Span::new(21, 24), FileId(7)));
    assert_eq!(resolved, Some(Location::new(field_span, FileId(7))));
}

#[test]
fn goto_definition_falls_back_to_the_trait_impl_jump() {
    let mut interner = NodeInterner::new();
    let tid = hir_index::node_interner::TraitId(ModuleId {
        krate: CrateId(0),
        local_id: LocalModuleId(2),
    });
    let trait_location = Location::new(Span::new(100, 120), FileId(9));
    let unresolved = hir_index::ast::UnresolvedTrait {
        trait_def: hir_index::ast::TraitDeclaration {
            name: Ident::new("Foo".to_string(), Span::new(100, 103)),
            generics: Vec::new(),
            span: Span::new(100, 120),
        },
        crate_id: CrateId(0),
        file_id: FileId(9),
        method_ids: Vec::new(),
    };
    interner.push_empty_trait(tid, &unresolved);
    assert_eq!(interner.get_trait(tid).location, trait_location);

    let ti = hir_index::hir::TraitImpl {
        ident: Ident::new("Foo".to_string(), Span::new(200, 203)),
        typ: Type::Bool,
        trait_id: tid,
        file: FileId(9),
        methods: Vec::new(),
        where_clause: Vec::new(),
    };
    assert!(interner
        .add_trait_implementation(
            Type::Bool,
            tid,
            hir_index::node_interner::TraitImplId(0),
            ti
        )
        .is_ok());

    let resolved =
        interner.get_definition_location_from(Location::new(Span::new(201, 202), FileId(9)));
    assert_eq!(resolved, Some(trait_location));
}

#[test]
fn backend_paths_derive_from_home() {
    let home = vec!["home".to_string(), "user".to_string()];
    let dir = backends_directory(&home);
    assert_eq!(
        dir,
        vec![
            "home".to_string(),
            "user".to_string(),
            ".nargo".to_string(),
            "backends".to_string()
        ]
    );

    let backend = Backend::new("acme".to_string(), None, &home);
    assert_eq!(backend.name(), "acme");
    assert_eq!(
        backend.binary_path(),
        &vec![
            "home".to_string(),
            "user".to_string(),
            ".nargo".to_string(),
            "backends".to_string(),
            "acme".to_string(),
            "backend_binary".to_string()
        ]
    );
    assert_eq!(
        backend.backend_directory(),
        vec![
            "home".to_string(),
            "user".to_string(),
            ".nargo".to_string(),
            "backends".to_string(),
            "acme".to_string()
        ]
    );
    let crs = backend.crs_directory();
    assert_eq!(crs.last().map(|s| s.as_str()), Some("crs"));
    assert_eq!(crs.len(), backend.binary_path().len());

    let configured = Backend::new(
        "acme".to_string(),
        Some(vec!["opt".to_string(), "bin".to_string()]),
        &home,
    );
    assert_eq!(
        configured.binary_path(),
        &vec!["opt".to_string(), "bin".to_string()]
    );
    assert!(matches!(BackendError::MissingBinary, BackendError::MissingBinary));
}
