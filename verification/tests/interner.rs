use hir_index::arena::Index;
use hir_index::hir::{HirExpression, HirStatement};
use hir_index::location::{FileId, Location, Span};
use hir_index::node_interner::{DefinitionId, DefinitionKind, ExprId, NodeInterner, StmtId};

fn fresh() -> NodeInterner {
    NodeInterner::new()
}

#[test]
fn empty_block_is_canonical() {
    let interner = fresh();
    let id = ExprId::empty_block_id();
    assert_eq!(id.0, Index { index: 0, generation: 0 });
    let expr = interner.expression(&id);
    match expr {
        HirExpression::Block(block) => assert_eq!(block.0.len(), 0),
        other => panic!("expected the canonical empty block, found {:?}", other),
    }
}

#[test]
fn push_and_fetch_expression_location() {
    let mut interner = fresh();
    let e1 = interner.push_expr(HirExpression::Literal(7));
    interner.push_expr_location(e1, Span::new(10, 11), FileId(1));

    let loc = interner.expr_location(&e1);
    assert_eq!(loc, Location::new(Span::new(10, 11), FileId(1)));
    assert_eq!(interner.expr_span(&e1), Span::new(10, 11));

    let found = interner.find_location_index(Location::new(Span::new(10, 11), FileId(1)));
    assert_eq!(found, Some(e1.0));
}

#[test]
fn innermost_location_wins() {
    let mut interner = fresh();
    let outer = interner.push_expr(HirExpression::Literal(1));
    let inner = interner.push_expr(HirExpression::Literal(2));
    interner.push_expr_location(outer, Span::new(0, 100), FileId(3));
    interner.push_expr_location(inner, Span::new(40, 60), FileId(3));

    let found = interner.find_location_index(Location::new(Span::new(45, 50), FileId(3)));
    assert_eq!(found, Some(inner.0));
}

#[test]
fn location_in_other_file_is_not_found() {
    let mut interner = fresh();
    let e1 = interner.push_expr(HirExpression::Literal(7));
    interner.push_expr_location(e1, Span::new(10, 11), FileId(1));
    let found = interner.find_location_index(Location::new(Span::new(10, 11), FileId(2)));
    assert_eq!(found, None);
}

#[test]
fn ids_stay_stable_across_insertions_and_updates() {
    let mut interner = fresh();
    let e1 = interner.push_expr(HirExpression::Literal(7));
    let s1 = interner.push_stmt(HirStatement::Error);
    let _e2 = interner.push_expr(HirExpression::Literal(9));

    assert_eq!(interner.expression(&e1), &HirExpression::Literal(7));
    assert_eq!(interner.statement(&s1), &HirStatement::Error);

    interner.update_expression(e1, HirExpression::Literal(8));
    assert_eq!(interner.expression(&e1), &HirExpression::Literal(8));

    interner.replace_expr(&e1, HirExpression::Literal(10));
    assert_eq!(interner.expression(&e1), &HirExpression::Literal(10));

    // Expression and statement ids never share an underlying index.
    assert_ne!(e1.0, s1.0);
}

#[test]
fn definitions_get_dense_ids() {
    let mut interner = fresh();
    let d0 = interner.push_definition(
        "a".to_string(),
        false,
        DefinitionKind::Local(None),
        Location::dummy(),
    );
    let d1 = interner.push_definition(
        "b".to_string(),
        true,
        DefinitionKind::Local(None),
        Location::dummy(),
    );
    assert_eq!(d0, DefinitionId(0));
    assert_eq!(d1, DefinitionId(1));
    assert_eq!(interner.definition_name(d0), "a");
    assert!(interner.definition(d1).mutable);
    assert!(interner.try_definition(DefinitionId::dummy_id()).is_none());
    assert!(!interner.definition(d0).is_global());
}

#[test]
fn dummy_ids_are_sentinels() {
    assert_eq!(DefinitionId::dummy_id(), DefinitionId(usize::MAX));
    assert_eq!(StmtId::dummy_id().0.index, usize::MAX);
    let sid = hir_index::node_interner::StructId::dummy_id();
    assert_eq!(sid.krate(), hir_index::node_interner::CrateId::dummy_id());
    assert_eq!(
        sid.local_module_id(),
        hir_index::node_interner::LocalModuleId::dummy_id()
    );
    assert_eq!(sid.module_id(), hir_index::node_interner::ModuleId::dummy_id());
    assert_eq!(
        hir_index::node_interner::TypeAliasId::dummy_id(),
        hir_index::node_interner::TypeAliasId(usize::MAX)
    );
    let tid = hir_index::node_interner::TraitId::dummy_id();
    assert_eq!(tid.0, hir_index::node_interner::ModuleId::dummy_id());
    assert_eq!(hir_index::node_interner::FuncId::dummy_id().0.index, usize::MAX);
}
