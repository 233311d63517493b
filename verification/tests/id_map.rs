use jang::parser::ast::id::adt::map::IdMap;
use jang::parser::ast::id::builder::IdBuilder;
use jang::parser::ast::id::def::AstExpressionId;

#[test]
fn test_get_set() {
    let mut ids = IdBuilder::default();
    let start = ids.snapshot();
    let id0 = ids.new_expr_id();
    let id1 = ids.new_expr_id();
    let mut m: IdMap<AstExpressionId, u32> = start.to(ids.snapshot()).new_expression_id_map();
    m.insert(id0, 0);
    m.insert(id1, 1);
    assert_eq!(m.get(id0), Some(&0));
    assert_eq!(m.get(id1), Some(&1));
}

#[test]
fn test_get_set_positive_offset() {
    let mut ids = IdBuilder::default();
    let _ = ids.new_expr_id();
    let _ = ids.new_expr_id();
    let start = ids.snapshot();
    let id1 = ids.new_expr_id();
    let id2 = ids.new_expr_id();
    let end = ids.snapshot();
    let mut m: IdMap<AstExpressionId, u32> = start.to(end).new_expression_id_map();
    m.insert(id1, 0);
    m.insert(id2, 1);
    assert_eq!(m.get(id1), Some(&0));
    assert_eq!(m.get(id2), Some(&1));
}

#[test]
fn test_get_empty_returns_none() {
    let mut ids = IdBuilder::default();
    let start = ids.snapshot();
    let id0 = ids.new_expr_id();
    let end = ids.snapshot();
    let m: IdMap<AstExpressionId, u32> = start.to(end).new_expression_id_map();
    assert!(m.get(id0).is_none());
}

#[test]
fn test_into_iter() {
    let mut ids = IdBuilder::default();
    let start = ids.snapshot();
    let id0 = ids.new_expr_id();
    let id1 = ids.new_expr_id();
    let end = ids.snapshot();
    let mut m: IdMap<AstExpressionId, u32> = start.to(end).new_expression_id_map();
    m.insert(id0, 0);
    m.insert(id1, 1);
    let v: Vec<(AstExpressionId, u32)> = m.into_entries();
    assert_eq!(v, vec![(id0, 0), (id1, 1)]);
}

#[test]
fn get_mut_changes_the_stored_value() {
    let mut ids = IdBuilder::default();
    let start = ids.snapshot();
    let id0 = ids.new_expr_id();
    let id1 = ids.new_expr_id();
    let end = ids.snapshot();
    let mut m: IdMap<AstExpressionId, u32> = start.to(end).new_expression_id_map();
    m.insert(id0, 5);
    if let Some(v) = m.get_mut(id0) {
        *v += 1;
    }
    assert!(m.get_mut(id1).is_none());
    assert_eq!(m.get(id0), Some(&6));
    assert!(m.get(id1).is_none());
}
