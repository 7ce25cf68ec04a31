//! Scope store behavior: declaration, tagging, free-name resolution,
//! removal, and strict-mode detection.

use js_walker::ast::{Expr, ExprStmt, Lit, Span, Stmt};
use js_walker::parser::{FreeInfo, JavascriptParser, TagInfoData};
use js_walker::scope_info::FreeName;

struct NoteData(String);

impl TagInfoData for NoteData {
    fn serialize(data: &Self) -> serde_json::Value {
        serde_json::Value::String(data.0.clone())
    }

    fn deserialize(value: serde_json::Value) -> Self {
        match value {
            serde_json::Value::String(s) => NoteData(s),
            _ => NoteData(String::new()),
        }
    }
}

fn sp(lo: u32, hi: u32) -> Span {
    Span { lo, hi }
}

#[test]
fn define_then_lookup() {
    let mut p = JavascriptParser::new(false);
    p.define_variable("a".to_string());
    let info = p.get_variable_info(&"a".to_string()).expect("a must be bound");
    assert!(info.free_name.is_none());
    assert!(info.tag_info.is_none());
    assert_eq!(info.declared_scope, 0);
}

#[test]
fn define_is_idempotent_on_tagged_binding() {
    let mut p = JavascriptParser::new(false);
    p.tag_variable::<NoteData>("a".to_string(), "marker", Some(NoteData("d".to_string())));
    // A re-declaration of a tagged name in the same scope is a no-op.
    p.define_variable("a".to_string());
    p.define_variable("a".to_string());
    let info = p.get_variable_info(&"a".to_string()).expect("a must stay bound");
    let tag = info.tag_info.as_ref().expect("the tag survives re-declaration");
    assert_eq!(tag.tag, "marker");
    assert!(tag.next.is_none());
}

#[test]
fn double_define_keeps_single_untagged_binding() {
    let mut p = JavascriptParser::new(false);
    p.define_variable("n".to_string());
    p.define_variable("n".to_string());
    let info = p.get_variable_info(&"n".to_string()).expect("n must be bound");
    assert!(info.tag_info.is_none());
    assert!(info.free_name.is_none());
}

#[test]
fn tag_chain_grows_one_per_tag_most_recent_first() {
    let mut p = JavascriptParser::new(false);
    p.tag_variable::<NoteData>("req".to_string(), "first", None);
    p.tag_variable::<NoteData>("req".to_string(), "second", None);
    p.tag_variable::<NoteData>("req".to_string(), "third", None);
    let info = p.get_variable_info(&"req".to_string()).expect("req must be bound");
    let t1 = info.tag_info.as_ref().expect("chain exists");
    assert_eq!(t1.tag, "third");
    let t2 = t1.next.as_ref().expect("second tag is recoverable");
    assert_eq!(t2.tag, "second");
    let t3 = t2.next.as_ref().expect("first tag is recoverable");
    assert_eq!(t3.tag, "first");
    assert!(t3.next.is_none());
}

#[test]
fn tag_unbound_name_is_free_under_its_own_name() {
    let mut p = JavascriptParser::new(false);
    p.tag_variable::<NoteData>("require".to_string(), "cjs", None);
    let info = p.get_variable_info(&"require".to_string()).unwrap();
    match &info.free_name {
        Some(FreeName::Named(n)) => assert_eq!(n, "require"),
        other => panic!("expected a literal free name, got {:?}", other.is_some()),
    }
}

#[test]
fn retagging_forces_unnamed_free_marker() {
    let mut p = JavascriptParser::new(false);
    p.tag_variable::<NoteData>("x".to_string(), "first", None);
    p.tag_variable::<NoteData>("x".to_string(), "second", None);
    let info = p.get_variable_info(&"x".to_string()).unwrap();
    assert!(matches!(info.free_name, Some(FreeName::True)));
}

#[test]
fn free_info_unbound_name_resolves_to_itself() {
    let p = JavascriptParser::new(false);
    let fi: FreeInfo = p
        .get_free_info_from_variable(&"x".to_string())
        .expect("an unbound name is free under itself");
    assert_eq!(fi.name, "x");
    assert!(fi.info.is_none());
}

#[test]
fn free_info_follows_renamed_binding() {
    let mut p = JavascriptParser::new(false);
    p.tag_variable::<NoteData>("x".to_string(), "alias", None);
    {
        let info = p.get_mut_variable_info(&"x".to_string()).expect("x is bound");
        info.free_name = Some(FreeName::Named("y".to_string()));
    }
    let fi = p.get_free_info_from_variable(&"x".to_string()).expect("x resolves");
    assert_eq!(fi.name, "y");
    assert!(fi.info.is_some());
}

#[test]
fn free_info_unnamed_binding_does_not_resolve() {
    let mut p = JavascriptParser::new(false);
    p.tag_variable::<NoteData>("x".to_string(), "first", None);
    p.tag_variable::<NoteData>("x".to_string(), "second", None);
    assert!(p.get_free_info_from_variable(&"x".to_string()).is_none());
}

#[test]
fn undefined_variable_removes_binding() {
    let mut p = JavascriptParser::new(false);
    p.define_variable("tmp".to_string());
    assert!(!p.is_unresolved_ident("tmp"));
    p.undefined_variable(&"tmp".to_string());
    assert!(p.is_unresolved_ident("tmp"));
}

#[test]
fn unresolved_require_helpers() {
    let mut p = JavascriptParser::new(false);
    let req = Expr::Ident(js_walker::ast::Ident { sym: "require".to_string(), span: sp(0, 7) });
    assert!(p.is_unresolved_require(&req));
    p.define_variable("require".to_string());
    assert!(!p.is_unresolved_require(&req));
}

#[test]
fn strict_pragma_exact_text_only() {
    let mut p = JavascriptParser::new(false);
    let body = vec![Stmt::Expr(ExprStmt {
        expr: Expr::Lit { lit: Lit::Str("use strict".to_string()), span: sp(0, 12) },
        span: sp(0, 13),
    })];
    assert!(!p.is_strict());
    p.detect_mode(&body);
    assert!(p.is_strict());

    let mut q = JavascriptParser::new(false);
    let trailing = vec![Stmt::Expr(ExprStmt {
        expr: Expr::Lit { lit: Lit::Str("use strict ".to_string()), span: sp(0, 13) },
        span: sp(0, 14),
    })];
    q.detect_mode(&trailing);
    assert!(!q.is_strict());
}
