//! Shadow-aware lookup through the scope chain, and re-resolution of a
//! binding's current state through an exported reference.

use js_walker::ast::{Expr, Ident, MemberExpr, MemberProp, Span};
use js_walker::eval::{EvaluatedValue, ExportedVariableInfo};
use js_walker::parser::{CallHooksName, JavascriptParser, TagInfoData};
use js_walker::parser_plugin::JavaScriptParserPluginDrive;
use js_walker::scope_info::{FreeName, ScopeInfo, ScopeInfoDB, VariableInfo};

struct NoteData;

impl TagInfoData for NoteData {
    fn serialize(_data: &Self) -> serde_json::Value {
        serde_json::Value::Null
    }

    fn deserialize(_value: serde_json::Value) -> Self {
        NoteData
    }
}

fn sp(lo: u32, hi: u32) -> Span {
    Span { lo, hi }
}

/// Two scopes: a root with `outer` and `both`, and a child that shadows
/// `both`.
fn nested_store() -> ScopeInfoDB {
    ScopeInfoDB {
        scopes: vec![
            ScopeInfo {
                parent: None,
                is_strict: false,
                bindings: vec![("outer".to_string(), 0), ("both".to_string(), 1)],
            },
            ScopeInfo {
                parent: Some(0),
                is_strict: false,
                bindings: vec![("both".to_string(), 2)],
            },
        ],
        variables: vec![
            VariableInfo { declared_scope: 0, free_name: None, tag_info: None },
            VariableInfo {
                declared_scope: 0,
                free_name: Some(FreeName::Named("root".to_string())),
                tag_info: None,
            },
            VariableInfo {
                declared_scope: 1,
                free_name: Some(FreeName::Named("leaf".to_string())),
                tag_info: None,
            },
        ],
    }
}

#[test]
fn lookup_walks_outward_through_enclosing_scopes() {
    let db = nested_store();
    assert_eq!(db.get(1, &"outer".to_string()), Some(0));
    assert_eq!(db.get(0, &"outer".to_string()), Some(0));
    assert_eq!(db.get(1, &"missing".to_string()), None);
}

#[test]
fn inner_binding_shadows_outer() {
    let db = nested_store();
    assert_eq!(db.get(1, &"both".to_string()), Some(2));
    assert_eq!(db.get(0, &"both".to_string()), Some(1));
}

#[test]
fn delete_removes_only_from_the_named_scope() {
    let mut db = nested_store();
    db.delete(1, &"both".to_string());
    // The child's shadowing binding is gone; the root's survives and is
    // found from the child again.
    assert_eq!(db.get(1, &"both".to_string()), Some(1));
    assert_eq!(db.get(0, &"both".to_string()), Some(1));
}

#[test]
fn exported_reference_re_resolves_current_binding_state() {
    let drive = JavaScriptParserPluginDrive::new(Vec::new());
    let mut p = JavascriptParser::new(false);
    p.tag_variable::<NoteData>("x".to_string(), "marker", None);

    // Evaluating x.y aliases the binding, not a cached string.
    let e = Expr::Member(MemberExpr {
        obj: Box::new(Expr::Ident(Ident { sym: "x".to_string(), span: sp(0, 1) })),
        prop: MemberProp::Ident { sym: "y".to_string(), span: sp(2, 3) },
        span: sp(0, 3),
    });
    let r = p.evaluate_expression(&drive, &e);
    let root_info = match r.value {
        EvaluatedValue::Identifier { name, info } => {
            assert_eq!(name, "x.y");
            info
        },
        _ => panic!("expected an identifier reference"),
    };
    assert!(matches!(root_info, ExportedVariableInfo::VariableInfo(_)));

    // While the binding still forwards to the literal name `x`, the
    // reference resolves to it.
    assert_eq!(root_info.call_hooks_name(&p), Some("x".to_string()));

    // Re-tagging forces the free-but-unnamed marker: the reference obtained
    // earlier sees the binding's new state and no longer yields a key, and
    // the chain itself stops classifying as an expression root.
    p.tag_variable::<NoteData>("x".to_string(), "other", None);
    assert!(root_info.call_hooks_name(&p).is_none());
    let again = p.evaluate_expression(&drive, &e);
    assert!(matches!(again.value, EvaluatedValue::Unknown));
}
