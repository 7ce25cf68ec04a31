//! Pattern unwrapping: nested defaults, rest elements, object properties,
//! and the names the pre phases declare.

use js_walker::ast::{
    ArrayPat, AssignPat, Expr, Ident, Lit, ObjectPat, ObjectPatProp, Pat, RestPat, Span, Stmt,
    VarDecl, VarDeclarator, VarDeclKind,
};
use js_walker::parser::{object_and_members_to_name, JavascriptParser};
use js_walker::parser_plugin::JavaScriptParserPluginDrive;

fn sp(lo: u32, hi: u32) -> Span {
    Span { lo, hi }
}

fn pid(name: &str, lo: u32, hi: u32) -> Pat {
    Pat::Ident(Ident { sym: name.to_string(), span: sp(lo, hi) })
}

/// Builds `[a = 1, , {b, c: [d], ...e}, ...f]`.
fn nested_pattern() -> Pat {
    Pat::Array(ArrayPat {
        elems: vec![
            Some(Pat::Assign(AssignPat {
                left: Box::new(pid("a", 1, 2)),
                right: Box::new(Expr::Lit { lit: Lit::Num(1), span: sp(5, 6) }),
                span: sp(1, 6),
            })),
            None,
            Some(Pat::Object(ObjectPat {
                props: vec![
                    ObjectPatProp::Assign {
                        key: Ident { sym: "b".to_string(), span: sp(10, 11) },
                        default: None,
                        span: sp(10, 11),
                    },
                    ObjectPatProp::KeyValue {
                        value: Box::new(Pat::Array(ArrayPat {
                            elems: vec![Some(pid("d", 17, 18))],
                            span: sp(16, 19),
                        })),
                        span: sp(13, 19),
                    },
                    ObjectPatProp::Rest(RestPat {
                        arg: Box::new(pid("e", 24, 25)),
                        span: sp(21, 25),
                    }),
                ],
                span: sp(9, 26),
            })),
            Some(Pat::Rest(RestPat { arg: Box::new(pid("f", 31, 32)), span: sp(28, 32) })),
        ],
        span: sp(0, 33),
    })
}

#[test]
fn pattern_unwrap_reaches_every_leaf_in_order() {
    let mut out: Vec<Ident> = Vec::new();
    JavascriptParser::enter_pattern(&nested_pattern(), &mut out);
    let names: Vec<&str> = out.iter().map(|i| i.sym.as_str()).collect();
    assert_eq!(names, vec!["a", "b", "d", "e", "f"]);
}

#[test]
fn enter_patterns_visits_each_pattern() {
    let mut out: Vec<Ident> = Vec::new();
    let patterns = vec![pid("x", 0, 1), pid("y", 2, 3)];
    JavascriptParser::enter_patterns(&patterns, &mut out);
    let names: Vec<&str> = out.iter().map(|i| i.sym.as_str()).collect();
    assert_eq!(names, vec!["x", "y"]);
}

#[test]
fn block_pre_walk_declares_destructured_names() {
    // let [a = 1, , {b, c: [d], ...e}, ...f] = init;
    let drive = JavaScriptParserPluginDrive::new(Vec::new());
    let mut p = JavascriptParser::new(false);
    let stmt = Stmt::Decl(VarDecl {
        kind: VarDeclKind::Let,
        decls: vec![VarDeclarator { name: nested_pattern(), init: None, span: sp(0, 33) }],
        span: sp(0, 34),
    });
    p.block_pre_walk_statement(&drive, &stmt);
    for name in ["a", "b", "d", "e", "f"] {
        assert!(!p.is_unresolved_ident(name), "{} must be declared", name);
    }
    assert!(p.is_unresolved_ident("c"));
}

#[test]
fn var_declarations_are_not_block_scoped() {
    let drive = JavaScriptParserPluginDrive::new(Vec::new());
    let mut p = JavascriptParser::new(false);
    let stmt = Stmt::Decl(VarDecl {
        kind: VarDeclKind::Var,
        decls: vec![VarDeclarator { name: pid("v", 4, 5), init: None, span: sp(4, 5) }],
        span: sp(0, 6),
    });
    p.block_pre_walk_statement(&drive, &stmt);
    assert!(p.is_unresolved_ident("v"));
    p.pre_walk_statement(&drive, &stmt);
    assert!(!p.is_unresolved_ident("v"));
}

#[test]
fn dotted_name_with_no_members_is_the_root() {
    let name = object_and_members_to_name(&"root".to_string(), &Vec::new());
    assert_eq!(name, "root");
}
