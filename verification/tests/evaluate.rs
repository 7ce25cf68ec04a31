//! Constant folding and the ignored-span set.

use js_walker::ast::{
    BinaryOp, BinExpr, CondExpr, Expr, Ident, Lit, Span, Tpl, TplElement, UnaryExpr, UnaryOp,
};
use js_walker::eval::{BasicEvaluatedExpression, EvaluatedValue};
use js_walker::parser::{DependencyLocation, JavascriptParser};
use js_walker::parser_plugin::{JavaScriptParserPluginDrive, JavascriptParserPlugin};

fn sp(lo: u32, hi: u32) -> Span {
    Span { lo, hi }
}

fn str_lit(s: &str, lo: u32, hi: u32) -> Expr {
    Expr::Lit { lit: Lit::Str(s.to_string()), span: sp(lo, hi) }
}

fn empty_drive() -> JavaScriptParserPluginDrive {
    JavaScriptParserPluginDrive::new(Vec::new())
}

#[test]
fn string_concat_folds_and_marks_span_ignored() {
    let mut p = JavascriptParser::new(false);
    let drive = empty_drive();
    let e = Expr::Bin(BinExpr {
        op: BinaryOp::Add,
        left: Box::new(str_lit("a", 0, 3)),
        right: Box::new(str_lit("b", 6, 9)),
        span: sp(0, 9),
    });
    let r = p.evaluate_expression(&drive, &e);
    assert!(r.is_compile_time_value());
    match &r.value {
        EvaluatedValue::Str(s) => assert_eq!(s, "ab"),
        _ => panic!("expected the folded string"),
    }
    assert_eq!(r.span, sp(0, 9));
    assert!(p.ignored.contains(&DependencyLocation { start: 0, end: 9 }));
}

#[test]
fn typeof_unresolvable_free_variable_is_not_constant() {
    let mut p = JavascriptParser::new(false);
    let drive = empty_drive();
    let e = Expr::Unary(UnaryExpr {
        op: UnaryOp::TypeOf,
        arg: Box::new(Expr::Ident(Ident { sym: "x".to_string(), span: sp(7, 8) })),
        span: sp(0, 8),
    });
    let r = p.evaluate_expression(&drive, &e);
    assert!(!r.is_compile_time_value());
    assert!(p.ignored.is_empty());
}

struct TypeofTeller;

impl JavascriptParserPlugin for TypeofTeller {
    fn evaluate_typeof(
        &self,
        _parser: &mut JavascriptParser,
        ident: &Ident,
        start: u32,
        end: u32,
    ) -> Option<BasicEvaluatedExpression> {
        if ident.sym == "module" {
            Some(BasicEvaluatedExpression {
                value: EvaluatedValue::Str("object".to_string()),
                span: Span { lo: start, hi: end },
            })
        } else {
            None
        }
    }
}

#[test]
fn typeof_substituted_by_plugin_becomes_constant() {
    let mut p = JavascriptParser::new(false);
    let drive = JavaScriptParserPluginDrive::new(vec![Box::new(TypeofTeller)]);
    let e = Expr::Unary(UnaryExpr {
        op: UnaryOp::TypeOf,
        arg: Box::new(Expr::Ident(Ident { sym: "module".to_string(), span: sp(7, 13) })),
        span: sp(0, 13),
    });
    let r = p.evaluate_expression(&drive, &e);
    match &r.value {
        EvaluatedValue::Str(s) => assert_eq!(s, "object"),
        _ => panic!("expected the substituted value"),
    }
    assert!(p.ignored.contains(&DependencyLocation { start: 0, end: 13 }));
}

#[test]
fn constant_tested_conditional_takes_the_branch() {
    let mut p = JavascriptParser::new(false);
    let drive = empty_drive();
    let e = Expr::Cond(CondExpr {
        test: Box::new(Expr::Lit { lit: Lit::Bool(false), span: sp(0, 5) }),
        cons: Box::new(str_lit("yes", 8, 13)),
        alt: Box::new(str_lit("no", 16, 20)),
        span: sp(0, 20),
    });
    let r = p.evaluate_expression(&drive, &e);
    match &r.value {
        EvaluatedValue::Str(s) => assert_eq!(s, "no"),
        _ => panic!("expected the alternate branch"),
    }
    assert_eq!(r.span, sp(0, 20));
    assert!(p.ignored.contains(&DependencyLocation { start: 0, end: 20 }));
}

#[test]
fn ambiguous_conditional_is_not_constant() {
    let mut p = JavascriptParser::new(false);
    let drive = empty_drive();
    let e = Expr::Cond(CondExpr {
        test: Box::new(Expr::Ident(Ident { sym: "flag".to_string(), span: sp(0, 4) })),
        cons: Box::new(str_lit("yes", 7, 12)),
        alt: Box::new(str_lit("no", 15, 19)),
        span: sp(0, 19),
    });
    let r = p.evaluate_expression(&drive, &e);
    match &r.value {
        EvaluatedValue::Conditional(options) => assert_eq!(options.len(), 2),
        _ => panic!("expected a conditional value"),
    }
    assert!(!r.is_compile_time_value());
    assert!(!p.ignored.contains(&DependencyLocation { start: 0, end: 19 }));
}

#[test]
fn one_chunk_template_folds_to_its_text() {
    let mut p = JavascriptParser::new(false);
    let drive = empty_drive();
    let e = Expr::Tpl(Tpl {
        quasis: vec![TplElement { cooked: "hello".to_string(), span: sp(1, 6) }],
        exprs: vec![],
        span: sp(0, 7),
    });
    let r = p.evaluate_expression(&drive, &e);
    match &r.value {
        EvaluatedValue::Str(s) => assert_eq!(s, "hello"),
        _ => panic!("expected the template text"),
    }
    assert!(p.ignored.contains(&DependencyLocation { start: 0, end: 7 }));
}

#[test]
fn array_of_constants_is_constant() {
    let mut p = JavascriptParser::new(false);
    let drive = empty_drive();
    let e = Expr::Array(js_walker::ast::ArrayLit {
        elems: vec![str_lit("a", 1, 4), Expr::Lit { lit: Lit::Num(2), span: sp(6, 7) }],
        span: sp(0, 8),
    });
    let r = p.evaluate_expression(&drive, &e);
    assert!(r.is_compile_time_value());
    assert!(p.ignored.contains(&DependencyLocation { start: 0, end: 8 }));

    let mixed = Expr::Array(js_walker::ast::ArrayLit {
        elems: vec![
            str_lit("a", 11, 14),
            Expr::Ident(Ident { sym: "x".to_string(), span: sp(16, 17) }),
        ],
        span: sp(10, 18),
    });
    let r2 = p.evaluate_expression(&drive, &mixed);
    assert!(!r2.is_compile_time_value());
    assert!(!p.ignored.contains(&DependencyLocation { start: 10, end: 18 }));
}

#[test]
fn unbound_identifier_evaluates_to_identifier_reference() {
    let mut p = JavascriptParser::new(false);
    let drive = empty_drive();
    let e = Expr::Ident(Ident { sym: "foo".to_string(), span: sp(0, 3) });
    let r = p.evaluate_expression(&drive, &e);
    match &r.value {
        EvaluatedValue::Identifier { name, .. } => assert_eq!(name, "foo"),
        _ => panic!("expected an identifier reference"),
    }
    assert!(!r.is_compile_time_value());
    assert!(p.ignored.is_empty());
}

#[test]
fn defined_untagged_identifier_does_not_evaluate() {
    let mut p = JavascriptParser::new(false);
    let drive = empty_drive();
    p.define_variable("foo".to_string());
    let e = Expr::Ident(Ident { sym: "foo".to_string(), span: sp(0, 3) });
    let r = p.evaluate_expression(&drive, &e);
    assert!(matches!(r.value, EvaluatedValue::Unknown));
}

#[test]
fn number_addition_is_left_unfolded() {
    let mut p = JavascriptParser::new(false);
    let drive = empty_drive();
    let e = Expr::Bin(BinExpr {
        op: BinaryOp::Add,
        left: Box::new(Expr::Lit { lit: Lit::Num(1), span: sp(0, 1) }),
        right: Box::new(Expr::Lit { lit: Lit::Num(2), span: sp(4, 5) }),
        span: sp(0, 5),
    });
    let r = p.evaluate_expression(&drive, &e);
    assert!(matches!(r.value, EvaluatedValue::Unknown));
    // The operand literals themselves are still known constants.
    assert!(p.ignored.contains(&DependencyLocation { start: 0, end: 1 }));
    assert!(!p.ignored.contains(&DependencyLocation { start: 0, end: 5 }));
}

struct UnitData;

impl js_walker::parser::TagInfoData for UnitData {
    fn serialize(_data: &Self) -> serde_json::Value {
        serde_json::Value::Null
    }

    fn deserialize(_value: serde_json::Value) -> Self {
        UnitData
    }
}

#[test]
fn typeof_free_but_unnamed_binding_is_not_constant() {
    let mut p = JavascriptParser::new(false);
    let drive = empty_drive();
    // Two tags force the free-but-unnamed marker on x.
    p.tag_variable::<UnitData>("x".to_string(), "first", None);
    p.tag_variable::<UnitData>("x".to_string(), "second", None);
    let e = Expr::Unary(UnaryExpr {
        op: UnaryOp::TypeOf,
        arg: Box::new(Expr::Ident(Ident { sym: "x".to_string(), span: sp(7, 8) })),
        span: sp(0, 8),
    });
    let r = p.evaluate_expression(&drive, &e);
    assert!(!r.is_compile_time_value());
    assert!(matches!(r.value, EvaluatedValue::Unknown));
    assert!(p.ignored.is_empty());
}

#[test]
fn shapes_outside_the_fragment_evaluate_to_unknown() {
    let mut p = JavascriptParser::new(false);
    let drive = empty_drive();
    let shapes = vec![
        Expr::This(js_walker::ast::ThisExpr { span: sp(0, 4) }),
        Expr::Lit { lit: Lit::Null, span: sp(0, 4) },
        Expr::Assign(js_walker::ast::AssignExpr {
            target: Box::new(Expr::Ident(Ident { sym: "a".to_string(), span: sp(0, 1) })),
            value: Box::new(str_lit("v", 4, 7)),
            span: sp(0, 7),
        }),
        Expr::Other { span: sp(0, 2) },
    ];
    for e in shapes {
        let r = p.evaluate_expression(&drive, &e);
        assert!(matches!(r.value, EvaluatedValue::Unknown));
    }
    assert!(p.ignored.is_empty());
}
