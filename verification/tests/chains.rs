//! Member-chain extraction, dotted-name building, chain classification, and
//! decimal key rendering.

use js_walker::ast::{
    Callee, CallExpr, Expr, Ident, Lit, MemberExpr, MemberProp, Span, ThisExpr,
};
use js_walker::digits::i64_to_string;
use js_walker::eval::ExportedVariableInfo;
use js_walker::parser::{
    object_and_members_to_name, AllowedMemberTypes, JavascriptParser, MemberExpressionInfo,
};

fn sp(lo: u32, hi: u32) -> Span {
    Span { lo, hi }
}

fn ident(name: &str, lo: u32, hi: u32) -> Expr {
    Expr::Ident(Ident { sym: name.to_string(), span: sp(lo, hi) })
}

/// Builds `a.b["c"].d` with distinct spans.
fn chain_a_b_c_d() -> Expr {
    let a = ident("a", 0, 1);
    let ab = Expr::Member(MemberExpr {
        obj: Box::new(a),
        prop: MemberProp::Ident { sym: "b".to_string(), span: sp(2, 3) },
        span: sp(0, 3),
    });
    let abc = Expr::Member(MemberExpr {
        obj: Box::new(ab),
        prop: MemberProp::Computed {
            key: Box::new(Expr::Lit { lit: Lit::Str("c".to_string()), span: sp(4, 7) }),
            span: sp(4, 7),
        },
        span: sp(0, 8),
    });
    Expr::Member(MemberExpr {
        obj: Box::new(abc),
        prop: MemberProp::Ident { sym: "d".to_string(), span: sp(9, 10) },
        span: sp(0, 10),
    })
}

#[test]
fn extraction_yields_root_and_reversed_members() {
    let e = chain_a_b_c_d();
    let data = JavascriptParser::extract_member_expression_chain(&e);
    match data.object {
        Expr::Ident(i) => assert_eq!(i.sym, "a"),
        _ => panic!("the chain must be rooted at `a`"),
    }
    // Extractor order is outermost-first: [d, c, b].
    let members: Vec<&str> = data.members.iter().map(|m| m.as_str()).collect();
    assert_eq!(members, vec!["d", "c", "b"]);
    assert_eq!(data.member_ranges.len(), 3);
    // Each recorded span is the span of the object the member was read from.
    assert_eq!(data.member_ranges[0], sp(0, 8));
    assert_eq!(data.member_ranges[1], sp(0, 3));
    assert_eq!(data.member_ranges[2], sp(0, 1));
}

#[test]
fn dotted_name_reads_members_in_reverse() {
    let e = chain_a_b_c_d();
    let data = JavascriptParser::extract_member_expression_chain(&e);
    let name = object_and_members_to_name(&"a".to_string(), &data.members);
    assert_eq!(name, "a.b.c.d");
}

#[test]
fn extraction_stops_at_non_literal_computed_key() {
    // a[b].c — the computed key is an identifier, so extraction stops there:
    // the remainder a[b] is the object and only .c is collected.
    let a = ident("a", 0, 1);
    let ab = Expr::Member(MemberExpr {
        obj: Box::new(a),
        prop: MemberProp::Computed { key: Box::new(ident("b", 2, 3)), span: sp(2, 3) },
        span: sp(0, 4),
    });
    let abc = Expr::Member(MemberExpr {
        obj: Box::new(ab),
        prop: MemberProp::Ident { sym: "c".to_string(), span: sp(5, 6) },
        span: sp(0, 6),
    });
    let data = JavascriptParser::extract_member_expression_chain(&abc);
    let members: Vec<&str> = data.members.iter().map(|m| m.as_str()).collect();
    assert_eq!(members, vec!["c"]);
    assert!(matches!(data.object, Expr::Member(_)));
}

#[test]
fn computed_literal_keys_render_as_text() {
    // x[true][null][12][-3]
    let x = ident("x", 0, 1);
    let keys: Vec<Lit> = vec![Lit::Bool(true), Lit::Null, Lit::Num(12), Lit::Num(-3)];
    let mut e = x;
    let mut lo = 1;
    for lit in keys {
        e = Expr::Member(MemberExpr {
            obj: Box::new(e),
            prop: MemberProp::Computed {
                key: Box::new(Expr::Lit { lit, span: sp(lo, lo + 1) }),
                span: sp(lo, lo + 1),
            },
            span: sp(0, lo + 2),
        });
        lo += 2;
    }
    let data = JavascriptParser::extract_member_expression_chain(&e);
    let members: Vec<&str> = data.members.iter().map(|m| m.as_str()).collect();
    assert_eq!(members, vec!["-3", "12", "null", "true"]);
}

#[test]
fn member_info_classifies_expression_root() {
    let p = JavascriptParser::new(false);
    let e = chain_a_b_c_d();
    let info = p.get_member_expression_info(
        &e,
        AllowedMemberTypes { call_expression: true, expression: true },
    );
    match info {
        Some(MemberExpressionInfo::Expression(ei)) => {
            assert_eq!(ei.name, "a.b.c.d");
            match ei.root_info {
                ExportedVariableInfo::Name(n) => assert_eq!(n, "a"),
                _ => panic!("an unbound root is reported by name"),
            }
        },
        _ => panic!("expected an expression-rooted chain"),
    }
}

#[test]
fn member_info_rejects_disallowed_root_kind() {
    let p = JavascriptParser::new(false);
    let e = chain_a_b_c_d();
    let info = p.get_member_expression_info(
        &e,
        AllowedMemberTypes { call_expression: true, expression: false },
    );
    assert!(info.is_none());
}

#[test]
fn member_info_classifies_call_root() {
    // require("m").exports
    let p = JavascriptParser::new(false);
    let call = CallExpr {
        callee: Callee::Expr(Box::new(ident("require", 0, 7))),
        args: vec![Expr::Lit { lit: Lit::Str("m".to_string()), span: sp(8, 11) }],
        span: sp(0, 12),
    };
    let e = Expr::Member(MemberExpr {
        obj: Box::new(Expr::Call(call)),
        prop: MemberProp::Ident { sym: "exports".to_string(), span: sp(13, 20) },
        span: sp(0, 20),
    });
    let info = p.get_member_expression_info(
        &e,
        AllowedMemberTypes { call_expression: true, expression: true },
    );
    match info {
        Some(MemberExpressionInfo::Call(ci)) => {
            assert_eq!(ci.callee_name, "require.exports");
            assert_eq!(ci.call.args.len(), 1);
            match ci.root_info {
                ExportedVariableInfo::Name(n) => assert_eq!(n, "require"),
                _ => panic!("an unbound callee root is reported by name"),
            }
        },
        _ => panic!("expected a call-rooted chain"),
    }
}

#[test]
fn this_rooted_chain_uses_this_name() {
    let p = JavascriptParser::new(false);
    let e = Expr::Member(MemberExpr {
        obj: Box::new(Expr::This(ThisExpr { span: sp(0, 4) })),
        prop: MemberProp::Ident { sym: "window".to_string(), span: sp(5, 11) },
        span: sp(0, 11),
    });
    let info = p.get_member_expression_info(
        &e,
        AllowedMemberTypes { call_expression: false, expression: true },
    );
    match info {
        Some(MemberExpressionInfo::Expression(ei)) => assert_eq!(ei.name, "this.window"),
        _ => panic!("expected an expression-rooted chain"),
    }
}

#[test]
fn decimal_rendering() {
    assert_eq!(i64_to_string(0), "0");
    assert_eq!(i64_to_string(7), "7");
    assert_eq!(i64_to_string(10), "10");
    assert_eq!(i64_to_string(409), "409");
    assert_eq!(i64_to_string(-1), "-1");
    assert_eq!(i64_to_string(-120), "-120");
    assert_eq!(i64_to_string(i64::MAX), "9223372036854775807");
    assert_eq!(i64_to_string(i64::MIN), "-9223372036854775808");
}
