//! Walk phases, hook dispatch order and short-circuiting, and an end-to-end
//! CommonJS-style scenario.

use std::cell::Cell;
use std::rc::Rc;

use js_walker::ast::{
    AwaitExpr, BinaryOp, BinExpr, BlockStmt, Callee, CallExpr, Expr, ExprStmt, Ident, IfStmt, Lit,
    MemberExpr, MemberProp, Module, ModuleDecl, ModuleItem, Program, Script, Span, Stmt, VarDecl,
    VarDeclarator, VarDeclKind, Pat,
};
use js_walker::parser::{Dependency, DependencyLocation, JavascriptParser};
use js_walker::parser_plugin::{JavaScriptParserPluginDrive, JavascriptParserPlugin};

fn sp(lo: u32, hi: u32) -> Span {
    Span { lo, hi }
}

fn ident(name: &str, lo: u32, hi: u32) -> Expr {
    Expr::Ident(Ident { sym: name.to_string(), span: sp(lo, hi) })
}

fn call(callee: Expr, args: Vec<Expr>, lo: u32, hi: u32) -> Expr {
    Expr::Call(CallExpr { callee: Callee::Expr(Box::new(callee)), args, span: sp(lo, hi) })
}

fn script(body: Vec<Stmt>) -> Program {
    Program::Script(Script { body, span: sp(0, 100) })
}

/// Counts its `call` hook invocations and answers a fixed verdict.
struct CountingCallPlugin {
    hits: Rc<Cell<u32>>,
    answer: Option<bool>,
}

impl JavascriptParserPlugin for CountingCallPlugin {
    fn call(
        &self,
        _parser: &mut JavascriptParser,
        _expr: &CallExpr,
        _for_name: &str,
    ) -> Option<bool> {
        self.hits.set(self.hits.get() + 1);
        self.answer
    }
}

#[test]
fn first_decisive_plugin_short_circuits_call_hook() {
    let first = Rc::new(Cell::new(0));
    let second = Rc::new(Cell::new(0));
    let drive = JavaScriptParserPluginDrive::new(vec![
        Box::new(CountingCallPlugin { hits: first.clone(), answer: Some(true) }),
        Box::new(CountingCallPlugin { hits: second.clone(), answer: Some(true) }),
    ]);
    let mut p = JavascriptParser::new(false);
    let program = script(vec![Stmt::Expr(ExprStmt {
        expr: call(ident("foo", 0, 3), vec![], 0, 5),
        span: sp(0, 6),
    })]);
    p.walk_program(&drive, &program);
    assert_eq!(first.get(), 1);
    assert_eq!(second.get(), 0);
}

#[test]
fn undecided_plugins_are_all_consulted_in_order() {
    let first = Rc::new(Cell::new(0));
    let second = Rc::new(Cell::new(0));
    let drive = JavaScriptParserPluginDrive::new(vec![
        Box::new(CountingCallPlugin { hits: first.clone(), answer: None }),
        Box::new(CountingCallPlugin { hits: second.clone(), answer: None }),
    ]);
    let mut p = JavascriptParser::new(false);
    let program = script(vec![Stmt::Expr(ExprStmt {
        expr: call(ident("foo", 0, 3), vec![], 0, 5),
        span: sp(0, 6),
    })]);
    p.walk_program(&drive, &program);
    assert_eq!(first.get(), 1);
    assert_eq!(second.get(), 1);
}

/// Takes over the whole program.
struct ProgramTakeover {
    ran: Rc<Cell<u32>>,
}

impl JavascriptParserPlugin for ProgramTakeover {
    fn program(&self, _parser: &mut JavascriptParser, _ast: &Program) -> Option<bool> {
        self.ran.set(self.ran.get() + 1);
        Some(true)
    }
}

#[test]
fn program_hook_replaces_all_passes() {
    let ran = Rc::new(Cell::new(0));
    let drive = JavaScriptParserPluginDrive::new(vec![Box::new(ProgramTakeover {
        ran: ran.clone(),
    })]);
    let mut p = JavascriptParser::new(false);
    // A script whose pragma would otherwise set strict mode.
    let program = script(vec![Stmt::Expr(ExprStmt {
        expr: Expr::Lit { lit: Lit::Str("use strict".to_string()), span: sp(0, 12) },
        span: sp(0, 13),
    })]);
    p.walk_program(&drive, &program);
    assert_eq!(ran.get(), 1);
    assert!(!p.is_strict());
}

#[test]
fn script_pragma_sets_strict_during_walk() {
    let drive = JavaScriptParserPluginDrive::new(Vec::new());
    let mut p = JavascriptParser::new(false);
    let program = script(vec![Stmt::Expr(ExprStmt {
        expr: Expr::Lit { lit: Lit::Str("use strict".to_string()), span: sp(0, 12) },
        span: sp(0, 13),
    })]);
    p.walk_program(&drive, &program);
    assert!(p.is_strict());
}

/// Steers `if` statements to one branch.
struct IfSteer {
    verdict: Option<bool>,
    test_hits: Rc<Cell<u32>>,
}

impl JavascriptParserPlugin for IfSteer {
    fn statement_if(&self, _parser: &mut JavascriptParser, _stmt: &IfStmt) -> Option<bool> {
        self.verdict
    }

    fn identifier(
        &self,
        _parser: &mut JavascriptParser,
        ident: &Ident,
        _for_name: &str,
    ) -> Option<bool> {
        if ident.sym == "cond" {
            self.test_hits.set(self.test_hits.get() + 1);
        }
        None
    }
}

fn if_program() -> Program {
    // if (cond) { yes() } else { no() }
    script(vec![Stmt::If(IfStmt {
        test: Box::new(ident("cond", 4, 8)),
        cons: Box::new(Stmt::Block(BlockStmt {
            stmts: vec![Stmt::Expr(ExprStmt {
                expr: call(ident("yes", 12, 15), vec![], 12, 17),
                span: sp(12, 18),
            })],
            span: sp(10, 20),
        })),
        alt: Some(Box::new(Stmt::Block(BlockStmt {
            stmts: vec![Stmt::Expr(ExprStmt {
                expr: call(ident("no", 28, 30), vec![], 28, 32),
                span: sp(28, 33),
            })],
            span: sp(26, 35),
        }))),
        span: sp(0, 35),
    })])
}

#[test]
fn statement_if_branch_control() {
    // Some(true): only the consequent is walked — the test identifier is not.
    let hits = Rc::new(Cell::new(0));
    let calls = Rc::new(Cell::new(0));
    let drive = JavaScriptParserPluginDrive::new(vec![
        Box::new(IfSteer { verdict: Some(true), test_hits: hits.clone() }),
        Box::new(CountingCallPlugin { hits: calls.clone(), answer: None }),
    ]);
    let mut p = JavascriptParser::new(false);
    p.walk_program(&drive, &if_program());
    assert_eq!(hits.get(), 0);
    assert_eq!(calls.get(), 1);

    // None: test, consequent and alternate are all walked.
    let hits2 = Rc::new(Cell::new(0));
    let calls2 = Rc::new(Cell::new(0));
    let drive2 = JavaScriptParserPluginDrive::new(vec![
        Box::new(IfSteer { verdict: None, test_hits: hits2.clone() }),
        Box::new(CountingCallPlugin { hits: calls2.clone(), answer: None }),
    ]);
    let mut p2 = JavascriptParser::new(false);
    p2.walk_program(&drive2, &if_program());
    assert_eq!(hits2.get(), 1);
    assert_eq!(calls2.get(), 2);
}

/// Controls short-circuit walking of logical operators.
struct LogicalSteer {
    verdict: Option<bool>,
}

impl JavascriptParserPlugin for LogicalSteer {
    fn expression_logical_operator(
        &self,
        _parser: &mut JavascriptParser,
        _expr: &BinExpr,
    ) -> Option<bool> {
        self.verdict
    }
}

fn and_program() -> Program {
    script(vec![Stmt::Expr(ExprStmt {
        expr: Expr::Bin(BinExpr {
            op: BinaryOp::LogicalAnd,
            left: Box::new(call(ident("l", 0, 1), vec![], 0, 3)),
            right: Box::new(call(ident("r", 7, 8), vec![], 7, 10)),
            span: sp(0, 10),
        }),
        span: sp(0, 11),
    })])
}

#[test]
fn logical_operator_walk_control() {
    for (verdict, expected_calls) in
        [(None, 2u32), (Some(true), 1u32), (Some(false), 0u32)]
    {
        let calls = Rc::new(Cell::new(0));
        let drive = JavaScriptParserPluginDrive::new(vec![
            Box::new(LogicalSteer { verdict }),
            Box::new(CountingCallPlugin { hits: calls.clone(), answer: None }),
        ]);
        let mut p = JavascriptParser::new(false);
        p.walk_program(&drive, &and_program());
        assert_eq!(calls.get(), expected_calls);
    }
}

/// Marks the module as needing async semantics on top-level `await`.
struct AwaitMarker;

impl JavascriptParserPlugin for AwaitMarker {
    fn top_level_await_expr(&self, parser: &mut JavascriptParser, _expr: &AwaitExpr) {
        parser.build_meta.has_top_level_await = true;
    }
}

#[test]
fn top_level_await_is_reported_to_all_plugins() {
    let drive = JavaScriptParserPluginDrive::new(vec![Box::new(AwaitMarker)]);
    let mut p = JavascriptParser::new(false);
    let program = script(vec![Stmt::Expr(ExprStmt {
        expr: Expr::Await(AwaitExpr {
            arg: Box::new(call(ident("fetchit", 6, 13), vec![], 6, 15)),
            span: sp(0, 15),
        }),
        span: sp(0, 16),
    })]);
    assert!(!p.build_meta.has_top_level_await);
    p.walk_program(&drive, &program);
    assert!(p.build_meta.has_top_level_await);
}

/// A CommonJS-flavored collaborator: handles `require(...)` calls by pushing
/// a dependency and claiming the call.
struct RequirePlugin;

impl JavascriptParserPlugin for RequirePlugin {
    fn call(
        &self,
        parser: &mut JavascriptParser,
        expr: &CallExpr,
        for_name: &str,
    ) -> Option<bool> {
        if for_name != "require" {
            return None;
        }
        if let Some(Expr::Lit { lit: Lit::Str(request), span }) = expr.args.first() {
            parser.dependencies.push(Dependency { request: request.clone(), span: *span });
            return Some(true);
        }
        None
    }
}

#[test]
fn commonjs_scenario_end_to_end() {
    // const a = require('x'); if (a.b) { a.b(); }
    let decl = Stmt::Decl(VarDecl {
        kind: VarDeclKind::Const,
        decls: vec![VarDeclarator {
            name: Pat::Ident(Ident { sym: "a".to_string(), span: sp(6, 7) }),
            init: Some(Box::new(call(
                ident("require", 10, 17),
                vec![Expr::Lit { lit: Lit::Str("x".to_string()), span: sp(18, 21) }],
                10,
                22,
            ))),
            span: sp(6, 22),
        }],
        span: sp(0, 23),
    });
    let a_dot_b = || {
        Expr::Member(MemberExpr {
            obj: Box::new(ident("a", 28, 29)),
            prop: MemberProp::Ident { sym: "b".to_string(), span: sp(30, 31) },
            span: sp(28, 31),
        })
    };
    let test_expr = a_dot_b();
    let if_stmt = Stmt::If(IfStmt {
        test: Box::new(a_dot_b()),
        cons: Box::new(Stmt::Block(BlockStmt {
            stmts: vec![Stmt::Expr(ExprStmt {
                expr: call(
                    Expr::Member(MemberExpr {
                        obj: Box::new(ident("a", 35, 36)),
                        prop: MemberProp::Ident { sym: "b".to_string(), span: sp(37, 38) },
                        span: sp(35, 38),
                    }),
                    vec![],
                    35,
                    40,
                ),
                span: sp(35, 41),
            })],
            span: sp(33, 43),
        })),
        alt: None,
        span: sp(24, 43),
    });

    let drive = JavaScriptParserPluginDrive::new(vec![Box::new(RequirePlugin)]);
    let mut p = JavascriptParser::new(false);
    let body = vec![decl, if_stmt];

    // Pre phases hoist the declaration name only: no tagging yet.
    p.pre_walk_statements(&drive, &body);
    p.block_pre_walk_statements(&drive, &body);
    let info = p.get_variable_info(&"a".to_string()).expect("a is declared before the walk");
    assert!(info.tag_info.is_none());
    assert!(p.dependencies.is_empty());

    // The walk lets the collaborator claim require('x').
    p.walk_statements(&drive, &body);
    assert_eq!(p.dependencies.len(), 1);
    assert_eq!(p.dependencies[0].request, "x");

    // The `if` test is a member access on a runtime binding: not constant,
    // so its span must not be in the ignored set.
    let r = p.evaluate_expression(&drive, &test_expr);
    assert!(!r.is_compile_time_value());
    assert!(!p.ignored.contains(&DependencyLocation { start: 28, end: 31 }));
}

#[test]
fn walk_phase_is_read_only_without_plugins() {
    let drive = JavaScriptParserPluginDrive::new(Vec::new());
    let mut p = JavascriptParser::new(false);
    let body = vec![Stmt::Expr(ExprStmt {
        expr: call(ident("foo", 0, 3), vec![ident("arg", 4, 7)], 0, 8),
        span: sp(0, 9),
    })];
    p.walk_statements(&drive, &body);
    assert!(p.dependencies.is_empty());
    assert!(p.ignored.is_empty());
    assert!(p.errors.is_empty());
    assert!(p.is_unresolved_ident("foo"));
}

#[test]
fn module_walk_is_strict_and_declares_names() {
    let drive = JavaScriptParserPluginDrive::new(Vec::new());
    let mut p = JavascriptParser::new(false);
    let body = vec![
        ModuleItem::ModuleDecl(ModuleDecl::Import { span: sp(0, 20) }),
        ModuleItem::Stmt(Stmt::Decl(VarDecl {
            kind: VarDeclKind::Var,
            decls: vec![VarDeclarator {
                name: Pat::Ident(Ident { sym: "hoisted".to_string(), span: sp(25, 32) }),
                init: None,
                span: sp(25, 32),
            }],
            span: sp(21, 33),
        })),
        ModuleItem::Stmt(Stmt::Decl(VarDecl {
            kind: VarDeclKind::Const,
            decls: vec![VarDeclarator {
                name: Pat::Ident(Ident { sym: "scoped".to_string(), span: sp(40, 46) }),
                init: None,
                span: sp(40, 46),
            }],
            span: sp(34, 47),
        })),
    ];
    let program = Program::Module(Module { body, span: sp(0, 48) });
    p.walk_program(&drive, &program);
    assert!(p.is_strict());
    assert!(!p.is_unresolved_ident("hoisted"));
    assert!(!p.is_unresolved_ident("scoped"));
}
