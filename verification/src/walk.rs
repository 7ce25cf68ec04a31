//! The full walk: the only phase that evaluates expressions, resolves member
//! chains, dispatches the expression/statement hooks, and appends to the
//! dependency and diagnostic buffers (through plugins).

use vstd::prelude::*;

use crate::ast::{Callee, ModuleItem, Program, Stmt, Expr};
use crate::parser::{
    has_use_strict_pragma, same_flags, state_extends, AllowedMemberTypes, CallHooksName,
    JavascriptParser, JavascriptParserV, MemberExpressionInfo, RootName, TopLevelScope,
};
use crate::parser_plugin::JavaScriptParserPluginDrive;
use crate::scope_info::{ScopeInfoDBV, ScopeV};
use crate::walk_block_pre::{block_scoped_item_syms, block_scoped_list_syms, hoisted_item_syms};
use crate::walk_pre::hoisted_list_syms;

verus! {

/// The store with scope `sid`'s strict flag set.
pub open spec fn with_strict(db: ScopeInfoDBV, sid: int) -> ScopeInfoDBV {
    ScopeInfoDBV {
        scopes: db.scopes.update(
            sid,
            ScopeV {
                parent: db.scopes[sid].parent,
                is_strict: true,
                bindings: db.scopes[sid].bindings,
            },
        ),
        variables: db.variables,
    }
}

/// What the three built-in passes do to the store when no plugin interferes:
/// a module is strict and its body's hoisted then block-scoped names are
/// declared; a script detects the pragma first, then declares the same way.
/// The walk pass itself only reads.
pub open spec fn walk_program_db(db: ScopeInfoDBV, sid: int, ast: Program) -> ScopeInfoDBV {
    match ast {
        Program::Module(m) => with_strict(db, sid).spec_define_all(
            sid,
            hoisted_item_syms(m.body@),
        ).spec_define_all(sid, block_scoped_item_syms(m.body@)),
        Program::Script(s) => {
            let db1 = if has_use_strict_pragma(s.body@) {
                with_strict(db, sid)
            } else {
                db
            };
            db1.spec_define_all(sid, hoisted_list_syms(s.body@)).spec_define_all(
                sid,
                block_scoped_list_syms(s.body@),
            )
        },
    }
}

impl JavascriptParser {
    /// Walks one expression, dispatching each shape's hook with its own
    /// traversal-control contract before descending into children.
    #[verifier::loop_isolation(false)]
    pub fn walk_expression(&mut self, drive: &JavaScriptParserPluginDrive, expr: &Expr)
        requires
            old(self).wf(),
        ensures
            final(self).wf(),
            state_extends(final(self)@, old(self)@),
            drive.plugins@.len() == 0 ==> *final(self) == *old(self),
        decreases *expr,
    {
        match expr {
            Expr::Ident(ident) => {
                let for_name = ident.sym.call_hooks_name(self);
                if let Some(n) = for_name {
                    let _ = drive.identifier(self, ident, n.as_str());
                }
            },
            Expr::This(this_expr) => {
                let _ = drive.this(self, this_expr);
            },
            Expr::Member(m) => {
                proof {
                    assert(decreases_to!(*expr => *expr->Member_0.obj));
                    assert(decreases_to!(*expr => expr->Member_0.prop));
                }
                let info = self.get_member_expression_info(
                    expr,
                    AllowedMemberTypes { call_expression: true, expression: true },
                );
                let handled = match info {
                    Some(MemberExpressionInfo::Expression(ei)) => {
                        matches!(drive.member(self, m, ei.name.as_str()), Some(true))
                    },
                    Some(MemberExpressionInfo::Call(ci)) => {
                        let first = drive.member_chain_of_call_member_chain(
                            self,
                            m,
                            ci.callee_name.as_str(),
                        );
                        if matches!(first, Some(true)) {
                            true
                        } else {
                            matches!(
                                drive.call_member_chain_of_call_member_chain(
                                    self,
                                    ci.call,
                                    ci.callee_name.as_str(),
                                ),
                                Some(true)
                            )
                        }
                    },
                    None => false,
                };
                if !handled {
                    self.walk_expression(drive, &m.obj);
                    match &m.prop {
                        crate::ast::MemberProp::Computed { key, .. } => {
                            proof {
                                assert(decreases_to!(expr->Member_0.prop => *expr->Member_0.prop->Computed_key));
                            }
                            self.walk_expression(drive, key);
                        },
                        _ => {},
                    }
                }
            },
            Expr::Call(c) => {
                let for_name: Option<String> = match c.callee.get_root_name() {
                    Some(root) => root.call_hooks_name(self),
                    None => None,
                };
                let handled = match for_name {
                    Some(n) => matches!(drive.call(self, c, n.as_str()), Some(true)),
                    None => false,
                };
                if !handled {
                    match &c.callee {
                        Callee::Expr(e) => {
                            proof {
                                assert(decreases_to!(*expr => expr->Call_0.callee));
                                assert(decreases_to!(expr->Call_0.callee => *expr->Call_0.callee->Expr_0));
                            }
                            self.walk_expression(drive, e);
                        },
                        _ => {},
                    }
                    let n = c.args.len();
                    let mut i: usize = 0;
                    while i < n
                        invariant
                            self.wf(),
                            state_extends(self@, old(self)@),
                            drive.plugins@.len() == 0 ==> *self == *old(self),
                        decreases n - i,
                    {
                        proof {
                            assert(decreases_to!(*expr => expr->Call_0.args));
                            assert(decreases_to!(expr->Call_0.args => expr->Call_0.args@));
                            assert(decreases_to!(expr->Call_0.args@ => expr->Call_0.args@[i as int]));
                        }
                        self.walk_expression(drive, &c.args[i]);
                        i = i + 1;
                    }
                }
            },
            Expr::New(ne) => {
                let handled = matches!(drive.new_expression(self, ne), Some(true));
                if !handled {
                    proof {
                        assert(decreases_to!(*expr => *expr->New_0.callee));
                    }
                    self.walk_expression(drive, &ne.callee);
                    let n = ne.args.len();
                    let mut i: usize = 0;
                    while i < n
                        invariant
                            self.wf(),
                            state_extends(self@, old(self)@),
                            drive.plugins@.len() == 0 ==> *self == *old(self),
                        decreases n - i,
                    {
                        proof {
                            assert(decreases_to!(*expr => expr->New_0.args));
                            assert(decreases_to!(expr->New_0.args => expr->New_0.args@));
                            assert(decreases_to!(expr->New_0.args@ => expr->New_0.args@[i as int]));
                        }
                        self.walk_expression(drive, &ne.args[i]);
                        i = i + 1;
                    }
                }
            },
            Expr::Unary(u) => {
                proof {
                    assert(decreases_to!(*expr => *expr->Unary_0.arg));
                }
                if matches!(u.op, crate::ast::UnaryOp::TypeOf) {
                    let handled = matches!(drive.typeof_expr(self, u), Some(true));
                    if !handled {
                        self.walk_expression(drive, &u.arg);
                    }
                } else {
                    self.walk_expression(drive, &u.arg);
                }
            },
            Expr::Bin(b) => {
                proof {
                    assert(decreases_to!(*expr => *expr->Bin_0.left));
                    assert(decreases_to!(*expr => *expr->Bin_0.right));
                }
                if b.op.is_logical() {
                    match drive.expression_logical_operator(self, b) {
                        None => {
                            self.walk_expression(drive, &b.left);
                            self.walk_expression(drive, &b.right);
                        },
                        Some(true) => {
                            self.walk_expression(drive, &b.right);
                        },
                        Some(false) => {},
                    }
                } else {
                    let _ = drive.binary_expression(self, b);
                    self.walk_expression(drive, &b.left);
                    self.walk_expression(drive, &b.right);
                }
            },
            Expr::Cond(c) => {
                proof {
                    assert(decreases_to!(*expr => *expr->Cond_0.test));
                    assert(decreases_to!(*expr => *expr->Cond_0.cons));
                    assert(decreases_to!(*expr => *expr->Cond_0.alt));
                }
                self.walk_expression(drive, &c.test);
                self.walk_expression(drive, &c.cons);
                self.walk_expression(drive, &c.alt);
            },
            Expr::Array(a) => {
                let n = a.elems.len();
                let mut i: usize = 0;
                while i < n
                    invariant
                        self.wf(),
                        state_extends(self@, old(self)@),
                        drive.plugins@.len() == 0 ==> *self == *old(self),
                    decreases n - i,
                {
                    proof {
                        assert(decreases_to!(*expr => expr->Array_0.elems));
                        assert(decreases_to!(expr->Array_0.elems => expr->Array_0.elems@));
                        assert(decreases_to!(expr->Array_0.elems@ => expr->Array_0.elems@[i as int]));
                    }
                    self.walk_expression(drive, &a.elems[i]);
                    i = i + 1;
                }
            },
            Expr::Tpl(t) => {
                let n = t.exprs.len();
                let mut i: usize = 0;
                while i < n
                    invariant
                        self.wf(),
                        state_extends(self@, old(self)@),
                        drive.plugins@.len() == 0 ==> *self == *old(self),
                    decreases n - i,
                {
                    proof {
                        assert(decreases_to!(*expr => expr->Tpl_0.exprs));
                        assert(decreases_to!(expr->Tpl_0.exprs => expr->Tpl_0.exprs@));
                        assert(decreases_to!(expr->Tpl_0.exprs@ => expr->Tpl_0.exprs@[i as int]));
                    }
                    self.walk_expression(drive, &t.exprs[i]);
                    i = i + 1;
                }
            },
            Expr::Assign(a) => {
                proof {
                    assert(decreases_to!(*expr => *expr->Assign_0.target));
                    assert(decreases_to!(*expr => *expr->Assign_0.value));
                }
                let handled = matches!(drive.assign(self, a), Some(true));
                if !handled {
                    self.walk_expression(drive, &a.target);
                    self.walk_expression(drive, &a.value);
                }
            },
            Expr::Await(aw) => {
                proof {
                    assert(decreases_to!(*expr => *expr->Await_0.arg));
                }
                if matches!(self.top_level_scope, TopLevelScope::Top) {
                    drive.top_level_await_expr(self, aw);
                }
                self.walk_expression(drive, &aw.arg);
            },
            _ => {},
        }
    }

    /// Walks one statement, honoring each statement hook's branch contract.
    #[verifier::loop_isolation(false)]
    pub fn walk_statement(&mut self, drive: &JavaScriptParserPluginDrive, stmt: &Stmt)
        requires
            old(self).wf(),
        ensures
            final(self).wf(),
            state_extends(final(self)@, old(self)@),
            drive.plugins@.len() == 0 ==> *final(self) == *old(self),
        decreases *stmt,
    {
        match stmt {
            Stmt::Expr(es) => {
                self.walk_expression(drive, &es.expr);
            },
            Stmt::Block(block) => {
                let n = block.stmts.len();
                let mut i: usize = 0;
                while i < n
                    invariant
                        self.wf(),
                        state_extends(self@, old(self)@),
                        drive.plugins@.len() == 0 ==> *self == *old(self),
                    decreases n - i,
                {
                    proof {
                        assert(decreases_to!(*stmt => stmt->Block_0.stmts));
                        assert(decreases_to!(stmt->Block_0.stmts => stmt->Block_0.stmts@));
                        assert(decreases_to!(stmt->Block_0.stmts@ => stmt->Block_0.stmts@[i as int]));
                    }
                    self.walk_statement(drive, &block.stmts[i]);
                    i = i + 1;
                }
            },
            Stmt::If(ifstmt) => {
                proof {
                    assert(decreases_to!(*stmt => *stmt->If_0.cons));
                    assert(decreases_to!(*stmt => stmt->If_0.alt));
                }
                match drive.statement_if(self, ifstmt) {
                    None => {
                        self.walk_expression(drive, &ifstmt.test);
                        self.walk_statement(drive, &ifstmt.cons);
                        match &ifstmt.alt {
                            Some(alt) => {
                                self.walk_statement(drive, alt);
                            },
                            None => {},
                        }
                    },
                    Some(true) => {
                        self.walk_statement(drive, &ifstmt.cons);
                    },
                    Some(false) => {
                        match &ifstmt.alt {
                            Some(alt) => {
                                self.walk_statement(drive, alt);
                            },
                            None => {},
                        }
                    },
                }
            },
            Stmt::Decl(decl) => {
                let n = decl.decls.len();
                let mut i: usize = 0;
                while i < n
                    invariant
                        self.wf(),
                        state_extends(self@, old(self)@),
                        drive.plugins@.len() == 0 ==> *self == *old(self),
                    decreases n - i,
                {
                    let handled = matches!(
                        drive.declarator(self, &decl.decls[i], decl),
                        Some(true)
                    );
                    if !handled {
                        match &decl.decls[i].init {
                            Some(init) => {
                                self.walk_expression(drive, init);
                            },
                            None => {},
                        }
                    }
                    i = i + 1;
                }
            },
            Stmt::ForOf(forof) => {
                proof {
                    assert(decreases_to!(*stmt => *stmt->ForOf_0.body));
                }
                if forof.is_await && matches!(self.top_level_scope, TopLevelScope::Top) {
                    drive.top_level_for_of_await_stmt(self, forof);
                }
                self.walk_expression(drive, &forof.right);
                self.walk_statement(drive, &forof.body);
            },
            _ => {},
        }
    }

    /// Walks a statement list in order.
    #[verifier::loop_isolation(false)]
    pub fn walk_statements(&mut self, drive: &JavaScriptParserPluginDrive, stmts: &Vec<Stmt>)
        requires
            old(self).wf(),
        ensures
            final(self).wf(),
            state_extends(final(self)@, old(self)@),
            drive.plugins@.len() == 0 ==> *final(self) == *old(self),
    {
        let n = stmts.len();
        let mut i: usize = 0;
        while i < n
            invariant
                self.wf(),
                state_extends(self@, old(self)@),
                drive.plugins@.len() == 0 ==> *self == *old(self),
            decreases n - i,
        {
            self.walk_statement(drive, &stmts[i]);
            i = i + 1;
        }
    }

    /// Walks a module body; module declarations were already offered to the
    /// `module_declaration` hook during block-pre-walk.
    #[verifier::loop_isolation(false)]
    pub fn walk_module_declarations(&mut self, drive: &JavaScriptParserPluginDrive, items: &Vec<ModuleItem>)
        requires
            old(self).wf(),
        ensures
            final(self).wf(),
            state_extends(final(self)@, old(self)@),
            drive.plugins@.len() == 0 ==> *final(self) == *old(self),
    {
        let n = items.len();
        let mut i: usize = 0;
        while i < n
            invariant
                self.wf(),
                state_extends(self@, old(self)@),
                drive.plugins@.len() == 0 ==> *self == *old(self),
            decreases n - i,
        {
            match &items[i] {
                ModuleItem::ModuleDecl(_) => {},
                ModuleItem::Stmt(stmt) => {
                    self.walk_statement(drive, stmt);
                },
            }
            i = i + 1;
        }
    }

    /// The walk entry point.  The `program` hook is dispatched first; when
    /// every plugin declines, the three built-in passes run in order — for a
    /// module: strict mode, pre-walk, block-pre-walk, walk; for a script:
    /// pragma detection, pre-walk, block-pre-walk, walk.  A plugin answering
    /// `Some` replaces all three passes for this program.
    pub fn walk_program(&mut self, drive: &JavaScriptParserPluginDrive, ast: &Program)
        requires
            old(self).wf(),
        ensures
            final(self).wf(),
            state_extends(final(self)@, old(self)@),
            drive.plugins@.len() == 0 ==> final(self)@ == (JavascriptParserV {
                db: walk_program_db(old(self)@.db, old(self)@.current, *ast),
                ..old(self)@
            }),
            drive.plugins@.len() == 0 ==> same_flags(*old(self), *final(self)),
    {
        let handled = drive.program(self, ast);
        if handled.is_none() {
            match ast {
                Program::Module(m) => {
                    self.set_strict(true);
                    self.pre_walk_module_declarations(drive, &m.body);
                    self.block_pre_walk_module_declarations(drive, &m.body);
                    self.walk_module_declarations(drive, &m.body);
                },
                Program::Script(s) => {
                    self.detect_mode(&s.body);
                    self.pre_walk_statements(drive, &s.body);
                    self.block_pre_walk_statements(drive, &s.body);
                    self.walk_statements(drive, &s.body);
                },
            }
        }
    }
}

} // verus!
