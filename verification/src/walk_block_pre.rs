//! The block-pre-walk phase: resolves block-scoped (`let`/`const`) bindings
//! and dispatches module declarations before expression evaluation begins.

use vstd::prelude::*;

use crate::ast::{ModuleItem, Stmt, VarDeclKind};
use crate::parser::{same_flags, state_extends, JavascriptParser, JavascriptParserV};
use crate::parser_plugin::JavaScriptParserPluginDrive;
use crate::walk_pre::{declarators_syms, hoisted_syms, pattern_leaf_syms};

verus! {

/// The names a statement binds in the block-pre-walk phase: those of a
/// `let`/`const` declaration, and nothing else.
pub open spec fn block_scoped_syms(s: Stmt) -> Seq<Seq<char>> {
    match s {
        Stmt::Decl(d) => if d.kind is Var {
            Seq::empty()
        } else {
            declarators_syms(d.decls@)
        },
        _ => Seq::empty(),
    }
}

/// The names a statement list binds in the block-pre-walk phase, in order.
pub open spec fn block_scoped_list_syms(ss: Seq<Stmt>) -> Seq<Seq<char>>
    decreases ss,
{
    if ss.len() == 0 {
        Seq::empty()
    } else {
        block_scoped_syms(ss[0]) + block_scoped_list_syms(ss.drop_first())
    }
}

/// The names a module body hoists in the pre-walk phase; module declarations
/// hold no hoisted names in this model.
pub open spec fn hoisted_item_syms(items: Seq<ModuleItem>) -> Seq<Seq<char>>
    decreases items,
{
    if items.len() == 0 {
        Seq::empty()
    } else {
        (match items[0] {
            ModuleItem::Stmt(s) => hoisted_syms(s),
            ModuleItem::ModuleDecl(_) => Seq::empty(),
        }) + hoisted_item_syms(items.drop_first())
    }
}

/// The names a module body binds in the block-pre-walk phase.
pub open spec fn block_scoped_item_syms(items: Seq<ModuleItem>) -> Seq<Seq<char>>
    decreases items,
{
    if items.len() == 0 {
        Seq::empty()
    } else {
        (match items[0] {
            ModuleItem::Stmt(s) => block_scoped_syms(s),
            ModuleItem::ModuleDecl(_) => Seq::empty(),
        }) + block_scoped_item_syms(items.drop_first())
    }
}

impl JavascriptParser {
    /// Declares exactly the block-scoped (`let`/`const`) names of one
    /// statement in the current scope, in leaf order.
    #[verifier::loop_isolation(false)]
    pub fn block_pre_walk_statement(&mut self, drive: &JavaScriptParserPluginDrive, stmt: &Stmt)
        requires
            old(self).wf(),
        ensures
            final(self).wf(),
            final(self)@ == (JavascriptParserV {
                db: old(self)@.db.spec_define_all(old(self)@.current, block_scoped_syms(*stmt)),
                ..old(self)@
            }),
            same_flags(*old(self), *final(self)),
            state_extends(final(self)@, old(self)@),
    {
        match stmt {
            Stmt::Decl(decl) => {
                if !matches!(decl.kind, VarDeclKind::Var) {
                    let ghost all = declarators_syms(decl.decls@);
                    let n = decl.decls.len();
                    let mut i: usize = 0;
                    proof {
                        assert(decl.decls@.skip(0) =~= decl.decls@);
                    }
                    while i < n
                        invariant
                            i <= n,
                            self.wf(),
                            self.definitions == old(self).definitions,
                            self@ == (JavascriptParserV { db: self@.db, ..old(self)@ }),
                            same_flags(*old(self), *self),
                            old(self)@.db.spec_define_all(old(self)@.current, all)
                                == self@.db.spec_define_all(
                                old(self)@.current,
                                declarators_syms(decl.decls@.skip(i as int)),
                            ),
                        decreases n - i,
                    {
                        let ghost rest = decl.decls@.skip(i as int);
                        proof {
                            assert(rest[0] == decl.decls@[i as int]);
                            assert(rest.drop_first() =~= decl.decls@.skip(i as int + 1));
                            crate::scope_info::lemma_define_all_append(
                                self@.db,
                                old(self)@.current,
                                pattern_leaf_syms(decl.decls@[i as int].name),
                                declarators_syms(decl.decls@.skip(i as int + 1)),
                            );
                        }
                        self.define_pattern_names(&decl.decls[i].name);
                        i = i + 1;
                    }
                    proof {
                        assert(declarators_syms(decl.decls@.skip(n as int))
                            =~= Seq::<Seq<char>>::empty());
                    }
                }
            },
            _ => {},
        }
    }

    /// Block-pre-walks a statement list in order: this dispatches no hooks,
    /// so it declares exactly the list's block-scoped names.
    #[verifier::loop_isolation(false)]
    pub fn block_pre_walk_statements(
        &mut self,
        drive: &JavaScriptParserPluginDrive,
        stmts: &Vec<Stmt>,
    )
        requires
            old(self).wf(),
        ensures
            final(self).wf(),
            final(self)@ == (JavascriptParserV {
                db: old(self)@.db.spec_define_all(
                    old(self)@.current,
                    block_scoped_list_syms(stmts@),
                ),
                ..old(self)@
            }),
            same_flags(*old(self), *final(self)),
            state_extends(final(self)@, old(self)@),
    {
        let ghost cur = old(self)@.current;
        let n = stmts.len();
        let mut i: usize = 0;
        proof {
            assert(stmts@.skip(0) =~= stmts@);
        }
        while i < n
            invariant
                i <= n,
                self.wf(),
                state_extends(self@, old(self)@),
                self.definitions == old(self).definitions,
                self@ == (JavascriptParserV { db: self@.db, ..old(self)@ }),
                same_flags(*old(self), *self),
                old(self)@.db.spec_define_all(cur, block_scoped_list_syms(stmts@))
                    == self@.db.spec_define_all(
                    cur,
                    block_scoped_list_syms(stmts@.skip(i as int)),
                ),
            decreases n - i,
        {
            let ghost rest = stmts@.skip(i as int);
            proof {
                assert(rest[0] == stmts@[i as int]);
                assert(rest.drop_first() =~= stmts@.skip(i as int + 1));
                crate::scope_info::lemma_define_all_append(
                    self@.db,
                    cur,
                    block_scoped_syms(stmts@[i as int]),
                    block_scoped_list_syms(stmts@.skip(i as int + 1)),
                );
            }
            self.block_pre_walk_statement(drive, &stmts[i]);
            i = i + 1;
        }
        proof {
            assert(block_scoped_list_syms(stmts@.skip(n as int)) =~= Seq::<Seq<char>>::empty());
        }
    }

    /// Block-pre-walks a module body: each module declaration goes to the
    /// `module_declaration` hook (a `Some` answer skips default handling);
    /// plain statements are block-pre-walked.  Without plugins this declares
    /// exactly the body's block-scoped names.
    #[verifier::loop_isolation(false)]
    pub fn block_pre_walk_module_declarations(
        &mut self,
        drive: &JavaScriptParserPluginDrive,
        items: &Vec<ModuleItem>,
    )
        requires
            old(self).wf(),
        ensures
            final(self).wf(),
            state_extends(final(self)@, old(self)@),
            drive.plugins@.len() == 0 ==> final(self)@ == (JavascriptParserV {
                db: old(self)@.db.spec_define_all(
                    old(self)@.current,
                    block_scoped_item_syms(items@),
                ),
                ..old(self)@
            }),
            drive.plugins@.len() == 0 ==> same_flags(*old(self), *final(self)),
    {
        let ghost cur = old(self)@.current;
        let n = items.len();
        let mut i: usize = 0;
        proof {
            assert(items@.skip(0) =~= items@);
        }
        while i < n
            invariant
                i <= n,
                self.wf(),
                state_extends(self@, old(self)@),
                drive.plugins@.len() == 0 ==> {
                    &&& self.definitions == old(self).definitions
                    &&& self@ == (JavascriptParserV { db: self@.db, ..old(self)@ })
                    &&& same_flags(*old(self), *self)
                    &&& old(self)@.db.spec_define_all(cur, block_scoped_item_syms(items@))
                        == self@.db.spec_define_all(
                        cur,
                        block_scoped_item_syms(items@.skip(i as int)),
                    )
                },
            decreases n - i,
        {
            let ghost rest = items@.skip(i as int);
            proof {
                assert(rest[0] == items@[i as int]);
                assert(rest.drop_first() =~= items@.skip(i as int + 1));
                if drive.plugins@.len() == 0 {
                    crate::scope_info::lemma_define_all_append(
                        self@.db,
                        cur,
                        match items@[i as int] {
                            ModuleItem::Stmt(s) => block_scoped_syms(s),
                            ModuleItem::ModuleDecl(_) => Seq::empty(),
                        },
                        block_scoped_item_syms(items@.skip(i as int + 1)),
                    );
                }
            }
            match &items[i] {
                ModuleItem::ModuleDecl(decl) => {
                    let _ = drive.module_declaration(self, decl);
                },
                ModuleItem::Stmt(stmt) => {
                    self.block_pre_walk_statement(drive, stmt);
                },
            }
            i = i + 1;
        }
        proof {
            assert(block_scoped_item_syms(items@.skip(n as int)) =~= Seq::<Seq<char>>::empty());
        }
    }

    /// Pre-walks a module body: plain statements are pre-walked; module
    /// declarations hold no hoisted names in this model.  Without plugins
    /// this declares exactly the body's hoisted names.
    #[verifier::loop_isolation(false)]
    pub fn pre_walk_module_declarations(
        &mut self,
        drive: &JavaScriptParserPluginDrive,
        items: &Vec<ModuleItem>,
    )
        requires
            old(self).wf(),
        ensures
            final(self).wf(),
            state_extends(final(self)@, old(self)@),
            drive.plugins@.len() == 0 ==> final(self)@ == (JavascriptParserV {
                db: old(self)@.db.spec_define_all(
                    old(self)@.current,
                    hoisted_item_syms(items@),
                ),
                ..old(self)@
            }),
            drive.plugins@.len() == 0 ==> same_flags(*old(self), *final(self)),
    {
        let ghost cur = old(self)@.current;
        let n = items.len();
        let mut i: usize = 0;
        proof {
            assert(items@.skip(0) =~= items@);
        }
        while i < n
            invariant
                i <= n,
                self.wf(),
                state_extends(self@, old(self)@),
                drive.plugins@.len() == 0 ==> {
                    &&& self.definitions == old(self).definitions
                    &&& self@ == (JavascriptParserV { db: self@.db, ..old(self)@ })
                    &&& same_flags(*old(self), *self)
                    &&& old(self)@.db.spec_define_all(cur, hoisted_item_syms(items@))
                        == self@.db.spec_define_all(
                        cur,
                        hoisted_item_syms(items@.skip(i as int)),
                    )
                },
            decreases n - i,
        {
            let ghost rest = items@.skip(i as int);
            proof {
                assert(rest[0] == items@[i as int]);
                assert(rest.drop_first() =~= items@.skip(i as int + 1));
                if drive.plugins@.len() == 0 {
                    crate::scope_info::lemma_define_all_append(
                        self@.db,
                        cur,
                        match items@[i as int] {
                            ModuleItem::Stmt(s) => hoisted_syms(s),
                            ModuleItem::ModuleDecl(_) => Seq::empty(),
                        },
                        hoisted_item_syms(items@.skip(i as int + 1)),
                    );
                }
            }
            match &items[i] {
                ModuleItem::ModuleDecl(_) => {},
                ModuleItem::Stmt(stmt) => {
                    self.pre_walk_statement(drive, stmt);
                },
            }
            i = i + 1;
        }
        proof {
            assert(hoisted_item_syms(items@.skip(n as int)) =~= Seq::<Seq<char>>::empty());
        }
    }
}

} // verus!
