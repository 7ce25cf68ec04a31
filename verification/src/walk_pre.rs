//! The pre-walk phase: hoists `var` declarations so later phases see forward
//! references.  It evaluates nothing and emits no dependencies; a plugin may
//! cut the pre-walk of a single statement short through `pre_statement`.

use vstd::prelude::*;

use crate::ast::{ArrayPat, AssignPat, Ident, ObjectPat, ObjectPatProp, Pat, RestPat, Stmt, VarDeclarator, VarDeclKind};
use crate::parser::{same_flags, seq_extends, state_extends, JavascriptParser, JavascriptParserV};
use crate::parser_plugin::JavaScriptParserPluginDrive;

verus! {


/// The names a pattern binds, in left-to-right leaf order.
pub open spec fn pattern_leaf_syms(p: Pat) -> Seq<Seq<char>>
    decreases p,
{
    match p {
        Pat::Ident(i) => seq![i.sym@],
        Pat::Array(a) => array_elems_leaf_syms(a.elems@),
        Pat::Assign(a) => pattern_leaf_syms(*a.left),
        Pat::Object(o) => object_props_leaf_syms(o.props@),
        Pat::Rest(r) => pattern_leaf_syms(*r.arg),
        Pat::Other { .. } => Seq::empty(),
    }
}

pub open spec fn array_elems_leaf_syms(elems: Seq<Option<Pat>>) -> Seq<Seq<char>>
    decreases elems,
{
    if elems.len() == 0 {
        Seq::empty()
    } else {
        (match elems[0] {
            Some(p) => pattern_leaf_syms(p),
            None => Seq::empty(),
        }) + array_elems_leaf_syms(elems.drop_first())
    }
}

pub open spec fn object_props_leaf_syms(props: Seq<ObjectPatProp>) -> Seq<Seq<char>>
    decreases props,
{
    if props.len() == 0 {
        Seq::empty()
    } else {
        (match props[0] {
            ObjectPatProp::KeyValue { value, .. } => pattern_leaf_syms(*value),
            ObjectPatProp::Assign { key, .. } => seq![key.sym@],
            ObjectPatProp::Rest(rest) => pattern_leaf_syms(*rest.arg),
        }) + object_props_leaf_syms(props.drop_first())
    }
}

/// The names the declarators of a declaration bind, in order.
pub open spec fn declarators_syms(ds: Seq<VarDeclarator>) -> Seq<Seq<char>>
    decreases ds,
{
    if ds.len() == 0 {
        Seq::empty()
    } else {
        pattern_leaf_syms(ds[0].name) + declarators_syms(ds.drop_first())
    }
}

/// The names one statement hoists in the pre-walk phase: the declarator
/// names of a `var` declaration, together with whatever its blocks, branches
/// and loop bodies hoist.
pub open spec fn hoisted_syms(s: Stmt) -> Seq<Seq<char>>
    decreases s,
{
    match s {
        Stmt::Decl(d) => if d.kind is Var {
            declarators_syms(d.decls@)
        } else {
            Seq::empty()
        },
        Stmt::Block(b) => hoisted_list_syms(b.stmts@),
        Stmt::If(i) => hoisted_syms(*i.cons) + (match i.alt {
            Some(a) => hoisted_syms(*a),
            None => Seq::empty(),
        }),
        Stmt::ForOf(f) => hoisted_syms(*f.body),
        _ => Seq::empty(),
    }
}

/// The names a statement list hoists, in order.
pub open spec fn hoisted_list_syms(ss: Seq<Stmt>) -> Seq<Seq<char>>
    decreases ss,
{
    if ss.len() == 0 {
        Seq::empty()
    } else {
        hoisted_syms(ss[0]) + hoisted_list_syms(ss.drop_first())
    }
}

/// The leaf names collected so far, as the contracts speak of them.
pub open spec fn collected_syms(out: Seq<Ident>) -> Seq<Seq<char>> {
    out.map_values(|i: Ident| i.sym@)
}

impl JavascriptParser {
    /// Collects the one identifier leaf.
    pub fn enter_ident(ident: &Ident, out: &mut Vec<Ident>)
        ensures
            seq_extends(final(out)@, old(out)@),
            collected_syms(final(out)@) == collected_syms(old(out)@).push(ident.sym@),
            final(out)@.last().span == ident.span,
    {
        let copied = Ident { sym: ident.sym.clone(), span: ident.span };
        out.push(copied);
        proof {
            assert(collected_syms(out@) =~= collected_syms(old(out)@).push(ident.sym@));
        }
    }

    /// Collects the leaves of every element pattern; holes bind nothing.
    #[verifier::loop_isolation(false)]
    pub fn enter_array_pattern(array_pat: &ArrayPat, out: &mut Vec<Ident>)
        ensures
            seq_extends(final(out)@, old(out)@),
            collected_syms(final(out)@) == collected_syms(old(out)@) + array_elems_leaf_syms(
                array_pat.elems@,
            ),
        decreases *array_pat,
    {
        let n = array_pat.elems.len();
        let mut i: usize = 0;
        proof {
            assert(array_pat.elems@.skip(0) =~= array_pat.elems@);
        }
        while i < n
            invariant
                i <= n,
                seq_extends(out@, old(out)@),
                collected_syms(old(out)@) + array_elems_leaf_syms(array_pat.elems@)
                    == collected_syms(out@) + array_elems_leaf_syms(array_pat.elems@.skip(i as int)),
            decreases n - i,
        {
            let ghost rest = array_pat.elems@.skip(i as int);
            proof {
                assert(rest[0] == array_pat.elems@[i as int]);
                assert(rest.drop_first() =~= array_pat.elems@.skip(i as int + 1));
            }
            let ghost before = collected_syms(out@);
            proof {
                assert(decreases_to!(*array_pat => array_pat.elems));
                assert(decreases_to!(array_pat.elems => array_pat.elems@));
                assert(decreases_to!(array_pat.elems@ => array_pat.elems@[i as int]));
            }
            match &array_pat.elems[i] {
                Some(p) => {
                    Self::enter_pattern(p, out);
                },
                None => {},
            }
            proof {
                assert(collected_syms(out@) + array_elems_leaf_syms(
                    array_pat.elems@.skip(i as int + 1),
                ) =~~= before + array_elems_leaf_syms(rest));
            }
            i = i + 1;
        }
        proof {
            assert(array_elems_leaf_syms(array_pat.elems@.skip(n as int))
                =~= Seq::<Seq<char>>::empty());
            assert(collected_syms(out@) + array_elems_leaf_syms(array_pat.elems@.skip(n as int))
                =~= collected_syms(out@));
            assert(array_pat.elems@.skip(0) =~= array_pat.elems@);
        }
    }

    /// A pattern with a default binds what its left side binds.
    pub fn enter_assignment_pattern(assign: &AssignPat, out: &mut Vec<Ident>)
        ensures
            seq_extends(final(out)@, old(out)@),
            collected_syms(final(out)@) == collected_syms(old(out)@) + pattern_leaf_syms(
                *assign.left,
            ),
        decreases *assign,
    {
        Self::enter_pattern(&assign.left, out);
    }

    /// Collects the leaves of key-value, shorthand and rest properties.
    #[verifier::loop_isolation(false)]
    pub fn enter_object_pattern(obj: &ObjectPat, out: &mut Vec<Ident>)
        ensures
            seq_extends(final(out)@, old(out)@),
            collected_syms(final(out)@) == collected_syms(old(out)@) + object_props_leaf_syms(
                obj.props@,
            ),
        decreases *obj,
    {
        let n = obj.props.len();
        let mut i: usize = 0;
        proof {
            assert(obj.props@.skip(0) =~= obj.props@);
        }
        while i < n
            invariant
                i <= n,
                seq_extends(out@, old(out)@),
                collected_syms(old(out)@) + object_props_leaf_syms(obj.props@)
                    == collected_syms(out@) + object_props_leaf_syms(obj.props@.skip(i as int)),
            decreases n - i,
        {
            let ghost rest = obj.props@.skip(i as int);
            proof {
                assert(rest[0] == obj.props@[i as int]);
                assert(rest.drop_first() =~= obj.props@.skip(i as int + 1));
            }
            let ghost before = collected_syms(out@);
            proof {
                assert(decreases_to!(*obj => obj.props));
                assert(decreases_to!(obj.props => obj.props@));
                assert(decreases_to!(obj.props@ => obj.props@[i as int]));
            }
            match &obj.props[i] {
                ObjectPatProp::KeyValue { value, .. } => {
                    Self::enter_pattern(value, out);
                },
                ObjectPatProp::Assign { key, .. } => {
                    Self::enter_ident(key, out);
                    proof {
                        assert(collected_syms(out@) =~= before + seq![
                            obj.props@[i as int]->Assign_key.sym@,
                        ]);
                    }
                },
                ObjectPatProp::Rest(r) => {
                    Self::enter_pattern(&r.arg, out);
                },
            }
            proof {
                assert(collected_syms(out@) + object_props_leaf_syms(
                    obj.props@.skip(i as int + 1),
                ) =~~= before + object_props_leaf_syms(rest));
            }
            i = i + 1;
        }
        proof {
            assert(object_props_leaf_syms(obj.props@.skip(n as int))
                =~= Seq::<Seq<char>>::empty());
            assert(collected_syms(out@) + object_props_leaf_syms(obj.props@.skip(n as int))
                =~= collected_syms(out@));
            assert(obj.props@.skip(0) =~= obj.props@);
        }
    }

    /// A rest element binds what its argument pattern binds.
    pub fn enter_rest_pattern(rest: &RestPat, out: &mut Vec<Ident>)
        ensures
            seq_extends(final(out)@, old(out)@),
            collected_syms(final(out)@) == collected_syms(old(out)@) + pattern_leaf_syms(
                *rest.arg,
            ),
        decreases *rest,
    {
        Self::enter_pattern(&rest.arg, out);
    }

    /// Recursively resolves a pattern to its identifier leaves, handling
    /// nested defaults, rest elements and object properties uniformly.
    pub fn enter_pattern(pattern: &Pat, out: &mut Vec<Ident>)
        ensures
            seq_extends(final(out)@, old(out)@),
            collected_syms(final(out)@) == collected_syms(old(out)@) + pattern_leaf_syms(
                *pattern,
            ),
        decreases *pattern,
    {
        proof {
            assert(collected_syms(out@) + Seq::<Seq<char>>::empty() =~= collected_syms(out@));
        }
        match pattern {
            Pat::Ident(ident) => {
                Self::enter_ident(ident, out);
                proof {
                    assert(collected_syms(out@) =~= collected_syms(old(out)@) + seq![
                        pattern->Ident_0.sym@,
                    ]);
                }
            },
            Pat::Array(array) => {
                Self::enter_array_pattern(array, out);
            },
            Pat::Assign(assign) => {
                Self::enter_assignment_pattern(assign, out);
            },
            Pat::Object(obj) => {
                Self::enter_object_pattern(obj, out);
            },
            Pat::Rest(rest) => {
                Self::enter_rest_pattern(rest, out);
            },
            Pat::Other { .. } => {
            },
        }
    }

    /// Resolves each pattern of a list to its identifier leaves.
    #[verifier::loop_isolation(false)]
    pub fn enter_patterns(patterns: &Vec<Pat>, out: &mut Vec<Ident>)
        ensures
            seq_extends(final(out)@, old(out)@),
    {
        let n = patterns.len();
        let mut i: usize = 0;
        while i < n
            invariant
                seq_extends(out@, old(out)@),
            decreases n - i,
        {
            Self::enter_pattern(&patterns[i], out);
            i = i + 1;
        }
    }

    /// Defines every identifier leaf of `pattern` in the current scope, in
    /// leaf order.
    #[verifier::loop_isolation(false)]
    pub(crate) fn define_pattern_names(&mut self, pattern: &Pat)
        requires
            old(self).wf(),
        ensures
            final(self).wf(),
            final(self)@ == (JavascriptParserV {
                db: old(self)@.db.spec_define_all(
                    old(self)@.current,
                    pattern_leaf_syms(*pattern),
                ),
                ..old(self)@
            }),
            same_flags(*old(self), *final(self)),
    {
        let ghost syms = pattern_leaf_syms(*pattern);
        let mut leaves: Vec<Ident> = Vec::new();
        Self::enter_pattern(pattern, &mut leaves);
        proof {
            assert(collected_syms(leaves@) =~= syms);
            assert(syms.skip(0) =~= syms);
        }
        let n = leaves.len();
        let mut i: usize = 0;
        while i < n
            invariant
                i <= n,
                self.wf(),
                self.definitions == old(self).definitions,
                self@ == (JavascriptParserV { db: self@.db, ..old(self)@ }),
                same_flags(*old(self), *self),
                old(self)@.db.spec_define_all(old(self)@.current, syms)
                    == self@.db.spec_define_all(old(self)@.current, syms.skip(i as int)),
            decreases n - i,
        {
            let ghost rest = syms.skip(i as int);
            proof {
                assert(collected_syms(leaves@)[i as int] == leaves@[i as int].sym@);
                assert(rest[0] == syms[i as int]);
                assert(rest.drop_first() =~= syms.skip(i as int + 1));
            }
            self.define_variable(leaves[i].sym.clone());
            i = i + 1;
        }
        proof {
            assert(syms.skip(n as int) =~= Seq::<Seq<char>>::empty());
        }
    }

    /// Pre-walks a statement list in order.  Without plugins this declares
    /// exactly the hoisted names of the list, in order.
    #[verifier::loop_isolation(false)]
    pub fn pre_walk_statements(&mut self, drive: &JavaScriptParserPluginDrive, stmts: &Vec<Stmt>)
        requires
            old(self).wf(),
        ensures
            final(self).wf(),
            state_extends(final(self)@, old(self)@),
            drive.plugins@.len() == 0 ==> final(self)@ == (JavascriptParserV {
                db: old(self)@.db.spec_define_all(
                    old(self)@.current,
                    hoisted_list_syms(stmts@),
                ),
                ..old(self)@
            }),
            drive.plugins@.len() == 0 ==> same_flags(*old(self), *final(self)),
    {
        let ghost cur = old(self)@.current;
        let n = stmts.len();
        let mut i: usize = 0;
        proof {
            assert(stmts@.skip(0) =~= stmts@);
        }
        while i < n
            invariant
                i <= n,
                self.wf(),
                state_extends(self@, old(self)@),
                drive.plugins@.len() == 0 ==> {
                    &&& self.definitions == old(self).definitions
                    &&& self@ == (JavascriptParserV { db: self@.db, ..old(self)@ })
                    &&& same_flags(*old(self), *self)
                    &&& old(self)@.db.spec_define_all(cur, hoisted_list_syms(stmts@))
                        == self@.db.spec_define_all(
                        cur,
                        hoisted_list_syms(stmts@.skip(i as int)),
                    )
                },
            decreases n - i,
        {
            let ghost rest = stmts@.skip(i as int);
            proof {
                assert(rest[0] == stmts@[i as int]);
                assert(rest.drop_first() =~= stmts@.skip(i as int + 1));
                if drive.plugins@.len() == 0 {
                    crate::scope_info::lemma_define_all_append(
                        self@.db,
                        cur,
                        hoisted_syms(stmts@[i as int]),
                        hoisted_list_syms(stmts@.skip(i as int + 1)),
                    );
                }
            }
            self.pre_walk_statement(drive, &stmts[i]);
            i = i + 1;
        }
        proof {
            assert(hoisted_list_syms(stmts@.skip(n as int)) =~= Seq::<Seq<char>>::empty());
        }
    }

    /// Pre-walks one statement: hoists `var` declarator names and descends
    /// into blocks, branches and loop bodies, unless `pre_statement` aborts
    /// it.  Without plugins this declares exactly the statement's hoisted
    /// names, in order.
    #[verifier::loop_isolation(false)]
    #[verifier::rlimit(60)]
    pub fn pre_walk_statement(&mut self, drive: &JavaScriptParserPluginDrive, stmt: &Stmt)
        requires
            old(self).wf(),
        ensures
            final(self).wf(),
            state_extends(final(self)@, old(self)@),
            drive.plugins@.len() == 0 ==> final(self)@ == (JavascriptParserV {
                db: old(self)@.db.spec_define_all(old(self)@.current, hoisted_syms(*stmt)),
                ..old(self)@
            }),
            drive.plugins@.len() == 0 ==> same_flags(*old(self), *final(self)),
        decreases *stmt,
    {
        let ghost cur = old(self)@.current;
        let aborted = drive.pre_statement(self, stmt);
        if let Some(true) = aborted {
            return;
        }
        match stmt {
            Stmt::Decl(decl) => {
                if matches!(decl.kind, VarDeclKind::Var) {
                    let n = decl.decls.len();
                    let mut i: usize = 0;
                    proof {
                        assert(decl.decls@.skip(0) =~= decl.decls@);
                    }
                    while i < n
                        invariant
                            i <= n,
                            self.wf(),
                            state_extends(self@, old(self)@),
                            drive.plugins@.len() == 0 ==> {
                                &&& self.definitions == old(self).definitions
                                &&& self@ == (JavascriptParserV { db: self@.db, ..old(self)@ })
                                &&& same_flags(*old(self), *self)
                                &&& old(self)@.db.spec_define_all(
                                    cur,
                                    declarators_syms(decl.decls@),
                                ) == self@.db.spec_define_all(
                                    cur,
                                    declarators_syms(decl.decls@.skip(i as int)),
                                )
                            },
                        decreases n - i,
                    {
                        let ghost rest = decl.decls@.skip(i as int);
                        proof {
                            assert(rest[0] == decl.decls@[i as int]);
                            assert(rest.drop_first() =~= decl.decls@.skip(i as int + 1));
                            if drive.plugins@.len() == 0 {
                                crate::scope_info::lemma_define_all_append(
                                    self@.db,
                                    cur,
                                    pattern_leaf_syms(decl.decls@[i as int].name),
                                    declarators_syms(decl.decls@.skip(i as int + 1)),
                                );
                            }
                        }
                        self.define_pattern_names(&decl.decls[i].name);
                        i = i + 1;
                    }
                    proof {
                        assert(declarators_syms(decl.decls@.skip(n as int))
                            =~= Seq::<Seq<char>>::empty());
                    }
                }
            },
            Stmt::Block(block) => {
                let n = block.stmts.len();
                let mut i: usize = 0;
                proof {
                    assert(block.stmts@.skip(0) =~= block.stmts@);
                }
                while i < n
                    invariant
                        i <= n,
                        self.wf(),
                        state_extends(self@, old(self)@),
                        drive.plugins@.len() == 0 ==> {
                            &&& self.definitions == old(self).definitions
                            &&& self@ == (JavascriptParserV { db: self@.db, ..old(self)@ })
                            &&& same_flags(*old(self), *self)
                            &&& old(self)@.db.spec_define_all(
                                cur,
                                hoisted_list_syms(block.stmts@),
                            ) == self@.db.spec_define_all(
                                cur,
                                hoisted_list_syms(block.stmts@.skip(i as int)),
                            )
                        },
                    decreases n - i,
                {
                    proof {
                        assert(decreases_to!(*stmt => stmt->Block_0.stmts));
                        assert(decreases_to!(stmt->Block_0.stmts => stmt->Block_0.stmts@));
                        assert(decreases_to!(stmt->Block_0.stmts@ => stmt->Block_0.stmts@[i as int]));
                    }
                    let ghost rest = block.stmts@.skip(i as int);
                    proof {
                        assert(rest[0] == block.stmts@[i as int]);
                        assert(rest.drop_first() =~= block.stmts@.skip(i as int + 1));
                        if drive.plugins@.len() == 0 {
                            crate::scope_info::lemma_define_all_append(
                                self@.db,
                                cur,
                                hoisted_syms(block.stmts@[i as int]),
                                hoisted_list_syms(block.stmts@.skip(i as int + 1)),
                            );
                        }
                    }
                    self.pre_walk_statement(drive, &block.stmts[i]);
                    i = i + 1;
                }
                proof {
                    assert(hoisted_list_syms(block.stmts@.skip(n as int))
                        =~= Seq::<Seq<char>>::empty());
                }
            },
            Stmt::If(ifstmt) => {
                proof {
                    assert(decreases_to!(*stmt => *stmt->If_0.cons));
                    if drive.plugins@.len() == 0 {
                        crate::scope_info::lemma_define_all_append(
                            self@.db,
                            cur,
                            hoisted_syms(*ifstmt.cons),
                            match &ifstmt.alt {
                                Some(a) => hoisted_syms(**a),
                                None => Seq::empty(),
                            },
                        );
                    }
                }
                self.pre_walk_statement(drive, &ifstmt.cons);
                match &ifstmt.alt {
                    Some(alt) => {
                        proof {
                            assert(decreases_to!(*stmt => stmt->If_0.alt));
                        }
                        self.pre_walk_statement(drive, alt);
                    },
                    None => {},
                }
            },
            Stmt::ForOf(forof) => {
                proof {
                    assert(decreases_to!(*stmt => *stmt->ForOf_0.body));
                }
                self.pre_walk_statement(drive, &forof.body);
            },
            _ => {},
        }
    }
}

} // verus!
