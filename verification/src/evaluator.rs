//! The constant-expression evaluator.
//!
//! `evaluate_expression` computes an evaluated value for an expression; when
//! the result is a provable compile-time constant it records the
//! expression's span in the ignored-span set.  The plugin-independent
//! folding fragment (literals, string concatenation, constant-tested
//! conditionals, one-chunk templates) is pinned exactly by `spec_fold`;
//! everything else degrades to an identifier reference or an unknown value
//! rather than failing.

use vstd::prelude::*;
use vstd::string::StringExecFns;

use crate::ast::{BinaryOp, Expr, Lit, UnaryOp};
use crate::eval::{value_is_const, BasicEvaluatedExpression, EvaluatedValue, ExportedVariableInfo};
use crate::parser::{
    loc_of, state_extends, AllowedMemberTypes, JavascriptParser, MemberExpressionInfo,
};
use crate::parser_plugin::JavaScriptParserPluginDrive;
use crate::scope_info::{FreeName, FreeNameV};

verus! {

/// A folded compile-time scalar.
pub enum FoldedLit {
    FStr(Seq<char>),
    FNum(i64),
    FBool(bool),
    FRegex(Seq<char>, Seq<char>),
}

/// The plugin-independent constant-folding fragment: what the evaluator is
/// guaranteed to fold, whatever plugins are registered.
pub open spec fn spec_fold(e: Expr) -> Option<FoldedLit>
    decreases e,
{
    match e {
        Expr::Lit { lit, .. } => match lit {
            Lit::Str(s) => Some(FoldedLit::FStr(s@)),
            Lit::Num(n) => Some(FoldedLit::FNum(n)),
            Lit::Bool(b) => Some(FoldedLit::FBool(b)),
            Lit::Regex { exp, flags } => Some(FoldedLit::FRegex(exp@, flags@)),
            _ => None,
        },
        Expr::Bin(b) => {
            if b.op is Add {
                match spec_fold(*b.left) {
                    Some(FoldedLit::FStr(l)) => match spec_fold(*b.right) {
                        Some(FoldedLit::FStr(r)) => Some(FoldedLit::FStr(l + r)),
                        _ => None,
                    },
                    _ => None,
                }
            } else {
                None
            }
        },
        Expr::Cond(c) => match spec_fold(*c.test) {
            Some(FoldedLit::FBool(b)) => if b {
                spec_fold(*c.cons)
            } else {
                spec_fold(*c.alt)
            },
            _ => None,
        },
        Expr::Tpl(t) => {
            if t.exprs@.len() == 0 && t.quasis@.len() == 1 {
                Some(FoldedLit::FStr(t.quasis@[0].cooked@))
            } else {
                None
            }
        },
        _ => None,
    }
}

/// Whether an evaluated value is exactly a folded scalar.
pub open spec fn folded_matches(v: EvaluatedValue, f: FoldedLit) -> bool {
    match f {
        FoldedLit::FStr(s) => v matches EvaluatedValue::Str(x) && x@ == s,
        FoldedLit::FNum(n) => v matches EvaluatedValue::Num(m) && m == n,
        FoldedLit::FBool(b) => v matches EvaluatedValue::Bool(c) && c == b,
        FoldedLit::FRegex(e, fl) => v matches EvaluatedValue::Regexp { exp, flags } && exp@ == e
            && flags@ == fl,
    }
}

/// Whether an expression is a `typeof` applied to a bare identifier — the
/// one evaluation shape that consults plugins.
pub open spec fn is_typeof_ident(e: Expr) -> bool {
    e matches Expr::Unary(u) && u.op is TypeOf && *u.arg matches Expr::Ident(_)
}

/// The expression shapes outside the evaluated fragment: whatever the state
/// and whatever plugins are registered, these always evaluate to unknown —
/// `this`, meta-properties, calls, `new`, assignments, `await`, foreign
/// shapes, `null`/big-integer literals, and any unary expression other than
/// `typeof` on a bare identifier.
pub open spec fn outside_fragment(e: Expr) -> bool {
    match e {
        Expr::This(_) => true,
        Expr::MetaProp(_) => true,
        Expr::Call(_) => true,
        Expr::New(_) => true,
        Expr::Assign(_) => true,
        Expr::Await(_) => true,
        Expr::Other { .. } => true,
        Expr::Lit { lit, .. } => lit is Null || lit is BigInt,
        Expr::Unary(u) => !(u.op is TypeOf && *u.arg matches Expr::Ident(_)),
        _ => false,
    }
}


/// What evaluating a bare identifier must yield: an unbound identifier is an
/// identifier reference keyed to its own name; a binding with a literal free
/// name is an identifier reference keyed to the binding; any other binding
/// state yields nothing.
pub open spec fn ident_eval_matches(
    db: crate::scope_info::ScopeInfoDBV,
    sid: int,
    sym: Seq<char>,
    r: Option<BasicEvaluatedExpression>,
) -> bool {
    match db.resolve(sid, sym) {
        None => r matches Some(e) && e.value matches EvaluatedValue::Identifier { name, info }
            && name@ == sym && (info matches ExportedVariableInfo::Name(n) && n@ == sym),
        Some(v) => {
            if db.variables[v].free_name matches Some(FreeNameV::Named(_)) {
                r matches Some(e) && e.value matches EvaluatedValue::Identifier { name, info }
                    && name@ == sym && (info matches ExportedVariableInfo::VariableInfo(id) && id
                    as int == v)
            } else {
                r is None
            }
        },
    }
}

/// What evaluating a member chain must yield: an identifier reference under
/// the fully dotted name when the chain classifies as an expression root,
/// and nothing otherwise.
pub open spec fn member_eval_matches(
    db: crate::scope_info::ScopeInfoDBV,
    sid: int,
    e: Expr,
    r: Option<BasicEvaluatedExpression>,
) -> bool {
    match crate::parser::member_info_spec(
        db,
        sid,
        e,
        AllowedMemberTypes { call_expression: false, expression: true },
    ) {
        Some(mi) => r matches Some(ev) && ev.value matches EvaluatedValue::Identifier {
            name,
            info,
        } && name@ == mi.name && crate::parser::exported_matches(info, mi),
        None => r is None,
    }
}

impl JavascriptParser {
    /// Evaluates `expr`; a provable compile-time constant has its span
    /// recorded in the ignored-span set, and anything unevaluable comes back
    /// as an unknown value carrying the expression's span.  A `typeof` on an
    /// identifier that no plugin substitutes a constant for leaves the
    /// ignored-span set untouched.
    pub fn evaluate_expression(
        &mut self,
        drive: &JavaScriptParserPluginDrive,
        expr: &Expr,
    ) -> (r: BasicEvaluatedExpression)
        requires
            old(self).wf(),
        ensures
            final(self).wf(),
            state_extends(final(self)@, old(self)@),
            r.span == expr.spec_span(),
            value_is_const(r.value) ==> final(self)@.ignored.contains(loc_of(expr.spec_span())),
            spec_fold(*expr) matches Some(f) ==> value_is_const(r.value) && folded_matches(
                r.value,
                f,
            ),
            is_typeof_ident(*expr) && !value_is_const(r.value) ==> final(self)@.ignored == old(
                self,
            )@.ignored,
            outside_fragment(*expr) ==> r.value is Unknown && *final(self) == *old(self),
            is_typeof_ident(*expr) && drive.plugins@.len() == 0 ==> r.value is Unknown
                && final(self)@.ignored == old(self)@.ignored,
            expr matches Expr::Ident(i) ==> ident_eval_matches(
                old(self)@.db,
                old(self)@.current,
                i.sym@,
                if r.value is Unknown {
                    None
                } else {
                    Some(r)
                },
            ),
            expr matches Expr::Member(_) ==> member_eval_matches(
                old(self)@.db,
                old(self)@.current,
                *expr,
                if r.value is Unknown {
                    None
                } else {
                    Some(r)
                },
            ),
        decreases *expr, 1int,
    {
        let span = expr.span();
        match self.evaluating(drive, expr) {
            Some(evaluated) => {
                if evaluated.is_compile_time_value() {
                    self.add_ignored_span(crate::parser::DependencyLocation {
                        start: span.lo,
                        end: span.hi,
                    });
                }
                evaluated
            },
            None => BasicEvaluatedExpression::with_range(span.lo, span.hi),
        }
    }

    /// The internal dispatch over the recognized expression shapes; `None`
    /// means the shape is outside the evaluated fragment.
    #[verifier::loop_isolation(false)]
    fn evaluating(&mut self, drive: &JavaScriptParserPluginDrive, expr: &Expr) -> (r: Option<
        BasicEvaluatedExpression,
    >)
        requires
            old(self).wf(),
        ensures
            final(self).wf(),
            state_extends(final(self)@, old(self)@),
            r matches Some(e) ==> e.span == expr.spec_span(),
            spec_fold(*expr) matches Some(f) ==> r matches Some(e) && value_is_const(e.value)
                && folded_matches(e.value, f),
            is_typeof_ident(*expr) ==> final(self)@.ignored == old(self)@.ignored,
            outside_fragment(*expr) ==> r is None && *final(self) == *old(self),
            is_typeof_ident(*expr) && drive.plugins@.len() == 0 ==> r is None,
            expr matches Expr::Ident(i) ==> ident_eval_matches(
                old(self)@.db,
                old(self)@.current,
                i.sym@,
                r,
            ),
            expr matches Expr::Member(_) ==> member_eval_matches(
                old(self)@.db,
                old(self)@.current,
                *expr,
                r,
            ),
        decreases *expr, 0int,
    {
        let span = expr.span();
        match expr {
            Expr::Lit { lit, .. } => match lit {
                Lit::Str(s) => Some(BasicEvaluatedExpression {
                    value: EvaluatedValue::Str(s.clone()),
                    span,
                }),
                Lit::Num(n) => Some(BasicEvaluatedExpression {
                    value: EvaluatedValue::Num(*n),
                    span,
                }),
                Lit::Bool(b) => Some(BasicEvaluatedExpression {
                    value: EvaluatedValue::Bool(*b),
                    span,
                }),
                Lit::Regex { exp, flags } => Some(BasicEvaluatedExpression {
                    value: EvaluatedValue::Regexp { exp: exp.clone(), flags: flags.clone() },
                    span,
                }),
                _ => None,
            },
            Expr::Bin(b) => {
                proof {
                    assert(decreases_to!(*expr => *expr->Bin_0.left));
                    assert(decreases_to!(*expr => *expr->Bin_0.right));
                }
                if matches!(b.op, BinaryOp::Add) {
                    let l = self.evaluate_expression(drive, &b.left);
                    let r = self.evaluate_expression(drive, &b.right);
                    match (&l.value, &r.value) {
                        (EvaluatedValue::Str(ls), EvaluatedValue::Str(rs)) => {
                            let mut s = ls.clone();
                            s.append(rs.as_str());
                            Some(BasicEvaluatedExpression { value: EvaluatedValue::Str(s), span })
                        },
                        _ => None,
                    }
                } else {
                    let _ = self.evaluate_expression(drive, &b.left);
                    let _ = self.evaluate_expression(drive, &b.right);
                    None
                }
            },
            Expr::Cond(c) => {
                proof {
                    assert(decreases_to!(*expr => *expr->Cond_0.test));
                    assert(decreases_to!(*expr => *expr->Cond_0.cons));
                    assert(decreases_to!(*expr => *expr->Cond_0.alt));
                }
                let t = self.evaluate_expression(drive, &c.test);
                match &t.value {
                    EvaluatedValue::Bool(b) => {
                        let taken = if *b {
                            self.evaluate_expression(drive, &c.cons)
                        } else {
                            self.evaluate_expression(drive, &c.alt)
                        };
                        Some(BasicEvaluatedExpression { value: taken.value, span })
                    },
                    _ => {
                        let e1 = self.evaluate_expression(drive, &c.cons);
                        let e2 = self.evaluate_expression(drive, &c.alt);
                        let mut options: Vec<BasicEvaluatedExpression> = Vec::new();
                        options.push(e1);
                        options.push(e2);
                        Some(BasicEvaluatedExpression {
                            value: EvaluatedValue::Conditional(options),
                            span,
                        })
                    },
                }
            },
            Expr::Tpl(t) => {
                if t.exprs.len() == 0 && t.quasis.len() == 1 {
                    Some(BasicEvaluatedExpression {
                        value: EvaluatedValue::Str(t.quasis[0].cooked.clone()),
                        span,
                    })
                } else {
                    let mut parts: Vec<BasicEvaluatedExpression> = Vec::new();
                    let n = t.exprs.len();
                    let mut i: usize = 0;
                    while i < n
                        invariant
                            self.wf(),
                            state_extends(self@, old(self)@),
                        decreases n - i,
                    {
                        proof {
                            assert(decreases_to!(*expr => expr->Tpl_0.exprs));
                            assert(decreases_to!(expr->Tpl_0.exprs => expr->Tpl_0.exprs@));
                            assert(decreases_to!(expr->Tpl_0.exprs@ => expr->Tpl_0.exprs@[i as int]));
                        }
                        let e = self.evaluate_expression(drive, &t.exprs[i]);
                        parts.push(e);
                        i = i + 1;
                    }
                    Some(BasicEvaluatedExpression {
                        value: EvaluatedValue::Template(parts),
                        span,
                    })
                }
            },
            Expr::Array(a) => {
                let mut items: Vec<BasicEvaluatedExpression> = Vec::new();
                let n = a.elems.len();
                let mut i: usize = 0;
                while i < n
                    invariant
                        self.wf(),
                        state_extends(self@, old(self)@),
                    decreases n - i,
                {
                    proof {
                        assert(decreases_to!(*expr => expr->Array_0.elems));
                        assert(decreases_to!(expr->Array_0.elems => expr->Array_0.elems@));
                        assert(decreases_to!(expr->Array_0.elems@ => expr->Array_0.elems@[i as int]));
                    }
                    let e = self.evaluate_expression(drive, &a.elems[i]);
                    items.push(e);
                    i = i + 1;
                }
                Some(BasicEvaluatedExpression { value: EvaluatedValue::Array(items), span })
            },
            Expr::Unary(u) => {
                if matches!(u.op, UnaryOp::TypeOf) {
                    match &*u.arg {
                        Expr::Ident(id) => drive.evaluate_typeof(self, id, span.lo, span.hi),
                        _ => None,
                    }
                } else {
                    None
                }
            },
            Expr::Member(_) => {
                let info = self.get_member_expression_info(
                    expr,
                    AllowedMemberTypes { call_expression: false, expression: true },
                );
                match info {
                    Some(MemberExpressionInfo::Expression(info)) => {
                        let mut ev = BasicEvaluatedExpression::with_range(span.lo, span.hi);
                        ev.set_identifier(info.name, info.root_info);
                        Some(ev)
                    },
                    _ => None,
                }
            },
            Expr::Ident(ident) => {
                match self.definitions_db.get(self.definitions, &ident.sym) {
                    None => {
                        let mut ev = BasicEvaluatedExpression::with_range(span.lo, span.hi);
                        ev.set_identifier(
                            ident.sym.clone(),
                            ExportedVariableInfo::Name(ident.sym.clone()),
                        );
                        Some(ev)
                    },
                    Some(id) => {
                        proof {
                            crate::scope_info::lemma_resolve_in_range(
                                self@.db,
                                self@.current,
                                ident.sym@,
                            );
                        }
                        let info = self.definitions_db.expect_get_variable(id);
                        if matches!(info.free_name, Some(FreeName::Named(_))) {
                            let mut ev = BasicEvaluatedExpression::with_range(span.lo, span.hi);
                            ev.set_identifier(
                                ident.sym.clone(),
                                ExportedVariableInfo::VariableInfo(id),
                            );
                            Some(ev)
                        } else {
                            None
                        }
                    },
                }
            },
            _ => None,
        }
    }
}

} // verus!
