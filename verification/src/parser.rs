//! The walker state: the scope store, the caller-owned output buffers, and
//! the binding-management operations exposed to every traversal phase.

use vstd::prelude::*;
use vstd::pervasive::unreached;
use vstd::string::StringExecFns;

use crate::ast::{Callee, CallExpr, Expr, Ident, Lit, MemberProp, MetaPropExpr, MetaPropKind, Span, Stmt, ThisExpr};
use crate::digits::dec_str_int;
use crate::eval::ExportedVariableInfo;
use crate::scope_info::{
    FreeName, FreeNameV, ScopeInfoDB, ScopeInfoDBV, ScopeInfoId, ScopeV, TagInfo, VariableInfo,
    VariableInfoId,
};

verus! {

/// Conversion between a plugin's own tag payload type and the opaque
/// interchange form stored in a tag chain.
pub trait TagInfoData {
    fn serialize(data: &Self) -> serde_json::Value;

    fn deserialize(value: serde_json::Value) -> Self where Self: Sized;
}

/// A source range `[start, end)` whose evaluated value is already known at
/// compile time, so downstream passes must not re-evaluate it.
#[derive(Clone, Copy, PartialEq, Eq, Structural, Debug)]
pub struct DependencyLocation {
    pub start: u32,
    pub end: u32,
}

/// A discovered module dependency, pushed by plugins during the walk.
pub struct Dependency {
    pub request: String,
    pub span: Span,
}

/// An accumulated error or warning; the walk itself never aborts on one.
pub struct Diagnostic {
    pub message: String,
    pub span: Span,
}

/// Module-level facts discovered during the walk.
#[derive(Clone, Copy, PartialEq, Eq, Structural, Debug)]
pub struct BuildMeta {
    pub esm: bool,
    pub has_top_level_await: bool,
}

/// Where the walk currently stands relative to the module's top level.
#[derive(Clone, Copy, PartialEq, Eq, Structural, Debug)]
pub enum TopLevelScope {
    Top,
    ArrowFunction,
    False,
}

pub open spec fn loc_of(s: Span) -> DependencyLocation {
    DependencyLocation { start: s.lo, end: s.hi }
}

/// The abstract walker state contracts speak about.
pub struct JavascriptParserV {
    pub db: ScopeInfoDBV,
    pub current: int,
    pub ignored: Set<DependencyLocation>,
    pub dependencies: Seq<Dependency>,
    pub presentational_dependencies: Seq<Dependency>,
    pub errors: Seq<Diagnostic>,
    pub warnings: Seq<Diagnostic>,
}

pub struct JavascriptParser {
    pub errors: Vec<Diagnostic>,
    pub warning_diagnostics: Vec<Diagnostic>,
    pub dependencies: Vec<Dependency>,
    pub presentational_dependencies: Vec<Dependency>,
    pub ignored: Vec<DependencyLocation>,
    pub build_meta: BuildMeta,
    pub definitions_db: ScopeInfoDB,
    pub is_esm: bool,
    pub parser_exports_state: Option<bool>,
    pub enter_assign: bool,
    pub has_module_ident: bool,
    pub enter_call: u32,
    pub stmt_level: u32,
    pub last_stmt_is_expr_stmt: bool,
    pub in_if: bool,
    pub in_try: bool,
    pub in_short_hand: bool,
    pub definitions: ScopeInfoId,
    pub top_level_scope: TopLevelScope,
}

impl View for JavascriptParser {
    type V = JavascriptParserV;

    open spec fn view(&self) -> JavascriptParserV {
        JavascriptParserV {
            db: self.definitions_db@,
            current: self.definitions as int,
            ignored: self.ignored@.to_set(),
            dependencies: self.dependencies@,
            presentational_dependencies: self.presentational_dependencies@,
            errors: self.errors@,
            warnings: self.warning_diagnostics@,
        }
    }
}

/// The control fields no binding operation touches.
pub open spec fn same_flags(a: JavascriptParser, b: JavascriptParser) -> bool {
    &&& a.build_meta == b.build_meta
    &&& a.is_esm == b.is_esm
    &&& a.parser_exports_state == b.parser_exports_state
    &&& a.enter_assign == b.enter_assign
    &&& a.has_module_ident == b.has_module_ident
    &&& a.enter_call == b.enter_call
    &&& a.stmt_level == b.stmt_level
    &&& a.last_stmt_is_expr_stmt == b.last_stmt_is_expr_stmt
    &&& a.in_if == b.in_if
    &&& a.in_try == b.in_try
    &&& a.in_short_hand == b.in_short_hand
    &&& a.top_level_scope == b.top_level_scope
}

/// A sequence grew only by appending: the old entries are still there.
pub open spec fn seq_extends<T>(post: Seq<T>, pre: Seq<T>) -> bool {
    &&& pre.len() <= post.len()
    &&& forall|i: int| 0 <= i < pre.len() ==> post[i] == pre[i]
}

/// What every hook and walk step preserves: the caller-owned buffers only
/// grow — recorded spans, dependencies and diagnostics are never dropped or
/// rewritten, only appended to.
pub open spec fn state_extends(post: JavascriptParserV, pre: JavascriptParserV) -> bool {
    &&& pre.ignored.subset_of(post.ignored)
    &&& pre.dependencies.len() <= post.dependencies.len()
    &&& forall|i: int| 0 <= i < pre.dependencies.len() ==> post.dependencies[i]
        == pre.dependencies[i]
    &&& pre.presentational_dependencies.len() <= post.presentational_dependencies.len()
    &&& forall|i: int| 0 <= i < pre.presentational_dependencies.len()
        ==> post.presentational_dependencies[i] == pre.presentational_dependencies[i]
    &&& pre.errors.len() <= post.errors.len()
    &&& forall|i: int| 0 <= i < pre.errors.len() ==> post.errors[i] == pre.errors[i]
    &&& pre.warnings.len() <= post.warnings.len()
    &&& forall|i: int| 0 <= i < pre.warnings.len() ==> post.warnings[i] == pre.warnings[i]
}

/// The result of resolving a free name: the external name it stands for,
/// and the binding it came through, if any.
pub struct FreeInfo {
    pub name: String,
    pub info: Option<VariableInfoId>,
}

/// The free-name resolution `get_free_info_from_variable` is specified by:
/// an unbound name is free under itself; a binding whose free name is a
/// literal resolves to that literal together with the binding; anything
/// else does not resolve.
pub open spec fn free_info_of(db: ScopeInfoDBV, sid: int, name: Seq<char>) -> Option<
    (Seq<char>, Option<int>),
> {
    match db.resolve(sid, name) {
        None => Some((name, None)),
        Some(v) => match db.variables[v].free_name {
            Some(FreeNameV::Named(n)) => Some((n, Some(v))),
            _ => None,
        },
    }
}

/// The hook-dispatch key for a name: an unbound name keys under itself; a
/// bound name keys under its literal free name, or does not dispatch.
pub open spec fn call_hooks_name_of(db: ScopeInfoDBV, sid: int, name: Seq<char>) -> Option<
    Seq<char>,
> {
    match db.resolve(sid, name) {
        None => Some(name),
        Some(v) => match db.variables[v].free_name {
            Some(FreeNameV::Named(n)) => Some(n),
            _ => None,
        },
    }
}

/// Whether a statement list begins with the exact string-literal expression
/// `"use strict"`.
pub open spec fn has_use_strict_pragma(stmts: Seq<Stmt>) -> bool {
    &&& stmts.len() > 0
    &&& stmts[0] matches Stmt::Expr(es)
    &&& es.expr matches Expr::Lit { lit: Lit::Str(s), .. }
    &&& s@ == "use strict"@
}

impl JavascriptParser {
    pub open spec fn wf(&self) -> bool {
        &&& self.definitions_db.inv()
        &&& (self.definitions as int) < self.definitions_db@.scopes.len()
    }

    /// A fresh walker state with one root scope and empty output buffers.
    pub fn new(is_esm: bool) -> (p: JavascriptParser)
        ensures
            p.wf(),
            p@.db.scopes.len() == 1,
            p@.db.scopes[0] == (ScopeV { parent: None, is_strict: false, bindings: Map::empty() }),
            p@.db.variables.len() == 0,
            p@.current == 0,
            p@.ignored == Set::<DependencyLocation>::empty(),
            p@.dependencies == Seq::<Dependency>::empty(),
            p@.presentational_dependencies == Seq::<Dependency>::empty(),
            p@.errors == Seq::<Diagnostic>::empty(),
            p@.warnings == Seq::<Diagnostic>::empty(),
            p.is_esm == is_esm,
            p.build_meta == (BuildMeta { esm: is_esm, has_top_level_await: false }),
            p.parser_exports_state is None,
            !p.enter_assign,
            !p.has_module_ident,
            p.enter_call == 0,
            p.stmt_level == 0,
            !p.last_stmt_is_expr_stmt,
            !p.in_if,
            !p.in_try,
            !p.in_short_hand,
            p.top_level_scope is Top,
    {
        let mut db = ScopeInfoDB::new();
        let root = db.create();
        let p = JavascriptParser {
            errors: Vec::new(),
            warning_diagnostics: Vec::new(),
            dependencies: Vec::new(),
            presentational_dependencies: Vec::new(),
            ignored: Vec::new(),
            build_meta: BuildMeta { esm: is_esm, has_top_level_await: false },
            definitions_db: db,
            is_esm,
            parser_exports_state: None,
            enter_assign: false,
            has_module_ident: false,
            enter_call: 0,
            stmt_level: 0,
            last_stmt_is_expr_stmt: false,
            in_if: false,
            in_try: false,
            in_short_hand: false,
            definitions: root,
            top_level_scope: TopLevelScope::Top,
        };
        proof {
            assert(p@.ignored =~= Set::<DependencyLocation>::empty());
        }
        p
    }

    /// Records a span as proven compile-time constant.
    pub fn add_ignored_span(&mut self, loc: DependencyLocation)
        ensures
            *final(self) == (JavascriptParser { ignored: final(self).ignored, ..*old(self) }),
            final(self)@.ignored == old(self)@.ignored.insert(loc),
    {
        let n = self.ignored.len();
        let mut i: usize = 0;
        while i < n
            invariant
                i <= n,
                n == self.ignored@.len(),
                *self == (JavascriptParser { ignored: self.ignored, ..*old(self) }),
                self.ignored@ == old(self).ignored@,
            decreases n - i,
        {
            if self.ignored[i] == loc {
                proof {
                    assert(self.ignored@.contains(loc));
                    assert(self.ignored@.to_set() =~= old(self)@.ignored.insert(loc));
                }
                return;
            }
            i = i + 1;
        }
        self.ignored.push(loc);
        proof {
            assert(forall|d: DependencyLocation|
                self.ignored@.contains(d) <==> (old(self).ignored@.contains(d) || d == loc)) by {
                assert(forall|j: int|
                    0 <= j < old(self).ignored@.len() ==> self.ignored@[j] == old(
                        self,
                    ).ignored@[j]);
                assert(self.ignored@[old(self).ignored@.len() as int] == loc);
            }
            assert(self.ignored@.to_set() =~= old(self)@.ignored.insert(loc));
        }
    }

    /// The variable record `name` resolves to from the current scope, if any.
    pub fn get_variable_info(&self, name: &String) -> (r: Option<&VariableInfo>)
        requires
            self.wf(),
        ensures
            match r {
                Some(v) => self@.db.resolved_variable(self@.current, name@) == Some(v@),
                None => self@.db.resolved_variable(self@.current, name@) is None,
            },
    {
        match self.definitions_db.get(self.definitions, name) {
            Some(id) => {
                proof {
                    crate::scope_info::lemma_resolve_in_range(
                        self@.db,
                        self@.current,
                        name@,
                    );
                }
                Some(self.definitions_db.expect_get_variable(id))
            },
            None => None,
        }
    }

    /// Resolves the free-name information for `name`: `Some` with no binding
    /// when the name is unbound, `Some` with the binding when its free name
    /// is a literal, `None` otherwise.
    pub fn get_free_info_from_variable(&self, name: &String) -> (r: Option<FreeInfo>)
        requires
            self.wf(),
        ensures
            match r {
                Some(fi) => {
                    &&& free_info_of(self@.db, self@.current, name@) matches Some(p)
                    &&& p.0 == fi.name@
                    &&& match fi.info {
                        Some(id) => p.1 == Some(id as int),
                        None => p.1 is None,
                    }
                },
                None => free_info_of(self@.db, self@.current, name@) is None,
            },
    {
        match self.definitions_db.get(self.definitions, name) {
            None => Some(FreeInfo { name: name.clone(), info: None }),
            Some(id) => {
                proof {
                    crate::scope_info::lemma_resolve_in_range(
                        self@.db,
                        self@.current,
                        name@,
                    );
                }
                let info = self.definitions_db.expect_get_variable(id);
                match &info.free_name {
                    Some(FreeName::Named(n)) => Some(
                        FreeInfo { name: n.clone(), info: Some(id) },
                    ),
                    _ => None,
                }
            },
        }
    }

    /// Introduces `name` in the current scope, unless a binding declared in
    /// this very scope already carries tag info (idempotent re-declaration).
    pub fn define_variable(&mut self, name: String)
        requires
            old(self).wf(),
        ensures
            final(self).wf(),
            final(self)@ == (JavascriptParserV {
                db: old(self)@.db.spec_define(old(self)@.current, name@),
                ..old(self)@
            }),
            same_flags(*old(self), *final(self)),
    {
        proof {
            crate::scope_info::lemma_define_preserves_wf(
                old(self)@.db,
                old(self)@.current,
                name@,
            );
        }
        let definitions = self.definitions;
        if let Some(id) = self.definitions_db.get(definitions, &name) {
            proof {
                crate::scope_info::lemma_resolve_in_range(self@.db, self@.current, name@);
            }
            let info = self.definitions_db.expect_get_variable(id);
            proof {
                crate::scope_info::lemma_tags_view_nonempty(info.tag_info);
            }
            let tagged = info.tag_info.is_some();
            let scope = info.declared_scope;
            if tagged && scope == definitions {
                return;
            }
        }
        let info = VariableInfo { declared_scope: definitions, free_name: None, tag_info: None };
        self.definitions_db.set(definitions, name, info);
        proof {
            assert(final(self)@.db =~~= old(self)@.db.spec_define(old(self)@.current, name@));
        }
    }

    /// The variable record `name` resolves to, for in-place mutation by a
    /// plugin (e.g. renaming its free name); the store keeps its shape, and
    /// the record's new content is whatever the caller wrote.
    pub fn get_mut_variable_info(&mut self, name: &String) -> (r: Option<&mut VariableInfo>)
        requires
            old(self).wf(),
        ensures
            match r {
                Some(v) => {
                    &&& old(self)@.db.resolve(old(self)@.current, name@) matches Some(id)
                    &&& *v == old(self).definitions_db.variables@[id]
                    &&& final(self).definitions_db.scopes == old(self).definitions_db.scopes
                    &&& final(self).definitions_db.variables@ == old(
                        self,
                    ).definitions_db.variables@.update(id, *final(v))
                    &&& same_flags(*old(self), *final(self))
                    &&& final(self).ignored == old(self).ignored
                    &&& final(self).dependencies == old(self).dependencies
                    &&& final(self).definitions == old(self).definitions
                },
                None => {
                    &&& old(self)@.db.resolve(old(self)@.current, name@) is None
                    &&& *final(self) == *old(self)
                },
            },
    {
        match self.definitions_db.get(self.definitions, name) {
            Some(id) => {
                proof {
                    crate::scope_info::lemma_resolve_in_range(self@.db, self@.current, name@);
                }
                Some(&mut self.definitions_db.variables[id])
            },
            None => None,
        }
    }

    /// Removes the binding of `name` from the current scope.
    pub fn undefined_variable(&mut self, name: &String)
        requires
            old(self).wf(),
        ensures
            final(self).wf(),
            final(self)@ == (JavascriptParserV {
                db: ScopeInfoDBV {
                    scopes: old(self)@.db.scopes.update(
                        old(self)@.current,
                        ScopeV {
                            parent: old(self)@.db.scopes[old(self)@.current].parent,
                            is_strict: old(self)@.db.scopes[old(self)@.current].is_strict,
                            bindings: old(self)@.db.scopes[old(self)@.current].bindings.remove(
                                name@,
                            ),
                        },
                    ),
                    variables: old(self)@.db.variables,
                },
                ..old(self)@
            }),
            same_flags(*old(self), *final(self)),
    {
        self.definitions_db.delete(self.definitions, name);
    }

    /// Sets the strict-mode flag of the current scope.
    pub fn set_strict(&mut self, value: bool)
        requires
            old(self).wf(),
        ensures
            final(self).wf(),
            final(self)@ == (JavascriptParserV {
                db: ScopeInfoDBV {
                    scopes: old(self)@.db.scopes.update(
                        old(self)@.current,
                        ScopeV {
                            parent: old(self)@.db.scopes[old(self)@.current].parent,
                            is_strict: value,
                            bindings: old(self)@.db.scopes[old(self)@.current].bindings,
                        },
                    ),
                    variables: old(self)@.db.variables,
                },
                ..old(self)@
            }),
            same_flags(*old(self), *final(self)),
    {
        self.definitions_db.set_strict(self.definitions, value);
    }

    /// Reads the strict-mode flag of the current scope.
    pub fn is_strict(&self) -> (r: bool)
        requires
            self.wf(),
        ensures
            r == self@.db.scopes[self@.current].is_strict,
    {
        self.definitions_db.is_strict(self.definitions)
    }

    /// Sets the current scope strict exactly when the statement list begins
    /// with the string-literal expression `"use strict"` — nothing else, not
    /// even the same text with extra spacing, enables strict mode.
    pub fn detect_mode(&mut self, stmts: &Vec<Stmt>)
        requires
            old(self).wf(),
        ensures
            final(self).wf(),
            has_use_strict_pragma(stmts@) ==> final(self)@ == (JavascriptParserV {
                db: ScopeInfoDBV {
                    scopes: old(self)@.db.scopes.update(
                        old(self)@.current,
                        ScopeV {
                            parent: old(self)@.db.scopes[old(self)@.current].parent,
                            is_strict: true,
                            bindings: old(self)@.db.scopes[old(self)@.current].bindings,
                        },
                    ),
                    variables: old(self)@.db.variables,
                },
                ..old(self)@
            }),
            !has_use_strict_pragma(stmts@) ==> *final(self) == *old(self),
            same_flags(*old(self), *final(self)),
    {
        if stmts.len() == 0 {
            return;
        }
        match &stmts[0] {
            Stmt::Expr(es) => {
                match &es.expr {
                    Expr::Lit { lit: Lit::Str(s), .. } => {
                        let pragma: String = <String as StringExecFns>::from_str("use strict");
                        if *s == pragma {
                            self.set_strict(true);
                        }
                    },
                    _ => {},
                }
            },
            _ => {},
        }
    }

    /// Whether `str` has no binding visible from the current scope.
    pub fn is_unresolved_ident(&self, name: &str) -> (r: bool)
        requires
            self.wf(),
        ensures
            r == (self@.db.resolve(self@.current, name@) is None),
    {
        let owned = name.to_owned();
        self.definitions_db.get(self.definitions, &owned).is_none()
    }

    /// Whether the `require` reference in `expr` is unresolved.  Only to be
    /// called on a bare `require` identifier or a member access rooted at
    /// one; anything else is a caller contract violation.
    pub fn is_unresolved_require(&self, expr: &Expr) -> (r: bool)
        requires
            self.wf(),
            match expr {
                Expr::Ident(i) => i.sym@ == "require"@,
                Expr::Member(m) => *m.obj matches Expr::Ident(i) && i.sym@ == "require"@,
                _ => false,
            },
        ensures
            r == (self@.db.resolve(self@.current, "require"@) is None),
    {
        let ident = match expr {
            Expr::Ident(i) => i,
            Expr::Member(m) => match &*m.obj {
                Expr::Ident(i) => i,
                _ => unreached(),
            },
            _ => unreached(),
        };
        self.definitions_db.get(self.definitions, &ident.sym).is_none()
    }

    /// Whether `expr` is a member access on an identifier with no visible
    /// binding; false for every other shape.
    pub fn is_unresolved_member_object_ident(&self, expr: &Expr) -> (r: bool)
        requires
            self.wf(),
        ensures
            r == match expr {
                Expr::Member(m) => *m.obj matches Expr::Ident(i) && self@.db.resolve(
                    self@.current,
                    i.sym@,
                ) is None,
                _ => false,
            },
    {
        if let Expr::Member(m) = expr {
            if let Expr::Ident(i) = &*m.obj {
                return self.definitions_db.get(self.definitions, &i.sym).is_none();
            }
        }
        false
    }

    /// Attaches or re-attaches semantic metadata to `name`, serializing the
    /// plugin-supplied payload into its opaque interchange form.
    pub fn tag_variable<Data: TagInfoData>(&mut self, name: String, tag: &str, data: Option<Data>)
        requires
            old(self).wf(),
        ensures
            final(self).wf(),
            exists|d: Option<std::rc::Rc<serde_json::Value>>|
                final(self)@ == (JavascriptParserV {
                    db: #[trigger] old(self)@.db.spec_tag(old(self)@.current, name@, tag@, d),
                    ..old(self)@
                }),
            same_flags(*old(self), *final(self)),
    {
        proof {
            crate::scope_info::lemma_resolve_in_range(old(self)@.db, old(self)@.current, name@);
        }
        let ser: Option<std::rc::Rc<serde_json::Value>> = match &data {
            Some(d) => Some(std::rc::Rc::new(TagInfoData::serialize(d))),
            None => None,
        };
        let ghost d = ser;
        let definitions = self.definitions;
        let new_info = match self.definitions_db.get(definitions, &name) {
            Some(old_id) => {
                let old_info = self.definitions_db.take_variable(old_id);
                let next = match old_info.tag_info {
                    Some(t) => Some(Box::new(t)),
                    None => None,
                };
                VariableInfo {
                    declared_scope: old_info.declared_scope,
                    free_name: Some(FreeName::True),
                    tag_info: Some(TagInfo { tag: tag.to_owned(), data: ser, next }),
                }
            },
            None => VariableInfo {
                declared_scope: definitions,
                free_name: Some(FreeName::Named(name.clone())),
                tag_info: Some(TagInfo { tag: tag.to_owned(), data: ser, next: None }),
            },
        };
        self.definitions_db.set(definitions, name, new_info);
        proof {
            crate::scope_info::lemma_tag_preserves_wf(
                old(self)@.db,
                old(self)@.current,
                name@,
                tag@,
                d,
            );
            assert(final(self)@.db =~~= old(self)@.db.spec_tag(
                old(self)@.current,
                name@,
                tag@,
                d,
            ));
        }
    }
}

// ------------------------------------------------------------------
// Member-expression chains
// ------------------------------------------------------------------

/// The accepted key of one property access: a plain identifier, or a
/// computed access whose key is a literal; any other computed key stops
/// chain extraction at that point.
pub open spec fn member_key(p: MemberProp) -> Option<Seq<char>> {
    match p {
        MemberProp::Ident { sym, .. } => Some(sym@),
        MemberProp::Computed { key, .. } => match *key {
            Expr::Lit { lit, .. } => match lit {
                Lit::Str(s) => Some(s@),
                Lit::Bool(b) => Some(if b { "true"@ } else { "false"@ }),
                Lit::Null => Some("null"@),
                Lit::Num(n) => Some(dec_str_int(n as int)),
                Lit::BigInt(n) => Some(dec_str_int(n as int)),
                Lit::Regex { exp, .. } => Some(exp@),
            },
            _ => None,
        },
    }
}

/// The accepted member names of a chain, outermost access first.
pub open spec fn chain_members(e: Expr) -> Seq<Seq<char>>
    decreases e,
{
    match e {
        Expr::Member(m) => match member_key(m.prop) {
            Some(k) => seq![k] + chain_members(*m.obj),
            None => Seq::empty(),
        },
        _ => Seq::empty(),
    }
}

/// The spans that go with `chain_members`, in the same order.
pub open spec fn chain_ranges(e: Expr) -> Seq<Span>
    decreases e,
{
    match e {
        Expr::Member(m) => match member_key(m.prop) {
            Some(_) => seq![m.obj.spec_span()] + chain_ranges(*m.obj),
            None => Seq::empty(),
        },
        _ => Seq::empty(),
    }
}

/// The first non-member (or non-extractable) expression a chain is rooted at.
pub open spec fn chain_root(e: Expr) -> Expr
    decreases e,
{
    match e {
        Expr::Member(m) => match member_key(m.prop) {
            Some(_) => chain_root(*m.obj),
            None => e,
        },
        _ => e,
    }
}

pub open spec fn names_view(ms: Seq<String>) -> Seq<Seq<char>> {
    ms.map_values(|s: String| s@)
}

/// A flattened member chain: the root expression, the accepted member names
/// in traversal order (outermost access first — reversed from source reading
/// order), and the matching spans.
pub struct ExtractedMemberExpressionChainData<'a> {
    pub object: &'a Expr,
    pub members: Vec<String>,
    pub member_ranges: Vec<Span>,
}

/// Resolves one property access to its member name, if accepted.
fn member_prop_key(p: &MemberProp) -> (r: Option<String>)
    ensures
        match r {
            Some(s) => member_key(*p) == Some(s@),
            None => member_key(*p) is None,
        },
{
    match p {
        MemberProp::Ident { sym, .. } => Some(sym.clone()),
        MemberProp::Computed { key, .. } => match &**key {
            Expr::Lit { lit, .. } => match lit {
                Lit::Str(s) => Some(s.clone()),
                Lit::Bool(b) => {
                    if *b {
                        Some(<String as StringExecFns>::from_str("true"))
                    } else {
                        Some(<String as StringExecFns>::from_str("false"))
                    }
                },
                Lit::Null => Some(<String as StringExecFns>::from_str("null")),
                Lit::Num(n) => Some(crate::digits::i64_to_string(*n)),
                Lit::BigInt(n) => Some(crate::digits::i64_to_string(*n)),
                Lit::Regex { exp, .. } => Some(exp.clone()),
            },
            _ => None,
        },
    }
}

impl JavascriptParser {
    /// Unwraps property accesses from outermost to innermost, recording each
    /// accepted member name and the span of the object it was read from, and
    /// stops at the first non-member object or unaccepted key.
    #[verifier::loop_isolation(false)]
    pub fn extract_member_expression_chain<'a>(expr: &'a Expr) -> (r:
        ExtractedMemberExpressionChainData<'a>)
        ensures
            *r.object == chain_root(*expr),
            names_view(r.members@) == chain_members(*expr),
            r.member_ranges@ == chain_ranges(*expr),
    {
        let mut members: Vec<String> = Vec::new();
        let mut ranges: Vec<Span> = Vec::new();
        let mut cur: &Expr = expr;
        loop
            invariant
                chain_root(*expr) == chain_root(*cur),
                chain_members(*expr) == names_view(members@) + chain_members(*cur),
                chain_ranges(*expr) == ranges@ + chain_ranges(*cur),
            decreases *cur,
        {
            match cur {
                Expr::Member(m) => {
                    let key = member_prop_key(&m.prop);
                    match key {
                        Some(k) => {
                            let ghost ms_before = members@;
                            let ghost rs_before = ranges@;
                            members.push(k);
                            ranges.push(m.obj.span());
                            proof {
                                assert(names_view(members@) =~= names_view(ms_before).push(k@));
                                assert(names_view(ms_before).push(k@) + chain_members(*m.obj)
                                    =~= names_view(ms_before) + (seq![k@] + chain_members(
                                    *m.obj,
                                )));
                                assert(ranges@ + chain_ranges(*m.obj) =~= rs_before + (seq![
                                    m.obj.spec_span(),
                                ] + chain_ranges(*m.obj)));
                            }
                            cur = &m.obj;
                        },
                        None => {
                            break;
                        },
                    }
                },
                _ => {
                    break;
                },
            }
        }
        proof {
            assert(names_view(members@) + chain_members(*cur) =~= names_view(members@));
            assert(ranges@ + chain_ranges(*cur) =~= ranges@);
        }
        ExtractedMemberExpressionChainData { object: cur, members, member_ranges: ranges }
    }
}

// ------------------------------------------------------------------
// Dotted names
// ------------------------------------------------------------------

/// Appends `.member` for each member, read from the last to the first.
pub open spec fn spec_dotted(root: Seq<char>, ms: Seq<Seq<char>>) -> Seq<char>
    decreases ms.len(),
{
    if ms.len() == 0 {
        root
    } else {
        spec_dotted(root + seq!['.'] + ms.last(), ms.drop_last())
    }
}

/// Appends `.member` for each member in source reading order.
pub open spec fn spec_joined(root: Seq<char>, ms: Seq<Seq<char>>) -> Seq<char>
    decreases ms.len(),
{
    if ms.len() == 0 {
        root
    } else {
        spec_joined(root + seq!['.'] + ms[0], ms.drop_first())
    }
}

/// Law: extraction order round-trips — the chain members are stored
/// outermost-first, so consuming them last-to-first (as
/// `object_and_members_to_name` does) yields exactly the dotted name built
/// root-to-leaf in source reading order.
pub proof fn lemma_member_chain_round_trip(root: Seq<char>, ms: Seq<Seq<char>>)
    ensures
        spec_dotted(root, ms) == spec_joined(root, ms.reverse()),
    decreases ms.len(),
{
    if ms.len() > 0 {
        lemma_member_chain_round_trip(root + seq!['.'] + ms.last(), ms.drop_last());
        assert(ms.reverse()[0] == ms.last());
        assert(ms.reverse().drop_first() =~= ms.drop_last().reverse());
    }
}

/// Builds the dotted name of a chain from the resolved root name and the
/// member names as the extractor stored them (outermost access first).
#[verifier::loop_isolation(false)]
pub fn object_and_members_to_name(object: &String, members_reversed: &Vec<String>) -> (r: String)
    ensures
        r@ == spec_dotted(object@, names_view(members_reversed@)),
{
    let mut name = object.clone();
    let ghost full = names_view(members_reversed@);
    let mut i: usize = members_reversed.len();
    proof {
        assert(full.subrange(0, i as int) =~= full);
    }
    while i > 0
        invariant
            i <= members_reversed@.len(),
            spec_dotted(object@, full) == spec_dotted(name@, full.subrange(0, i as int)),
        decreases i,
    {
        i = i - 1;
        let ghost name_before = name@;
        proof {
            reveal_strlit(".");
        }
        name.append(".");
        name.append(members_reversed[i].as_str());
        proof {
            let sub = full.subrange(0, i as int + 1);
            assert(sub.last() == full[i as int]);
            assert(sub.drop_last() =~= full.subrange(0, i as int));
            assert(name@ =~= name_before + seq!['.'] + full[i as int]);
        }
    }
    proof {
        assert(full.subrange(0, 0) =~= Seq::<Seq<char>>::empty());
    }
    name
}

// ------------------------------------------------------------------
// Root names and hook-dispatch keys
// ------------------------------------------------------------------

/// The root name an expression contributes to a dotted chain.
pub trait RootName {
    spec fn spec_root_name(&self) -> Option<Seq<char>>;

    fn get_root_name(&self) -> (r: Option<String>)
        ensures
            match r {
                Some(s) => self.spec_root_name() == Some(s@),
                None => self.spec_root_name() is None,
            },
    ;
}

impl RootName for Ident {
    open spec fn spec_root_name(&self) -> Option<Seq<char>> {
        Some(self.sym@)
    }

    fn get_root_name(&self) -> (r: Option<String>) {
        Some(self.sym.clone())
    }
}

impl RootName for ThisExpr {
    open spec fn spec_root_name(&self) -> Option<Seq<char>> {
        Some("this"@)
    }

    fn get_root_name(&self) -> (r: Option<String>) {
        Some("this".to_owned())
    }
}

impl RootName for MetaPropExpr {
    open spec fn spec_root_name(&self) -> Option<Seq<char>> {
        match self.kind {
            MetaPropKind::NewTarget => Some("new.target"@),
            MetaPropKind::ImportMeta => Some("import.meta"@),
        }
    }

    fn get_root_name(&self) -> (r: Option<String>) {
        match self.kind {
            MetaPropKind::NewTarget => Some("new.target".to_owned()),
            MetaPropKind::ImportMeta => Some("import.meta".to_owned()),
        }
    }
}

impl RootName for Expr {
    open spec fn spec_root_name(&self) -> Option<Seq<char>> {
        match self {
            Expr::Ident(i) => i.spec_root_name(),
            Expr::This(t) => t.spec_root_name(),
            Expr::MetaProp(m) => m.spec_root_name(),
            _ => None,
        }
    }

    fn get_root_name(&self) -> (r: Option<String>) {
        match self {
            Expr::Ident(i) => i.get_root_name(),
            Expr::This(t) => t.get_root_name(),
            Expr::MetaProp(m) => m.get_root_name(),
            _ => None,
        }
    }
}

impl RootName for Callee {
    open spec fn spec_root_name(&self) -> Option<Seq<char>> {
        match self {
            Callee::Expr(e) => e.spec_root_name(),
            _ => None,
        }
    }

    fn get_root_name(&self) -> (r: Option<String>) {
        match self {
            Callee::Expr(e) => e.get_root_name(),
            _ => None,
        }
    }
}

/// A name that can key a hook dispatch, after resolving it through the
/// variable store.
pub trait CallHooksName {
    spec fn chn_valid(&self, parser: &JavascriptParser) -> bool;

    fn call_hooks_name(&self, parser: &JavascriptParser) -> (r: Option<String>)
        requires
            parser.wf(),
            self.chn_valid(parser),
    ;
}

impl CallHooksName for String {
    open spec fn chn_valid(&self, parser: &JavascriptParser) -> bool {
        true
    }

    /// An unbound name keys under itself; a bound one under its literal
    /// free name, if any.
    fn call_hooks_name(&self, parser: &JavascriptParser) -> (r: Option<String>)
        ensures
            match r {
                Some(s) => call_hooks_name_of(parser@.db, parser@.current, self@) == Some(s@),
                None => call_hooks_name_of(parser@.db, parser@.current, self@) is None,
            },
    {
        match parser.get_variable_info(self) {
            None => Some(self.clone()),
            Some(info) => match &info.free_name {
                Some(FreeName::Named(n)) => Some(n.clone()),
                _ => None,
            },
        }
    }
}

impl CallHooksName for VariableInfo {
    open spec fn chn_valid(&self, parser: &JavascriptParser) -> bool {
        true
    }

    /// A variable record keys under its literal free name, if any.
    fn call_hooks_name(&self, parser: &JavascriptParser) -> (r: Option<String>)
        ensures
            match r {
                Some(s) => self@.free_name == Some(FreeNameV::Named(s@)),
                None => !(self@.free_name matches Some(FreeNameV::Named(_))),
            },
    {
        match &self.free_name {
            Some(FreeName::Named(n)) => Some(n.clone()),
            _ => None,
        }
    }
}

impl CallHooksName for ExportedVariableInfo {
    open spec fn chn_valid(&self, parser: &JavascriptParser) -> bool {
        self matches ExportedVariableInfo::VariableInfo(v) ==> (v as int)
            < parser@.db.variables.len()
    }

    /// A bare name resolves as a name; a binding identity re-resolves the
    /// binding's current free-name state.
    fn call_hooks_name(&self, parser: &JavascriptParser) -> (r: Option<String>)
        ensures
            match self {
                ExportedVariableInfo::Name(n) => match r {
                    Some(s) => call_hooks_name_of(parser@.db, parser@.current, n@) == Some(s@),
                    None => call_hooks_name_of(parser@.db, parser@.current, n@) is None,
                },
                ExportedVariableInfo::VariableInfo(v) => match r {
                    Some(s) => parser@.db.variables[*v as int].free_name == Some(
                        FreeNameV::Named(s@),
                    ),
                    None => !(parser@.db.variables[*v as int].free_name matches Some(
                        FreeNameV::Named(_),
                    )),
                },
            },
    {
        match self {
            ExportedVariableInfo::Name(n) => n.call_hooks_name(parser),
            ExportedVariableInfo::VariableInfo(v) => {
                let info = parser.definitions_db.expect_get_variable(*v);
                match &info.free_name {
                    Some(FreeName::Named(n)) => Some(n.clone()),
                    _ => None,
                }
            },
        }
    }
}

// ------------------------------------------------------------------
// Member-expression info
// ------------------------------------------------------------------

/// Which chain roots a caller accepts.
#[derive(Clone, Copy, PartialEq, Eq, Structural, Debug)]
pub struct AllowedMemberTypes {
    pub call_expression: bool,
    pub expression: bool,
}

/// A chain rooted at a call: the call, the fully dotted callee name, and
/// the root-variable reference.
pub struct CallExpressionInfo<'a> {
    pub call: &'a CallExpr,
    pub callee_name: String,
    pub root_info: ExportedVariableInfo,
}

/// A chain rooted at an identifier, `this`, or a meta-property: the fully
/// dotted name and the root-variable reference.
pub struct ExpressionExpressionInfo {
    pub name: String,
    pub root_info: ExportedVariableInfo,
}

pub enum MemberExpressionInfo<'a> {
    Call(CallExpressionInfo<'a>),
    Expression(ExpressionExpressionInfo),
}

/// What classifying a member chain must produce, if anything: whether the
/// root is a call, the fully dotted name, and how the root resolved.
pub struct MemberInfoSpec {
    pub is_call: bool,
    pub name: Seq<char>,
    pub root: Option<int>,
    pub root_name: Seq<char>,
}

pub open spec fn member_info_spec(
    db: ScopeInfoDBV,
    sid: int,
    e: Expr,
    allowed: AllowedMemberTypes,
) -> Option<MemberInfoSpec> {
    let root = chain_root(e);
    let is_call = root is Call;
    let permitted = if is_call {
        allowed.call_expression
    } else {
        allowed.expression
    };
    let root_name = match root {
        Expr::Call(c) => c.callee.spec_root_name(),
        Expr::Ident(_) | Expr::This(_) | Expr::MetaProp(_) => root.spec_root_name(),
        _ => None,
    };
    if !(root is Call || root is Ident || root is This || root is MetaProp) || !permitted {
        None
    } else {
        match root_name {
            None => None,
            Some(n) => match free_info_of(db, sid, n) {
                None => None,
                Some(p) => Some(
                    MemberInfoSpec {
                        is_call,
                        name: spec_dotted(p.0, chain_members(e)),
                        root: p.1,
                        root_name: n,
                    },
                ),
            },
        }
    }
}

/// Whether a root-variable reference is the one the classification asks for.
pub open spec fn exported_matches(x: ExportedVariableInfo, mi: MemberInfoSpec) -> bool {
    match mi.root {
        Some(id) => x matches ExportedVariableInfo::VariableInfo(v) && v as int == id,
        None => x matches ExportedVariableInfo::Name(s) && s@ == mi.root_name,
    }
}

impl JavascriptParser {
    /// Classifies a member chain as a call-rooted or expression-rooted
    /// access, resolving the root's free name; `None` when the root kind is
    /// not permitted, has no root name, or its free-name lookup fails.
    pub fn get_member_expression_info<'a>(
        &self,
        expr: &'a Expr,
        allowed_types: AllowedMemberTypes,
    ) -> (r: Option<MemberExpressionInfo<'a>>)
        requires
            self.wf(),
        ensures
            match r {
                None => member_info_spec(self@.db, self@.current, *expr, allowed_types) is None,
                Some(MemberExpressionInfo::Call(ci)) => {
                    &&& member_info_spec(self@.db, self@.current, *expr, allowed_types)
                        matches Some(mi)
                    &&& mi.is_call
                    &&& chain_root(*expr) matches Expr::Call(c) && *ci.call == c
                    &&& ci.callee_name@ == mi.name
                    &&& exported_matches(ci.root_info, mi)
                },
                Some(MemberExpressionInfo::Expression(ei)) => {
                    &&& member_info_spec(self@.db, self@.current, *expr, allowed_types)
                        matches Some(mi)
                    &&& !mi.is_call
                    &&& ei.name@ == mi.name
                    &&& exported_matches(ei.root_info, mi)
                },
            },
    {
        let extracted = Self::extract_member_expression_chain(expr);
        match extracted.object {
            Expr::Call(c) => {
                if !allowed_types.call_expression {
                    return None;
                }
                let root_name = match c.callee.get_root_name() {
                    Some(n) => n,
                    None => {
                        return None;
                    },
                };
                let fi = match self.get_free_info_from_variable(&root_name) {
                    Some(fi) => fi,
                    None => {
                        return None;
                    },
                };
                let callee_name = object_and_members_to_name(&fi.name, &extracted.members);
                let root_info = match fi.info {
                    Some(id) => ExportedVariableInfo::VariableInfo(id),
                    None => ExportedVariableInfo::Name(root_name),
                };
                Some(MemberExpressionInfo::Call(CallExpressionInfo { call: c, callee_name, root_info }))
            },
            Expr::Ident(_) | Expr::This(_) | Expr::MetaProp(_) => {
                if !allowed_types.expression {
                    return None;
                }
                let root_name = match extracted.object.get_root_name() {
                    Some(n) => n,
                    None => {
                        return None;
                    },
                };
                let fi = match self.get_free_info_from_variable(&root_name) {
                    Some(fi) => fi,
                    None => {
                        return None;
                    },
                };
                let name = object_and_members_to_name(&fi.name, &extracted.members);
                let root_info = match fi.info {
                    Some(id) => ExportedVariableInfo::VariableInfo(id),
                    None => ExportedVariableInfo::Name(root_name),
                };
                Some(MemberExpressionInfo::Expression(ExpressionExpressionInfo { name, root_info }))
            },
            _ => None,
        }
    }
}

} // verus!
