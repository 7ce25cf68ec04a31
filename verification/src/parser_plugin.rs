//! The plugin hook protocol and its dispatch drive.
//!
//! Each hook is called at a specific traversal point with the in-progress
//! walker state and the current node, and has its own traversal-control
//! return contract; the absence of an opinion (`None`, or doing nothing) is
//! always the identity that continues normal traversal.  The drive fans a
//! hook call out across the registered plugins in order with one consistent
//! short-circuit rule per hook kind.

use vstd::prelude::*;

use crate::ast::{
    AssignExpr, AwaitExpr, BinExpr, CallExpr, ForOfStmt, Ident, IfStmt, MemberExpr, ModuleDecl,
    NewExpr, Program, Stmt, ThisExpr, UnaryExpr, VarDecl, VarDeclarator,
};
use crate::eval::BasicEvaluatedExpression;
use crate::parser::{state_extends, JavascriptParser};

verus! {

pub trait JavascriptParserPlugin {
    /// `Some(true)` ends the pre-walk of this statement; anything else continues it.
    fn pre_statement(&self, parser: &mut JavascriptParser, stmt: &Stmt) -> (r: Option<bool>)
        requires
            old(parser).wf(),
        ensures
            final(parser).wf(),
            state_extends(final(parser)@, old(parser)@),
    {
        None
    }

    /// `Some(_)` replaces all three built-in passes for this program; `None` runs them.
    fn program(&self, parser: &mut JavascriptParser, ast: &Program) -> (r: Option<bool>)
        requires
            old(parser).wf(),
        ensures
            final(parser).wf(),
            state_extends(final(parser)@, old(parser)@),
    {
        None
    }

    /// `Some(_)` skips the default handling of this declaration.
    fn module_declaration(&self, parser: &mut JavascriptParser, decl: &ModuleDecl) -> (r: Option<bool>)
        requires
            old(parser).wf(),
        ensures
            final(parser).wf(),
            state_extends(final(parser)@, old(parser)@),
    {
        None
    }

    /// `Some(true)` marks the call fully handled: the walker stops descending into it.
    fn call(&self, parser: &mut JavascriptParser, expr: &CallExpr, for_name: &str) -> (r: Option<bool>)
        requires
            old(parser).wf(),
        ensures
            final(parser).wf(),
            state_extends(final(parser)@, old(parser)@),
    {
        None
    }

    /// `Some(true)` marks the member access handled, as for `call`.
    fn member(&self, parser: &mut JavascriptParser, expr: &MemberExpr, for_name: &str) -> (r: Option<bool>)
        requires
            old(parser).wf(),
        ensures
            final(parser).wf(),
            state_extends(final(parser)@, old(parser)@),
    {
        None
    }

    /// Chain continuation; same contract as `call`.
    fn member_chain_of_call_member_chain(&self, parser: &mut JavascriptParser, expr: &MemberExpr, for_name: &str) -> (r: Option<bool>)
        requires
            old(parser).wf(),
        ensures
            final(parser).wf(),
            state_extends(final(parser)@, old(parser)@),
    {
        None
    }

    /// Chain continuation; same contract as `call`.
    fn call_member_chain_of_call_member_chain(&self, parser: &mut JavascriptParser, expr: &CallExpr, for_name: &str) -> (r: Option<bool>)
        requires
            old(parser).wf(),
        ensures
            final(parser).wf(),
            state_extends(final(parser)@, old(parser)@),
    {
        None
    }

    /// `Some(true)` marks the `typeof` expression handled.
    fn typeof_expr(&self, parser: &mut JavascriptParser, expr: &UnaryExpr) -> (r: Option<bool>)
        requires
            old(parser).wf(),
        ensures
            final(parser).wf(),
            state_extends(final(parser)@, old(parser)@),
    {
        None
    }

    /// `None`: walk both sides; `Some(true)`: walk only the right side; `Some(false)`: walk neither.
    fn expression_logical_operator(&self, parser: &mut JavascriptParser, expr: &BinExpr) -> (r: Option<bool>)
        requires
            old(parser).wf(),
        ensures
            final(parser).wf(),
            state_extends(final(parser)@, old(parser)@),
    {
        None
    }

    /// `None`: walk both sides.  No short-circuit variant is defined: both sides are walked whatever is returned.
    fn binary_expression(&self, parser: &mut JavascriptParser, expr: &BinExpr) -> (r: Option<bool>)
        requires
            old(parser).wf(),
        ensures
            final(parser).wf(),
            state_extends(final(parser)@, old(parser)@),
    {
        None
    }

    /// `None`: walk test, consequent and alternate; `Some(true)`: only the consequent; `Some(false)`: only the alternate.
    fn statement_if(&self, parser: &mut JavascriptParser, stmt: &IfStmt) -> (r: Option<bool>)
        requires
            old(parser).wf(),
        ensures
            final(parser).wf(),
            state_extends(final(parser)@, old(parser)@),
    {
        None
    }

    /// `Some(true)`: the plugin fully handled this declarator (skip the default init walk).
    fn declarator(&self, parser: &mut JavascriptParser, expr: &VarDeclarator, stmt: &VarDecl) -> (r: Option<bool>)
        requires
            old(parser).wf(),
        ensures
            final(parser).wf(),
            state_extends(final(parser)@, old(parser)@),
    {
        None
    }

    /// `Some(true)` marks the `new` expression handled.
    fn new_expression(&self, parser: &mut JavascriptParser, expr: &NewExpr) -> (r: Option<bool>)
        requires
            old(parser).wf(),
        ensures
            final(parser).wf(),
            state_extends(final(parser)@, old(parser)@),
    {
        None
    }

    /// `Some(true)` marks the identifier reference handled.
    fn identifier(&self, parser: &mut JavascriptParser, ident: &Ident, for_name: &str) -> (r: Option<bool>)
        requires
            old(parser).wf(),
        ensures
            final(parser).wf(),
            state_extends(final(parser)@, old(parser)@),
    {
        None
    }

    /// `Some(true)` marks the `this` expression handled.
    fn this(&self, parser: &mut JavascriptParser, expr: &ThisExpr) -> (r: Option<bool>)
        requires
            old(parser).wf(),
        ensures
            final(parser).wf(),
            state_extends(final(parser)@, old(parser)@),
    {
        None
    }

    /// `Some(true)` marks the assignment handled.
    fn assign(&self, parser: &mut JavascriptParser, expr: &AssignExpr) -> (r: Option<bool>)
        requires
            old(parser).wf(),
        ensures
            final(parser).wf(),
            state_extends(final(parser)@, old(parser)@),
    {
        None
    }

    /// Side-effecting only: a top-level `await` expression was seen.  The return value has no effect.
    fn top_level_await_expr(&self, parser: &mut JavascriptParser, expr: &AwaitExpr)
        requires
            old(parser).wf(),
        ensures
            final(parser).wf(),
            state_extends(final(parser)@, old(parser)@),
    {
    }

    /// Side-effecting only: a top-level `for await ... of` was seen.  The return value has no effect.
    fn top_level_for_of_await_stmt(&self, parser: &mut JavascriptParser, stmt: &ForOfStmt)
        requires
            old(parser).wf(),
        ensures
            final(parser).wf(),
            state_extends(final(parser)@, old(parser)@),
    {
    }

    /// Produces a substitute evaluated value for `typeof` on an identifier,
    /// or `None` to fall through.  An evaluation hook substitutes a value
    /// only: the evaluator itself owns the ignored-span set.
    fn evaluate_typeof(
        &self,
        parser: &mut JavascriptParser,
        ident: &Ident,
        start: u32,
        end: u32,
    ) -> (r: Option<BasicEvaluatedExpression>)
        requires
            old(parser).wf(),
        ensures
            final(parser).wf(),
            state_extends(final(parser)@, old(parser)@),
            final(parser)@.ignored == old(parser)@.ignored,
            r matches Some(e) ==> e.span == (crate::ast::Span { lo: start, hi: end }),
    {
        None
    }
}

pub type BoxJavascriptParserPlugin = Box<dyn JavascriptParserPlugin>;

/// The ordered plugin collection: registration order is dispatch order.
pub struct JavaScriptParserPluginDrive {
    pub plugins: Vec<BoxJavascriptParserPlugin>,
}

impl JavaScriptParserPluginDrive {
    pub fn new(plugins: Vec<BoxJavascriptParserPlugin>) -> (r: JavaScriptParserPluginDrive)
        ensures
            r.plugins@.len() == plugins@.len(),
    {
        JavaScriptParserPluginDrive { plugins }
    }

    /// Dispatches `pre_statement` to each plugin in registration order; the first
    /// plugin answering `Some` wins and later plugins are not asked.
    pub fn pre_statement(&self, parser: &mut JavascriptParser, stmt: &Stmt) -> (r: Option<bool>)
        requires
            old(parser).wf(),
        ensures
            final(parser).wf(),
            state_extends(final(parser)@, old(parser)@),
            self.plugins@.len() == 0 ==> r is None && *final(parser) == *old(parser),
    {
        let n = self.plugins.len();
        let mut i: usize = 0;
        while i < n
            invariant
                i <= n,
                parser.wf(),
                n == self.plugins.len(),
                state_extends(parser@, old(parser)@),
                i == 0 ==> *parser == *old(parser),
            decreases n - i,
        {
            let r = self.plugins[i].pre_statement(parser, stmt);
            if r.is_some() {
                return r;
            }
            i = i + 1;
        }
        None
    }

    /// Dispatches `program` to each plugin in registration order; the first
    /// plugin answering `Some` wins and later plugins are not asked.
    pub fn program(&self, parser: &mut JavascriptParser, ast: &Program) -> (r: Option<bool>)
        requires
            old(parser).wf(),
        ensures
            final(parser).wf(),
            state_extends(final(parser)@, old(parser)@),
            self.plugins@.len() == 0 ==> r is None && *final(parser) == *old(parser),
    {
        let n = self.plugins.len();
        let mut i: usize = 0;
        while i < n
            invariant
                i <= n,
                parser.wf(),
                n == self.plugins.len(),
                state_extends(parser@, old(parser)@),
                i == 0 ==> *parser == *old(parser),
            decreases n - i,
        {
            let r = self.plugins[i].program(parser, ast);
            if r.is_some() {
                return r;
            }
            i = i + 1;
        }
        None
    }

    /// Dispatches `module_declaration` to each plugin in registration order; the first
    /// plugin answering `Some` wins and later plugins are not asked.
    pub fn module_declaration(&self, parser: &mut JavascriptParser, decl: &ModuleDecl) -> (r: Option<bool>)
        requires
            old(parser).wf(),
        ensures
            final(parser).wf(),
            state_extends(final(parser)@, old(parser)@),
            self.plugins@.len() == 0 ==> r is None && *final(parser) == *old(parser),
    {
        let n = self.plugins.len();
        let mut i: usize = 0;
        while i < n
            invariant
                i <= n,
                parser.wf(),
                n == self.plugins.len(),
                state_extends(parser@, old(parser)@),
                i == 0 ==> *parser == *old(parser),
            decreases n - i,
        {
            let r = self.plugins[i].module_declaration(parser, decl);
            if r.is_some() {
                return r;
            }
            i = i + 1;
        }
        None
    }

    /// Dispatches `call` to each plugin in registration order; the first
    /// plugin answering `Some` wins and later plugins are not asked.
    pub fn call(&self, parser: &mut JavascriptParser, expr: &CallExpr, for_name: &str) -> (r: Option<bool>)
        requires
            old(parser).wf(),
        ensures
            final(parser).wf(),
            state_extends(final(parser)@, old(parser)@),
            self.plugins@.len() == 0 ==> r is None && *final(parser) == *old(parser),
    {
        let n = self.plugins.len();
        let mut i: usize = 0;
        while i < n
            invariant
                i <= n,
                parser.wf(),
                n == self.plugins.len(),
                state_extends(parser@, old(parser)@),
                i == 0 ==> *parser == *old(parser),
            decreases n - i,
        {
            let r = self.plugins[i].call(parser, expr, for_name);
            if r.is_some() {
                return r;
            }
            i = i + 1;
        }
        None
    }

    /// Dispatches `member` to each plugin in registration order; the first
    /// plugin answering `Some` wins and later plugins are not asked.
    pub fn member(&self, parser: &mut JavascriptParser, expr: &MemberExpr, for_name: &str) -> (r: Option<bool>)
        requires
            old(parser).wf(),
        ensures
            final(parser).wf(),
            state_extends(final(parser)@, old(parser)@),
            self.plugins@.len() == 0 ==> r is None && *final(parser) == *old(parser),
    {
        let n = self.plugins.len();
        let mut i: usize = 0;
        while i < n
            invariant
                i <= n,
                parser.wf(),
                n == self.plugins.len(),
                state_extends(parser@, old(parser)@),
                i == 0 ==> *parser == *old(parser),
            decreases n - i,
        {
            let r = self.plugins[i].member(parser, expr, for_name);
            if r.is_some() {
                return r;
            }
            i = i + 1;
        }
        None
    }

    /// Dispatches `member_chain_of_call_member_chain` to each plugin in registration order; the first
    /// plugin answering `Some` wins and later plugins are not asked.
    pub fn member_chain_of_call_member_chain(&self, parser: &mut JavascriptParser, expr: &MemberExpr, for_name: &str) -> (r: Option<bool>)
        requires
            old(parser).wf(),
        ensures
            final(parser).wf(),
            state_extends(final(parser)@, old(parser)@),
            self.plugins@.len() == 0 ==> r is None && *final(parser) == *old(parser),
    {
        let n = self.plugins.len();
        let mut i: usize = 0;
        while i < n
            invariant
                i <= n,
                parser.wf(),
                n == self.plugins.len(),
                state_extends(parser@, old(parser)@),
                i == 0 ==> *parser == *old(parser),
            decreases n - i,
        {
            let r = self.plugins[i].member_chain_of_call_member_chain(parser, expr, for_name);
            if r.is_some() {
                return r;
            }
            i = i + 1;
        }
        None
    }

    /// Dispatches `call_member_chain_of_call_member_chain` to each plugin in registration order; the first
    /// plugin answering `Some` wins and later plugins are not asked.
    pub fn call_member_chain_of_call_member_chain(&self, parser: &mut JavascriptParser, expr: &CallExpr, for_name: &str) -> (r: Option<bool>)
        requires
            old(parser).wf(),
        ensures
            final(parser).wf(),
            state_extends(final(parser)@, old(parser)@),
            self.plugins@.len() == 0 ==> r is None && *final(parser) == *old(parser),
    {
        let n = self.plugins.len();
        let mut i: usize = 0;
        while i < n
            invariant
                i <= n,
                parser.wf(),
                n == self.plugins.len(),
                state_extends(parser@, old(parser)@),
                i == 0 ==> *parser == *old(parser),
            decreases n - i,
        {
            let r = self.plugins[i].call_member_chain_of_call_member_chain(parser, expr, for_name);
            if r.is_some() {
                return r;
            }
            i = i + 1;
        }
        None
    }

    /// Dispatches `typeof_expr` to each plugin in registration order; the first
    /// plugin answering `Some` wins and later plugins are not asked.
    pub fn typeof_expr(&self, parser: &mut JavascriptParser, expr: &UnaryExpr) -> (r: Option<bool>)
        requires
            old(parser).wf(),
        ensures
            final(parser).wf(),
            state_extends(final(parser)@, old(parser)@),
            self.plugins@.len() == 0 ==> r is None && *final(parser) == *old(parser),
    {
        let n = self.plugins.len();
        let mut i: usize = 0;
        while i < n
            invariant
                i <= n,
                parser.wf(),
                n == self.plugins.len(),
                state_extends(parser@, old(parser)@),
                i == 0 ==> *parser == *old(parser),
            decreases n - i,
        {
            let r = self.plugins[i].typeof_expr(parser, expr);
            if r.is_some() {
                return r;
            }
            i = i + 1;
        }
        None
    }

    /// Dispatches `expression_logical_operator` to each plugin in registration order; the first
    /// plugin answering `Some` wins and later plugins are not asked.
    pub fn expression_logical_operator(&self, parser: &mut JavascriptParser, expr: &BinExpr) -> (r: Option<bool>)
        requires
            old(parser).wf(),
        ensures
            final(parser).wf(),
            state_extends(final(parser)@, old(parser)@),
            self.plugins@.len() == 0 ==> r is None && *final(parser) == *old(parser),
    {
        let n = self.plugins.len();
        let mut i: usize = 0;
        while i < n
            invariant
                i <= n,
                parser.wf(),
                n == self.plugins.len(),
                state_extends(parser@, old(parser)@),
                i == 0 ==> *parser == *old(parser),
            decreases n - i,
        {
            let r = self.plugins[i].expression_logical_operator(parser, expr);
            if r.is_some() {
                return r;
            }
            i = i + 1;
        }
        None
    }

    /// Dispatches `binary_expression` to each plugin in registration order; the first
    /// plugin answering `Some` wins and later plugins are not asked.
    pub fn binary_expression(&self, parser: &mut JavascriptParser, expr: &BinExpr) -> (r: Option<bool>)
        requires
            old(parser).wf(),
        ensures
            final(parser).wf(),
            state_extends(final(parser)@, old(parser)@),
            self.plugins@.len() == 0 ==> r is None && *final(parser) == *old(parser),
    {
        let n = self.plugins.len();
        let mut i: usize = 0;
        while i < n
            invariant
                i <= n,
                parser.wf(),
                n == self.plugins.len(),
                state_extends(parser@, old(parser)@),
                i == 0 ==> *parser == *old(parser),
            decreases n - i,
        {
            let r = self.plugins[i].binary_expression(parser, expr);
            if r.is_some() {
                return r;
            }
            i = i + 1;
        }
        None
    }

    /// Dispatches `statement_if` to each plugin in registration order; the first
    /// plugin answering `Some` wins and later plugins are not asked.
    pub fn statement_if(&self, parser: &mut JavascriptParser, stmt: &IfStmt) -> (r: Option<bool>)
        requires
            old(parser).wf(),
        ensures
            final(parser).wf(),
            state_extends(final(parser)@, old(parser)@),
            self.plugins@.len() == 0 ==> r is None && *final(parser) == *old(parser),
    {
        let n = self.plugins.len();
        let mut i: usize = 0;
        while i < n
            invariant
                i <= n,
                parser.wf(),
                n == self.plugins.len(),
                state_extends(parser@, old(parser)@),
                i == 0 ==> *parser == *old(parser),
            decreases n - i,
        {
            let r = self.plugins[i].statement_if(parser, stmt);
            if r.is_some() {
                return r;
            }
            i = i + 1;
        }
        None
    }

    /// Dispatches `declarator` to each plugin in registration order; the first
    /// plugin answering `Some` wins and later plugins are not asked.
    pub fn declarator(&self, parser: &mut JavascriptParser, expr: &VarDeclarator, stmt: &VarDecl) -> (r: Option<bool>)
        requires
            old(parser).wf(),
        ensures
            final(parser).wf(),
            state_extends(final(parser)@, old(parser)@),
            self.plugins@.len() == 0 ==> r is None && *final(parser) == *old(parser),
    {
        let n = self.plugins.len();
        let mut i: usize = 0;
        while i < n
            invariant
                i <= n,
                parser.wf(),
                n == self.plugins.len(),
                state_extends(parser@, old(parser)@),
                i == 0 ==> *parser == *old(parser),
            decreases n - i,
        {
            let r = self.plugins[i].declarator(parser, expr, stmt);
            if r.is_some() {
                return r;
            }
            i = i + 1;
        }
        None
    }

    /// Dispatches `new_expression` to each plugin in registration order; the first
    /// plugin answering `Some` wins and later plugins are not asked.
    pub fn new_expression(&self, parser: &mut JavascriptParser, expr: &NewExpr) -> (r: Option<bool>)
        requires
            old(parser).wf(),
        ensures
            final(parser).wf(),
            state_extends(final(parser)@, old(parser)@),
            self.plugins@.len() == 0 ==> r is None && *final(parser) == *old(parser),
    {
        let n = self.plugins.len();
        let mut i: usize = 0;
        while i < n
            invariant
                i <= n,
                parser.wf(),
                n == self.plugins.len(),
                state_extends(parser@, old(parser)@),
                i == 0 ==> *parser == *old(parser),
            decreases n - i,
        {
            let r = self.plugins[i].new_expression(parser, expr);
            if r.is_some() {
                return r;
            }
            i = i + 1;
        }
        None
    }

    /// Dispatches `identifier` to each plugin in registration order; the first
    /// plugin answering `Some` wins and later plugins are not asked.
    pub fn identifier(&self, parser: &mut JavascriptParser, ident: &Ident, for_name: &str) -> (r: Option<bool>)
        requires
            old(parser).wf(),
        ensures
            final(parser).wf(),
            state_extends(final(parser)@, old(parser)@),
            self.plugins@.len() == 0 ==> r is None && *final(parser) == *old(parser),
    {
        let n = self.plugins.len();
        let mut i: usize = 0;
        while i < n
            invariant
                i <= n,
                parser.wf(),
                n == self.plugins.len(),
                state_extends(parser@, old(parser)@),
                i == 0 ==> *parser == *old(parser),
            decreases n - i,
        {
            let r = self.plugins[i].identifier(parser, ident, for_name);
            if r.is_some() {
                return r;
            }
            i = i + 1;
        }
        None
    }

    /// Dispatches `this` to each plugin in registration order; the first
    /// plugin answering `Some` wins and later plugins are not asked.
    pub fn this(&self, parser: &mut JavascriptParser, expr: &ThisExpr) -> (r: Option<bool>)
        requires
            old(parser).wf(),
        ensures
            final(parser).wf(),
            state_extends(final(parser)@, old(parser)@),
            self.plugins@.len() == 0 ==> r is None && *final(parser) == *old(parser),
    {
        let n = self.plugins.len();
        let mut i: usize = 0;
        while i < n
            invariant
                i <= n,
                parser.wf(),
                n == self.plugins.len(),
                state_extends(parser@, old(parser)@),
                i == 0 ==> *parser == *old(parser),
            decreases n - i,
        {
            let r = self.plugins[i].this(parser, expr);
            if r.is_some() {
                return r;
            }
            i = i + 1;
        }
        None
    }

    /// Dispatches `assign` to each plugin in registration order; the first
    /// plugin answering `Some` wins and later plugins are not asked.
    pub fn assign(&self, parser: &mut JavascriptParser, expr: &AssignExpr) -> (r: Option<bool>)
        requires
            old(parser).wf(),
        ensures
            final(parser).wf(),
            state_extends(final(parser)@, old(parser)@),
            self.plugins@.len() == 0 ==> r is None && *final(parser) == *old(parser),
    {
        let n = self.plugins.len();
        let mut i: usize = 0;
        while i < n
            invariant
                i <= n,
                parser.wf(),
                n == self.plugins.len(),
                state_extends(parser@, old(parser)@),
                i == 0 ==> *parser == *old(parser),
            decreases n - i,
        {
            let r = self.plugins[i].assign(parser, expr);
            if r.is_some() {
                return r;
            }
            i = i + 1;
        }
        None
    }

    /// Dispatches `top_level_await_expr` to every plugin in registration order,
    /// unconditionally: side-effect hooks never short-circuit.
    pub fn top_level_await_expr(&self, parser: &mut JavascriptParser, expr: &AwaitExpr)
        requires
            old(parser).wf(),
        ensures
            final(parser).wf(),
            state_extends(final(parser)@, old(parser)@),
            self.plugins@.len() == 0 ==> *final(parser) == *old(parser),
    {
        let n = self.plugins.len();
        let mut i: usize = 0;
        while i < n
            invariant
                i <= n,
                parser.wf(),
                n == self.plugins.len(),
                state_extends(parser@, old(parser)@),
                i == 0 ==> *parser == *old(parser),
            decreases n - i,
        {
            self.plugins[i].top_level_await_expr(parser, expr);
            i = i + 1;
        }
    }

    /// Dispatches `top_level_for_of_await_stmt` to every plugin in registration order,
    /// unconditionally: side-effect hooks never short-circuit.
    pub fn top_level_for_of_await_stmt(&self, parser: &mut JavascriptParser, stmt: &ForOfStmt)
        requires
            old(parser).wf(),
        ensures
            final(parser).wf(),
            state_extends(final(parser)@, old(parser)@),
            self.plugins@.len() == 0 ==> *final(parser) == *old(parser),
    {
        let n = self.plugins.len();
        let mut i: usize = 0;
        while i < n
            invariant
                i <= n,
                parser.wf(),
                n == self.plugins.len(),
                state_extends(parser@, old(parser)@),
                i == 0 ==> *parser == *old(parser),
            decreases n - i,
        {
            self.plugins[i].top_level_for_of_await_stmt(parser, stmt);
            i = i + 1;
        }
    }

    /// Dispatches `evaluate_typeof`; the first plugin producing a value
    /// wins.  The ignored-span set is untouched whatever the plugins answer.
    pub fn evaluate_typeof(
        &self,
        parser: &mut JavascriptParser,
        ident: &Ident,
        start: u32,
        end: u32,
    ) -> (r: Option<BasicEvaluatedExpression>)
        requires
            old(parser).wf(),
        ensures
            final(parser).wf(),
            state_extends(final(parser)@, old(parser)@),
            final(parser)@.ignored == old(parser)@.ignored,
            r matches Some(e) ==> e.span == (crate::ast::Span { lo: start, hi: end }),
            self.plugins@.len() == 0 ==> r is None && *final(parser) == *old(parser),
    {
        let n = self.plugins.len();
        let mut i: usize = 0;
        while i < n
            invariant
                i <= n,
                parser.wf(),
                n == self.plugins.len(),
                state_extends(parser@, old(parser)@),
                parser@.ignored == old(parser)@.ignored,
                i == 0 ==> *parser == *old(parser),
            decreases n - i,
        {
            let r = self.plugins[i].evaluate_typeof(parser, ident, start, end);
            if r.is_some() {
                return r;
            }
            i = i + 1;
        }
        None
    }
}

} // verus!
