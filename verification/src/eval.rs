//! The evaluated-value model: the result of trying to compute an expression
//! at compile time.
//!
//! A value is a compile-time constant only in the literal-value variants
//! (string, number, boolean, regexp, array of constants) — never in the
//! identifier-reference, conditional, template or unknown variants.

use vstd::prelude::*;

use crate::ast::Span;
use crate::scope_info::VariableInfoId;

verus! {

/// How a plugin refers back to the variable a name resolved to: either a
/// bare external name (never locally bound) or the identity of a binding,
/// so that later dispatch re-resolves the binding's current state.
pub enum ExportedVariableInfo {
    Name(String),
    VariableInfo(VariableInfoId),
}

pub enum EvaluatedValue {
    Str(String),
    Num(i64),
    Bool(bool),
    Regexp { exp: String, flags: String },
    /// An array literal whose elements were all evaluated.
    Array(Vec<BasicEvaluatedExpression>),
    /// A statically ambiguous value: the possible evaluated outcomes.
    Conditional(Vec<BasicEvaluatedExpression>),
    /// An expression known to alias a free or tagged variable.
    Identifier { name: String, info: ExportedVariableInfo },
    /// A template literal: its evaluated quasis and expressions in order.
    Template(Vec<BasicEvaluatedExpression>),
    Unknown,
}

/// An evaluated expression result together with the source span it came from.
pub struct BasicEvaluatedExpression {
    pub value: EvaluatedValue,
    pub span: Span,
}

/// True only of literal-value results: string, number, boolean, regexp, or
/// an array all of whose elements are such results.
pub open spec fn value_is_const(v: EvaluatedValue) -> bool
    decreases v,
{
    match v {
        EvaluatedValue::Str(_) => true,
        EvaluatedValue::Num(_) => true,
        EvaluatedValue::Bool(_) => true,
        EvaluatedValue::Regexp { .. } => true,
        EvaluatedValue::Array(items) => forall|i: int|
            0 <= i < items@.len() ==> value_is_const(#[trigger] items@[i].value),
        _ => false,
    }
}

impl BasicEvaluatedExpression {
    /// An unknown result carrying only the source range `[lo, hi)`.
    pub fn with_range(lo: u32, hi: u32) -> (r: BasicEvaluatedExpression)
        ensures
            r.value is Unknown,
            r.span == (Span { lo, hi }),
    {
        BasicEvaluatedExpression { value: EvaluatedValue::Unknown, span: Span { lo, hi } }
    }

    /// Replaces the value by an identifier reference, keeping the range.
    pub fn set_identifier(&mut self, name: String, info: ExportedVariableInfo)
        ensures
            final(self).span == old(self).span,
            final(self).value == (EvaluatedValue::Identifier { name, info }),
    {
        self.value = EvaluatedValue::Identifier { name, info };
    }

    /// Whether this result is a provable compile-time constant.
    #[verifier::loop_isolation(false)]
    pub fn is_compile_time_value(&self) -> (r: bool)
        ensures
            r == value_is_const(self.value),
        decreases self,
    {
        match &self.value {
            EvaluatedValue::Str(_) => true,
            EvaluatedValue::Num(_) => true,
            EvaluatedValue::Bool(_) => true,
            EvaluatedValue::Regexp { .. } => true,
            EvaluatedValue::Array(items) => {
                let n = items.len();
                let mut i: usize = 0;
                while i < n
                    invariant
                        i <= n,
                        n == items@.len(),
                        forall|j: int| 0 <= j < i ==> value_is_const(#[trigger] items@[j].value),
                    decreases n - i,
                {
                    proof {
                        assert(decreases_to!(*self => self.value));
                        assert(decreases_to!(self.value => self.value->Array_0));
                        assert(decreases_to!(self.value->Array_0 => self.value->Array_0@));
                        assert(decreases_to!(self.value->Array_0@ => self.value->Array_0@[i as int]));
                        assert(items@ == self.value->Array_0@);
                    }
                    if !items[i].is_compile_time_value() {
                        return false;
                    }
                    i = i + 1;
                }
                true
            },
            _ => false,
        }
    }
}

} // verus!
