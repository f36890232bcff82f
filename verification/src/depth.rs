//! The depth of a tree: how far its nodes stand inside one another.
//!
//! A literal and a simple name have depth 1. A path is one deeper than the
//! deepest of its head and its keys, a call one deeper than the deepest of
//! its callee and its arguments, a function one deeper than the deepest
//! statement of its body. A statement is as deep as the deepest of its
//! parts, where a block counts one more than its deepest statement.
//!
//! Every function that walks a tree, the lowering among them, calls itself
//! once or a fixed number of times for each level of this depth, and so do
//! copying, comparing and dropping a tree. A tree that was read from text
//! is no deeper than the depth it was read within allows. A tree that was
//! built by hand is as deep as it was built: `deeper_than` tells, without
//! going deeper into it than the limit, whether a tree is within a limit.

use vstd::prelude::*;
use crate::token::{
    exprs_view, function_defs_view, value_view, values_view, Expr, ExprView, FunctionDef,
    FunctionDefView, Name, NameView, StructDefView, Suite, Value, ValueView,
};

verus! {

/// The larger of two numbers.
pub open spec fn larger(a: nat, b: nat) -> nat {
    if a >= b {
        a
    } else {
        b
    }
}

/// The largest of `heights`; 0 where there are none.
pub open spec fn peak(heights: Seq<nat>) -> nat
    decreases heights.len(),
{
    if heights.len() == 0 {
        0
    } else {
        larger(peak(heights.drop_last()), heights.last())
    }
}

/// None of `heights` is above their peak.
pub proof fn lemma_peak_is_above(heights: Seq<nat>, i: int)
    requires
        0 <= i < heights.len(),
    ensures
        heights[i] <= peak(heights),
    decreases heights.len(),
{
    if i < heights.len() - 1 {
        lemma_peak_is_above(heights.drop_last(), i);
    }
}

/// The peak of the first `n + 1` is the larger of the peak of the first `n`
/// and the height at `n`.
pub proof fn lemma_peak_take(heights: Seq<nat>, n: int)
    requires
        0 <= n < heights.len(),
    ensures
        peak(heights.take(n + 1)) == larger(peak(heights.take(n)), heights[n]),
{
    assert(heights.take(n + 1).drop_last() =~= heights.take(n));
}

/// The peak with one more height in front is the larger of that height and
/// the peak of the others.
pub proof fn lemma_peak_prepend(first: nat, rest: Seq<nat>)
    ensures
        peak(seq![first] + rest) == larger(first, peak(rest)),
    decreases rest.len(),
{
    let all = seq![first] + rest;
    if rest.len() == 0 {
        assert(all.drop_last() =~= Seq::<nat>::empty());
        assert(peak(all.drop_last()) == 0);
        assert(all.last() == first);
        assert(peak(rest) == 0);
    } else {
        assert(all.drop_last() =~= seq![first] + rest.drop_last());
        assert(all.last() == rest.last());
        lemma_peak_prepend(first, rest.drop_last());
        assert(peak(all.drop_last()) == larger(first, peak(rest.drop_last())));
        assert(peak(rest) == larger(peak(rest.drop_last()), rest.last()));
        assert(peak(all) == larger(peak(all.drop_last()), all.last()));
    }
}

/// The depth of a value.
pub open spec fn value_depth(value: ValueView) -> nat
    decreases value, 0nat,
{
    match value {
        ValueView::Name(name) => name_depth(name),
        ValueView::Literal(_) => 1,
        ValueView::FnCall(callee, arguments) => 1 + larger(
            value_depth(*callee),
            values_depth(arguments),
        ),
        ValueView::Function(function) => 1 + suite_depth(function.body),
    }
}

/// The depths of the values of `values`.
pub open spec fn values_depths(values: Seq<ValueView>) -> Seq<nat>
    decreases values, 0nat,
{
    Seq::new(
        values.len(),
        |i: int|
            if 0 <= i < values.len() {
                value_depth(values[i])
            } else {
                arbitrary()
            },
    )
}

/// The depth of the deepest value of `values`.
pub open spec fn values_depth(values: Seq<ValueView>) -> nat
    decreases values, 1nat,
{
    peak(values_depths(values))
}

/// The depth of a name.
pub open spec fn name_depth(name: NameView) -> nat
    decreases name, 0nat,
{
    match name {
        NameView::Name(_) => 1,
        NameView::DotName(head, _) => 1 + value_depth(*head),
        NameView::IndexName(head, keys) => 1 + larger(value_depth(*head), values_depth(keys)),
    }
}

/// The depth of a named function: that of its name, or one more than that
/// of its body.
pub open spec fn function_def_depth(def: FunctionDefView) -> nat
    decreases def, 2nat,
{
    larger(name_depth(def.name), 1 + suite_depth(def.function.body))
}

/// The depths of the named functions of `defs`.
pub open spec fn function_defs_depths(defs: Seq<FunctionDefView>) -> Seq<nat>
    decreases defs, 0nat,
{
    Seq::new(
        defs.len(),
        |i: int|
            if 0 <= i < defs.len() {
                function_def_depth(defs[i])
            } else {
                arbitrary()
            },
    )
}

/// The depth of a class: that of its name, or one more than that of its
/// deepest method.
pub open spec fn struct_def_depth(def: StructDefView) -> nat
    decreases def, 1nat,
{
    larger(name_depth(def.name), 1 + peak(function_defs_depths(def.methods)))
}

/// The depth of a statement.
pub open spec fn expr_depth(statement: ExprView) -> nat
    decreases statement, 3nat,
{
    match statement {
        ExprView::Assignment(name, value) => larger(name_depth(name), value_depth(value)),
        ExprView::ForLoop { counter, element, list, body } => larger(
            value_depth(list),
            1 + suite_depth(body),
        ),
        ExprView::WhileLoop(condition, body) => larger(
            value_depth(condition),
            1 + suite_depth(body),
        ),
        ExprView::IfThenElse(condition, then_body, else_body) => larger(
            value_depth(condition),
            1 + larger(suite_depth(then_body), suite_depth(else_body)),
        ),
        ExprView::FunctionDef(def) => function_def_depth(def),
        ExprView::StructDef(def) => struct_def_depth(def),
        ExprView::Value(value) => value_depth(value),
    }
}

/// The depths of the statements of `statements`.
pub open spec fn exprs_depths(statements: Seq<ExprView>) -> Seq<nat>
    decreases statements, 0nat,
{
    Seq::new(
        statements.len(),
        |i: int|
            if 0 <= i < statements.len() {
                expr_depth(statements[i])
            } else {
                arbitrary()
            },
    )
}

/// The depth of the deepest statement of a block; 0 for an empty block.
pub open spec fn suite_depth(statements: Seq<ExprView>) -> nat
    decreases statements, 1nat,
{
    peak(exprs_depths(statements))
}

/// Tells whether a value is deeper than `limit`, going no deeper into it
/// than `limit`.
pub fn value_deeper_than(value: &Value, limit: usize) -> (deeper: bool)
    ensures
        deeper == (value_depth(value@) > limit),
    decreases value, 0nat,
{
    proof {
        reveal_with_fuel(value_view, 2);
        reveal_with_fuel(value_depth, 2);
    }
    match value {
        Value::Name(name) => name_deeper_than(name, limit),
        Value::Literal(_) => limit == 0,
        Value::FnCall(call) => limit == 0 || value_deeper_than(&call.0, limit - 1)
            || values_deeper_than(&call.1, limit - 1),
        Value::Function(function) => limit == 0 || suite_deeper_than(&function.1, limit - 1),
    }
}

/// Tells whether one of `values` is deeper than `limit`.
pub fn values_deeper_than(values: &Vec<Value>, limit: usize) -> (deeper: bool)
    ensures
        deeper == (values_depth(values_view(values@)) > limit),
    decreases values, 1nat,
{
    let ghost heights = values_depths(values_view(values@));
    let mut i: usize = 0;
    while i < values.len()
        invariant
            i <= values.len(),
            heights == values_depths(values_view(values@)),
            peak(heights.take(i as int)) <= limit,
        decreases values.len() - i,
    {
        assert(heights[i as int] == value_depth(values[i as int]@));
        if value_deeper_than(&values[i], limit) {
            proof {
                lemma_peak_is_above(heights, i as int);
            }
            return true;
        }
        proof {
            lemma_peak_take(heights, i as int);
        }
        i += 1;
    }
    assert(heights.take(values.len() as int) =~= heights);
    false
}

/// Tells whether a name is deeper than `limit`.
pub fn name_deeper_than(name: &Name, limit: usize) -> (deeper: bool)
    ensures
        deeper == (name_depth(name@) > limit),
    decreases name, 0nat,
{
    match name {
        Name::Name(_) => limit == 0,
        Name::DotName(head, _) => limit == 0 || value_deeper_than(head, limit - 1),
        Name::IndexName(head, keys) => limit == 0 || value_deeper_than(head, limit - 1)
            || values_deeper_than(keys, limit - 1),
    }
}

/// Tells whether a named function is deeper than `limit`.
pub fn function_def_deeper_than(def: &FunctionDef, limit: usize) -> (deeper: bool)
    ensures
        deeper == (function_def_depth(def@) > limit),
    decreases def, 2nat,
{
    name_deeper_than(&def.0, limit) || limit == 0 || suite_deeper_than(&def.1.1, limit - 1)
}

/// Tells whether one of the named functions `defs` is deeper than `limit`.
pub fn function_defs_deeper_than(defs: &Vec<FunctionDef>, limit: usize) -> (deeper: bool)
    ensures
        deeper == (peak(function_defs_depths(function_defs_view(defs@))) > limit),
    decreases defs, 3nat,
{
    let ghost heights = function_defs_depths(function_defs_view(defs@));
    let mut i: usize = 0;
    while i < defs.len()
        invariant
            i <= defs.len(),
            heights == function_defs_depths(function_defs_view(defs@)),
            peak(heights.take(i as int)) <= limit,
        decreases defs.len() - i,
    {
        assert(heights[i as int] == function_def_depth(defs[i as int]@));
        if function_def_deeper_than(&defs[i], limit) {
            proof {
                lemma_peak_is_above(heights, i as int);
            }
            return true;
        }
        proof {
            lemma_peak_take(heights, i as int);
        }
        i += 1;
    }
    assert(heights.take(defs.len() as int) =~= heights);
    false
}

/// Tells whether a statement is deeper than `limit`.
pub fn expr_deeper_than(statement: &Expr, limit: usize) -> (deeper: bool)
    ensures
        deeper == (expr_depth(statement@) > limit),
    decreases statement, 4nat,
{
    match statement {
        Expr::Assignment(name, value) => name_deeper_than(name, limit) || value_deeper_than(
            value,
            limit,
        ),
        Expr::ForLoop { counter, element, list, body } => value_deeper_than(list, limit) || limit
            == 0 || suite_deeper_than(body, limit - 1),
        Expr::WhileLoop(condition, body) => value_deeper_than(condition, limit) || limit == 0
            || suite_deeper_than(body, limit - 1),
        Expr::IfThenElse(condition, then_body, else_body) => value_deeper_than(condition, limit)
            || limit == 0 || suite_deeper_than(then_body, limit - 1) || suite_deeper_than(
            else_body,
            limit - 1,
        ),
        Expr::FunctionDef(def) => function_def_deeper_than(def, limit),
        Expr::StructDef(def) => name_deeper_than(&def.0, limit) || limit == 0
            || function_defs_deeper_than(&def.1, limit - 1),
        Expr::Value(value) => value_deeper_than(value, limit),
    }
}

/// Tells whether a statement of a block is deeper than `limit`.
pub fn suite_deeper_than(suite: &Suite, limit: usize) -> (deeper: bool)
    ensures
        deeper == (suite_depth(suite@) > limit),
    decreases suite, 0nat,
{
    let ghost heights = exprs_depths(exprs_view(suite.0@));
    let mut i: usize = 0;
    while i < suite.0.len()
        invariant
            i <= suite.0.len(),
            heights == exprs_depths(exprs_view(suite.0@)),
            peak(heights.take(i as int)) <= limit,
        decreases suite.0.len() - i,
    {
        assert(heights[i as int] == expr_depth(suite.0[i as int]@));
        if expr_deeper_than(&suite.0[i], limit) {
            proof {
                lemma_peak_is_above(heights, i as int);
            }
            return true;
        }
        proof {
            lemma_peak_take(heights, i as int);
        }
        i += 1;
    }
    assert(heights.take(suite.0.len() as int) =~= heights);
    false
}

impl Value {
    /// Tells whether the value is deeper than `limit`.
    pub fn deeper_than(&self, limit: usize) -> (deeper: bool)
        ensures
            deeper == (value_depth(self@) > limit),
    {
        value_deeper_than(self, limit)
    }
}

impl Expr {
    /// Tells whether the statement is deeper than `limit`.
    pub fn deeper_than(&self, limit: usize) -> (deeper: bool)
        ensures
            deeper == (expr_depth(self@) > limit),
    {
        expr_deeper_than(self, limit)
    }
}

impl Suite {
    /// Tells whether a statement of the block is deeper than `limit`.
    pub fn deeper_than(&self, limit: usize) -> (deeper: bool)
        ensures
            deeper == (suite_depth(self@) > limit),
    {
        suite_deeper_than(self, limit)
    }
}

} // verus!
