//! A tree that is read is no deeper than the depth allows.
//!
//! Within `depth`, a value that is read is no deeper than `depth + 2`, and
//! neither is a statement, a name or a named function. What stands between
//! brackets was read within one less.

use vstd::prelude::*;
use crate::depth::{
    expr_depth, exprs_depths, function_def_depth, function_defs_depths, larger, lemma_peak_prepend,
    name_depth, peak, struct_def_depth, suite_depth, value_depth, values_depth, values_depths,
};
use crate::grammar::{
    advances, after_symbol, after_word, keyword_at, spec_args, spec_assignment, spec_atom,
    spec_call_args, spec_calls, spec_expr, spec_exprs, spec_fncall, spec_for_loop, spec_function,
    spec_function_def, spec_group, spec_ident, spec_if_then_else, spec_index_name, spec_methods,
    spec_name, spec_operand, spec_program, spec_struct_def, spec_suite, spec_value, spec_while_loop,
    statements_end, symbol_at, Keyword, OperandView, Parsed,
};
use crate::lexer::remaining;
use crate::token::{ExprView, FunctionDefView, NameView, ValueView};

verus! {

/// The deepest value with one more value in front.
proof fn lemma_values_depth_prepend(first: ValueView, rest: Seq<ValueView>)
    ensures
        values_depth(seq![first] + rest) == larger(
            value_depth(first),
            values_depth(rest),
        ),
{
    assert(values_depths(seq![first] + rest) =~= seq![value_depth(first)] + values_depths(rest));
    lemma_peak_prepend(value_depth(first), values_depths(rest));
}

/// The deepest statement with one more statement in front.
proof fn lemma_suite_depth_prepend(first: ExprView, rest: Seq<ExprView>)
    ensures
        suite_depth(seq![first] + rest) == larger(
            expr_depth(first),
            suite_depth(rest),
        ),
{
    assert(exprs_depths(seq![first] + rest) =~= seq![expr_depth(first)] + exprs_depths(rest));
    lemma_peak_prepend(expr_depth(first), exprs_depths(rest));
}

/// The deepest named function with one more in front.
proof fn lemma_function_defs_depth_prepend(first: FunctionDefView, rest: Seq<FunctionDefView>)
    ensures
        peak(function_defs_depths(seq![first] + rest)) == larger(
            function_def_depth(first),
            peak(function_defs_depths(rest)),
        ),
{
    assert(function_defs_depths(seq![first] + rest) =~= seq![function_def_depth(first)]
        + function_defs_depths(rest));
    lemma_peak_prepend(function_def_depth(first), function_defs_depths(rest));
}

/// No values, no statements and no named functions have depth.
proof fn lemma_nothing_has_no_depth()
    ensures
        values_depth(Seq::empty()) == 0,
        suite_depth(Seq::empty()) == 0,
        peak(function_defs_depths(Seq::empty())) == 0,
{
    assert(values_depths(Seq::empty()) =~= Seq::<nat>::empty());
    assert(exprs_depths(Seq::empty()) =~= Seq::<nat>::empty());
    assert(function_defs_depths(Seq::empty()) =~= Seq::<nat>::empty());
}

proof fn lemma_group_depth(s: Seq<char>, pos: int, depth: nat)
    ensures
        spec_group(s, pos, depth) matches Parsed::Done(value, _) ==> value_depth(value) <= depth
            + 1,
    decreases depth, 1nat, remaining(s, pos),
{
    if symbol_at(s, pos, '(') && depth > 0 {
        lemma_value_depth(s, after_symbol(s, pos), (depth - 1) as nat);
    }
}

proof fn lemma_atom_depth(s: Seq<char>, pos: int, depth: nat)
    ensures
        spec_atom(s, pos, depth) matches Parsed::Done(operand, _) ==> value_depth(
            operand.value(),
        ) <= depth + 1,
    decreases depth, 2nat, remaining(s, pos),
{
    lemma_group_depth(s, pos, depth);
    if let Parsed::Done(operand, _) = spec_atom(s, pos, depth) {
        match operand {
            OperandView::Name(name) => {
                assert(name_depth(name) == 1);
            },
            OperandView::Group(value) => {},
            OperandView::Literal(literal) => {},
        }
    }
}

proof fn lemma_index_name_depth(s: Seq<char>, pos: int, depth: nat)
    ensures
        spec_index_name(s, pos, depth) matches Parsed::Done(keys, _) ==> values_depth(keys)
            <= depth + 1,
    decreases depth, 3nat, remaining(s, pos),
{
    lemma_nothing_has_no_depth();
    if symbol_at(s, pos, '[') && depth > 0 {
        lemma_value_depth(s, after_symbol(s, pos), (depth - 1) as nat);
        if let Parsed::Done(key, end) = spec_value(s, after_symbol(s, pos), (depth - 1) as nat) {
            if symbol_at(s, end, ']') && advances(s, pos, after_symbol(s, end)) {
                lemma_index_name_depth(s, after_symbol(s, end), depth);
                if let Parsed::Done(rest, _) = spec_index_name(s, after_symbol(s, end), depth) {
                    lemma_values_depth_prepend(key, rest);
                }
            }
        }
    }
}

proof fn lemma_operand_depth(s: Seq<char>, pos: int, depth: nat)
    ensures
        spec_operand(s, pos, depth) matches Parsed::Done(operand, _) ==> value_depth(
            operand.value(),
        ) <= depth + 2,
    decreases depth, 4nat, remaining(s, pos),
{
    lemma_atom_depth(s, pos, depth);
    if let Parsed::Done(atom, end) = spec_atom(s, pos, depth) {
        lemma_index_name_depth(s, end, depth);
        if let Parsed::Done(operand, _) = spec_operand(s, pos, depth) {
            match operand {
                OperandView::Name(name) => {
                    assert(value_depth(ValueView::Name(name)) == name_depth(name));
                },
                OperandView::Group(value) => {},
                OperandView::Literal(literal) => {},
            }
        }
    }
}

proof fn lemma_name_depth(s: Seq<char>, pos: int, depth: nat)
    ensures
        spec_name(s, pos, depth) matches Parsed::Done(name, _) ==> name_depth(name) <= depth + 2,
    decreases depth, 5nat, remaining(s, pos),
{
    lemma_operand_depth(s, pos, depth);
    if let Parsed::Done(OperandView::Name(name), end) = spec_operand(s, pos, depth) {
        assert(value_depth(ValueView::Name(name)) == name_depth(name));
    }
}

proof fn lemma_call_args_depth(s: Seq<char>, pos: int, depth: nat)
    ensures
        spec_call_args(s, pos, depth) matches Parsed::Done(arguments, _) ==> values_depth(
            arguments,
        ) <= depth + 1,
    decreases depth, 5nat, remaining(s, pos),
{
    lemma_nothing_has_no_depth();
    if !symbol_at(s, pos, ')') && depth > 0 {
        lemma_value_depth(s, pos, (depth - 1) as nat);
        if let Parsed::Done(argument, end) = spec_value(s, pos, (depth - 1) as nat) {
            if symbol_at(s, end, ',') {
                if advances(s, pos, after_symbol(s, end)) {
                    lemma_call_args_depth(s, after_symbol(s, end), depth);
                    if let Parsed::Done(rest, _) = spec_call_args(s, after_symbol(s, end), depth) {
                        lemma_values_depth_prepend(argument, rest);
                    }
                }
            } else if symbol_at(s, end, ')') {
                lemma_values_depth_prepend(argument, Seq::empty());
                assert(seq![argument] + Seq::<ValueView>::empty() =~= seq![argument]);
            }
        }
    }
}

proof fn lemma_calls_depth(s: Seq<char>, callee: ValueView, pos: int, depth: nat)
    requires
        value_depth(callee) <= depth + 2,
    ensures
        spec_calls(s, callee, pos, depth) matches Parsed::Done(value, _) ==> value_depth(value)
            <= depth + 2,
    decreases depth, 6nat, remaining(s, pos),
{
    if symbol_at(s, pos, '(') && value_depth(callee) <= depth {
        lemma_call_args_depth(s, after_symbol(s, pos), depth);
        if let Parsed::Done(arguments, end) = spec_call_args(s, after_symbol(s, pos), depth) {
            if advances(s, pos, end) {
                let call = ValueView::FnCall(Box::new(callee), arguments);
                assert(value_depth(call) <= depth + 2);
                lemma_calls_depth(s, call, end, depth);
            }
        }
    }
}

proof fn lemma_fncall_depth(s: Seq<char>, operand: OperandView, pos: int, depth: nat)
    requires
        value_depth(operand.value()) <= depth + 2,
    ensures
        spec_fncall(s, operand, pos, depth) matches Parsed::Done(value, _) ==> value_depth(value)
            <= depth + 2,
    decreases depth, 7nat, remaining(s, pos),
{
    if !(operand is Literal) {
        lemma_calls_depth(s, operand.value(), pos, depth);
    }
}

proof fn lemma_suite_depth(s: Seq<char>, pos: int, depth: nat)
    ensures
        spec_suite(s, pos, depth) matches Parsed::Done(body, _) ==> suite_depth(body) <= depth
            + 1,
    decreases depth, 6nat, remaining(s, pos),
{
    if symbol_at(s, pos, '{') && depth > 0 {
        lemma_exprs_depth(s, after_symbol(s, pos), (depth - 1) as nat);
    }
}

proof fn lemma_function_depth(s: Seq<char>, pos: int, depth: nat)
    ensures
        spec_function(s, pos, depth) matches Parsed::Done(function, _) ==> suite_depth(
            function.body,
        ) <= depth + 1,
    decreases depth, 7nat, remaining(s, pos),
{
    if symbol_at(s, pos, '(') {
        if let Parsed::Done(params, end) = spec_args(s, after_symbol(s, pos)) {
            lemma_suite_depth(s, end, depth);
        }
    }
}

proof fn lemma_value_depth(s: Seq<char>, pos: int, depth: nat)
    ensures
        spec_value(s, pos, depth) matches Parsed::Done(value, _) ==> value_depth(value) <= depth
            + 2,
    decreases depth, 8nat, remaining(s, pos),
{
    if keyword_at(s, pos) == Some(Keyword::Fn) {
        lemma_function_depth(s, after_word(s, pos), depth);
    } else {
        lemma_operand_depth(s, pos, depth);
        if let Parsed::Done(operand, end) = spec_operand(s, pos, depth) {
            lemma_fncall_depth(s, operand, end, depth);
        }
    }
}

proof fn lemma_function_def_depth(s: Seq<char>, pos: int, depth: nat)
    ensures
        spec_function_def(s, pos, depth) matches Parsed::Done(def, _) ==> function_def_depth(def)
            <= depth + 2,
    decreases depth, 9nat, remaining(s, pos),
{
    lemma_name_depth(s, pos, depth);
    if let Parsed::Done(name, end) = spec_name(s, pos, depth) {
        lemma_function_depth(s, end, depth);
    }
}

proof fn lemma_methods_depth(s: Seq<char>, pos: int, depth: nat)
    ensures
        spec_methods(s, pos, depth) matches Parsed::Done(methods, _) ==> peak(
            function_defs_depths(methods),
        ) <= depth + 2,
    decreases depth, 10nat, remaining(s, pos),
{
    lemma_nothing_has_no_depth();
    if keyword_at(s, pos) == Some(Keyword::Fn) {
        lemma_function_def_depth(s, after_word(s, pos), depth);
        if let Parsed::Done(method, end) = spec_function_def(s, after_word(s, pos), depth) {
            if advances(s, pos, end) {
                lemma_methods_depth(s, end, depth);
                if let Parsed::Done(rest, _) = spec_methods(s, end, depth) {
                    lemma_function_defs_depth_prepend(method, rest);
                }
            }
        }
    }
}

proof fn lemma_struct_def_depth(s: Seq<char>, pos: int, depth: nat)
    ensures
        spec_struct_def(s, pos, depth) matches Parsed::Done(def, _) ==> struct_def_depth(def)
            <= depth + 2,
    decreases depth, 11nat, remaining(s, pos),
{
    lemma_name_depth(s, pos, depth);
    if let Parsed::Done(name, end) = spec_name(s, pos, depth) {
        if symbol_at(s, end, '{') && depth > 0 {
            lemma_methods_depth(s, after_symbol(s, end), (depth - 1) as nat);
        }
    }
}

proof fn lemma_while_loop_depth(s: Seq<char>, pos: int, depth: nat)
    ensures
        spec_while_loop(s, pos, depth) matches Parsed::Done(statement, _) ==> expr_depth(
            statement,
        ) <= depth + 2,
    decreases depth, 11nat, remaining(s, pos),
{
    lemma_value_depth(s, pos, depth);
    if let Parsed::Done(condition, end) = spec_value(s, pos, depth) {
        lemma_suite_depth(s, end, depth);
    }
}

proof fn lemma_for_loop_depth(s: Seq<char>, pos: int, depth: nat)
    ensures
        spec_for_loop(s, pos, depth) matches Parsed::Done(statement, _) ==> expr_depth(statement)
            <= depth + 2,
    decreases depth, 11nat, remaining(s, pos),
{
    if let Parsed::Done(counter, end) = spec_ident(s, pos) {
        if symbol_at(s, end, ',') {
            if let Parsed::Done(element, end) = spec_ident(
                s,
                after_symbol(s, end),
            ) {
                if keyword_at(s, end) == Some(Keyword::In) {
                    lemma_value_depth(s, after_word(s, end), depth);
                    if let Parsed::Done(list, end) = spec_value(s, after_word(s, end), depth) {
                        lemma_suite_depth(s, end, depth);
                    }
                }
            }
        }
    }
}

proof fn lemma_if_then_else_depth(s: Seq<char>, pos: int, depth: nat)
    ensures
        spec_if_then_else(s, pos, depth) matches Parsed::Done(statement, _) ==> expr_depth(
            statement,
        ) <= depth + 2,
    decreases depth, 11nat, remaining(s, pos),
{
    lemma_nothing_has_no_depth();
    lemma_value_depth(s, pos, depth);
    if let Parsed::Done(condition, end) = spec_value(s, pos, depth) {
        lemma_suite_depth(s, end, depth);
        if let Parsed::Done(then_body, end) = spec_suite(s, end, depth) {
            if keyword_at(s, end) == Some(Keyword::Else) {
                lemma_suite_depth(s, after_word(s, end), depth);
            }
        }
    }
}

proof fn lemma_assignment_depth(s: Seq<char>, name: NameView, pos: int, depth: nat)
    requires
        name_depth(name) <= depth + 2,
    ensures
        spec_assignment(s, name, pos, depth) matches Parsed::Done(statement, _) ==> expr_depth(
            statement,
        ) <= depth + 2,
    decreases depth, 11nat, remaining(s, pos),
{
    lemma_value_depth(s, pos, depth);
}

proof fn lemma_expr_depth(s: Seq<char>, pos: int, depth: nat)
    ensures
        spec_expr(s, pos, depth) matches Parsed::Done(statement, _) ==> expr_depth(statement)
            <= depth + 2,
    decreases depth, 12nat, remaining(s, pos),
{
    let word = keyword_at(s, pos);
    let behind = after_word(s, pos);
    if word == Some(Keyword::Class) {
        lemma_struct_def_depth(s, behind, depth);
    } else if word == Some(Keyword::Fn) && !symbol_at(s, behind, '(') {
        lemma_function_def_depth(s, behind, depth);
    } else if word == Some(Keyword::While) {
        lemma_while_loop_depth(s, behind, depth);
    } else if word == Some(Keyword::For) {
        lemma_for_loop_depth(s, behind, depth);
    } else if word == Some(Keyword::If) {
        lemma_if_then_else_depth(s, behind, depth);
    } else if word == Some(Keyword::Fn) {
        lemma_value_depth(s, pos, depth);
    } else {
        lemma_operand_depth(s, pos, depth);
        if let Parsed::Done(operand, end) = spec_operand(s, pos, depth) {
            match operand {
                OperandView::Name(name) => {
                    assert(value_depth(ValueView::Name(name)) == name_depth(name));
                    if symbol_at(s, end, '=') {
                        lemma_assignment_depth(s, name, after_symbol(s, end), depth);
                    }
                },
                _ => {},
            }
            lemma_fncall_depth(s, operand, end, depth);
        }
    }
}

proof fn lemma_exprs_depth(s: Seq<char>, pos: int, depth: nat)
    ensures
        spec_exprs(s, pos, depth) matches Parsed::Done(statements, _) ==> suite_depth(statements)
            <= depth + 2,
    decreases depth, 13nat, remaining(s, pos),
{
    lemma_nothing_has_no_depth();
    if !statements_end(s, pos) {
        lemma_expr_depth(s, pos, depth);
        if let Parsed::Done(statement, end) = spec_expr(s, pos, depth) {
            if advances(s, pos, end) {
                lemma_exprs_depth(s, end, depth);
                if let Parsed::Done(rest, _) = spec_exprs(s, end, depth) {
                    lemma_suite_depth_prepend(statement, rest);
                }
            }
        }
    }
}

/// A value that is read within `depth` is no deeper than `depth + 2`.
pub proof fn lemma_value_is_within_depth(s: Seq<char>, pos: int, depth: nat)
    ensures
        spec_value(s, pos, depth) matches Parsed::Done(value, _) ==> value_depth(value) <= depth
            + 2,
{
    lemma_value_depth(s, pos, depth);
}

/// A statement that is read within `depth` is no deeper than `depth + 2`.
pub proof fn lemma_expr_is_within_depth(s: Seq<char>, pos: int, depth: nat)
    ensures
        spec_expr(s, pos, depth) matches Parsed::Done(statement, _) ==> expr_depth(statement)
            <= depth + 2,
{
    lemma_expr_depth(s, pos, depth);
}

/// A program that is read within `depth` is no deeper than `depth + 2`:
/// whatever the length of the source, of its chains of calls and of its
/// paths, nothing that walks the tree goes deeper into it than that.
pub proof fn lemma_program_is_within_depth(s: Seq<char>, depth: nat)
    ensures
        spec_program(s, depth) matches Parsed::Done(statements, _) ==> suite_depth(statements)
            <= depth + 2,
{
    lemma_exprs_depth(s, 0, depth);
}

/// A chain of calls is no longer than the depth: a call that is read within
/// `depth` has a callee no deeper than `depth`.
pub proof fn lemma_call_is_within_depth(s: Seq<char>, callee: ValueView, pos: int, depth: nat)
    ensures
        symbol_at(s, pos, '(') && value_depth(callee) > depth ==> spec_calls(s, callee, pos, depth)
            is Failed,
{
}

} // verus!
