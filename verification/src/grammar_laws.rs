//! What holds of every reading of a source text.
//!
//! Every construct that is read ends further along the source than it began
//! and within it, every failure lies between the place where reading began
//! and the end of the source, and every tree that is read is well formed.

use vstd::prelude::*;
use crate::grammar::{
    advances, after_semicolon, after_symbol, after_word, keyword_at, keyword_of, spec_args,
    spec_assignment, spec_atom, spec_call_args, spec_calls, spec_dot_ident, spec_expr, spec_exprs,
    spec_fncall, spec_for_loop, spec_foreign_function_literal, spec_function, spec_function_def,
    spec_group, spec_ident, spec_if_then_else, spec_index_name, spec_literal, spec_methods,
    spec_name, spec_number_literal, spec_operand, spec_program, spec_string_literal,
    spec_struct_def, spec_suite, spec_value, spec_while_loop, statements_end, symbol_at, word_at,
    Keyword, OperandView, Parsed,
};
use crate::layout::closes_behind;
use crate::lexer::{
    lemma_number_len_bound, lemma_string_ends_at_quote, lemma_string_len_bound,
    lemma_string_len_local, lemma_token_start_bound, lemma_word_len_bound, number_starts, remaining,
    string_len, token_start, word_len,
};
use crate::token::{
    expr_well_formed, function_def_well_formed, function_defs_well_formed, function_well_formed,
    name_well_formed, struct_def_well_formed, suite_well_formed, value_well_formed,
    values_well_formed, ExprView, LiteralView, NameView, ValueView,
};

verus! {

/// Whether a reading that began at `pos` ended further along and within the
/// source, or failed between `pos` and the end of the source.
pub open spec fn moves_on<T>(parsed: Parsed<T>, s: Seq<char>, pos: int) -> bool {
    match parsed {
        Parsed::Done(_, end) => pos < end <= s.len(),
        Parsed::Failed(at, _) => pos <= at <= s.len(),
    }
}

/// Whether a reading that began at `pos` ended at `pos` or further along
/// and within the source, or failed between `pos` and the end of the source.
pub open spec fn stays_within<T>(parsed: Parsed<T>, s: Seq<char>, pos: int) -> bool {
    match parsed {
        Parsed::Done(_, end) => pos <= end <= s.len(),
        Parsed::Failed(at, _) => pos <= at <= s.len(),
    }
}

/// Whether an operand is well formed.
pub open spec fn operand_well_formed(operand: OperandView) -> bool {
    value_well_formed(operand.value())
}

/// A token starts within the source, and so does what stands behind a
/// character that was found.
pub proof fn lemma_symbol_within(s: Seq<char>, pos: int, c: char)
    requires
        0 <= pos <= s.len(),
    ensures
        pos <= token_start(s, pos) <= s.len(),
        symbol_at(s, pos, c) ==> pos < after_symbol(s, pos) <= s.len(),
{
    lemma_token_start_bound(s, pos);
}

/// A word ends within the source, and a keyword has characters.
pub proof fn lemma_word_within(s: Seq<char>, pos: int)
    requires
        0 <= pos <= s.len(),
    ensures
        pos <= token_start(s, pos) <= after_word(s, pos) <= s.len(),
        keyword_at(s, pos) is Some ==> pos < after_word(s, pos),
{
    lemma_token_start_bound(s, pos);
    lemma_word_len_bound(s, token_start(s, pos));
    reveal(keyword_of);
    if keyword_at(s, pos) is Some {
        assert(keyword_at(s, pos)->0.text().len() > 0);
        assert(word_at(s, pos).len() == word_len(s, token_start(s, pos)));
    }
}

/// An optional semicolon ends within the source.
pub proof fn lemma_semicolon_within(s: Seq<char>, pos: int)
    requires
        0 <= pos <= s.len(),
    ensures
        pos <= after_semicolon(s, pos) <= s.len(),
{
    lemma_symbol_within(s, pos, ';');
}

/// An identifier that is read has characters.
pub proof fn lemma_ident_moves_on(s: Seq<char>, pos: int)
    requires
        0 <= pos <= s.len(),
    ensures
        moves_on(spec_ident(s, pos), s, pos),
{
    lemma_word_within(s, pos);
}

/// A literal that is read has characters.
pub proof fn lemma_literal_moves_on(s: Seq<char>, pos: int)
    requires
        0 <= pos <= s.len(),
    ensures
        moves_on(spec_literal(s, pos), s, pos),
        moves_on(spec_string_literal(s, pos), s, pos),
        moves_on(spec_number_literal(s, pos), s, pos),
        moves_on(spec_foreign_function_literal(s, pos), s, pos),
{
    lemma_token_start_bound(s, pos);
    let start = token_start(s, pos);
    if start < s.len() {
        lemma_string_len_bound(s, start + 1);
        lemma_word_len_bound(s, start + 1);
        if number_starts(s, start) {
            lemma_number_len_bound(s, start);
        }
    }
}

/// The segments of a dotted path end within the source, and behind a point
/// there is at least one.
pub proof fn lemma_dot_ident_within(s: Seq<char>, pos: int)
    requires
        0 <= pos <= s.len(),
    ensures
        stays_within(spec_dot_ident(s, pos), s, pos),
        symbol_at(s, pos, '.') ==> (spec_dot_ident(s, pos) matches Parsed::Done(segments, _)
            ==> segments.len() > 0),
    decreases remaining(s, pos),
{
    lemma_symbol_within(s, pos, '.');
    if symbol_at(s, pos, '.') {
        lemma_ident_moves_on(s, after_symbol(s, pos));
        if let Parsed::Done(segment, end) = spec_ident(s, after_symbol(s, pos)) {
            lemma_dot_ident_within(s, end);
        }
    }
}

/// The parameters of a function end behind their closing bracket.
pub proof fn lemma_args_moves_on(s: Seq<char>, pos: int)
    requires
        0 <= pos <= s.len(),
    ensures
        moves_on(spec_args(s, pos), s, pos),
    decreases remaining(s, pos),
{
    lemma_symbol_within(s, pos, ')');
    if !symbol_at(s, pos, ')') {
        lemma_ident_moves_on(s, pos);
        if let Parsed::Done(parameter, end) = spec_ident(s, pos) {
            lemma_symbol_within(s, end, ',');
            lemma_symbol_within(s, end, ')');
            if symbol_at(s, end, ',') {
                lemma_args_moves_on(s, after_symbol(s, end));
            }
        }
    }
}

proof fn lemma_group(s: Seq<char>, pos: int, depth: nat)
    requires
        0 <= pos <= s.len(),
    ensures
        moves_on(spec_group(s, pos, depth), s, pos),
        spec_group(s, pos, depth) matches Parsed::Done(value, _) ==> value_well_formed(value),
    decreases depth, 1nat, remaining(s, pos),
{
    lemma_symbol_within(s, pos, '(');
    if symbol_at(s, pos, '(') && depth > 0 {
        lemma_value(s, after_symbol(s, pos), (depth - 1) as nat);
        if let Parsed::Done(value, end) = spec_value(s, after_symbol(s, pos), (depth - 1) as nat) {
            lemma_symbol_within(s, end, ')');
        }
    }
}

proof fn lemma_atom(s: Seq<char>, pos: int, depth: nat)
    requires
        0 <= pos <= s.len(),
    ensures
        moves_on(spec_atom(s, pos, depth), s, pos),
        spec_atom(s, pos, depth) matches Parsed::Done(operand, _) ==> operand_well_formed(operand),
    decreases depth, 2nat, remaining(s, pos),
{
    lemma_token_start_bound(s, pos);
    lemma_group(s, pos, depth);
    lemma_ident_moves_on(s, pos);
    lemma_literal_moves_on(s, pos);
    if let Parsed::Done(operand, end) = spec_atom(s, pos, depth) {
        match operand {
            OperandView::Name(name) => {
                assert(name_well_formed(name));
            },
            OperandView::Group(value) => {},
            OperandView::Literal(literal) => {},
        }
    }
}

proof fn lemma_index_name(s: Seq<char>, pos: int, depth: nat)
    requires
        0 <= pos <= s.len(),
    ensures
        stays_within(spec_index_name(s, pos, depth), s, pos),
        spec_index_name(s, pos, depth) matches Parsed::Done(keys, _) ==> values_well_formed(keys)
            && (symbol_at(s, pos, '[') ==> keys.len() > 0),
    decreases depth, 3nat, remaining(s, pos),
{
    lemma_symbol_within(s, pos, '[');
    if symbol_at(s, pos, '[') && depth > 0 {
        lemma_value(s, after_symbol(s, pos), (depth - 1) as nat);
        if let Parsed::Done(key, end) = spec_value(s, after_symbol(s, pos), (depth - 1) as nat) {
            lemma_symbol_within(s, end, ']');
            if symbol_at(s, end, ']') {
                lemma_index_name(s, after_symbol(s, end), depth);
                if let Parsed::Done(rest, _) = spec_index_name(s, after_symbol(s, end), depth) {
                    lemma_prepend_well_formed(key, rest);
                }
            }
        }
    } else if !symbol_at(s, pos, '[') {
        assert(values_well_formed(Seq::empty()));
    }
}

/// A well-formed value before well-formed values.
proof fn lemma_prepend_well_formed(first: ValueView, rest: Seq<ValueView>)
    requires
        value_well_formed(first),
        values_well_formed(rest),
    ensures
        values_well_formed(seq![first] + rest),
        (seq![first] + rest).len() > 0,
{
    let all = seq![first] + rest;
    assert forall|i: int| 0 <= i < all.len() implies value_well_formed(#[trigger] all[i]) by {
        if i > 0 {
            assert(all[i] == rest[i - 1]);
        }
    }
}

proof fn lemma_operand(s: Seq<char>, pos: int, depth: nat)
    requires
        0 <= pos <= s.len(),
    ensures
        moves_on(spec_operand(s, pos, depth), s, pos),
        spec_operand(s, pos, depth) matches Parsed::Done(operand, _) ==> operand_well_formed(
            operand,
        ),
    decreases depth, 4nat, remaining(s, pos),
{
    lemma_atom(s, pos, depth);
    if let Parsed::Done(atom, end) = spec_atom(s, pos, depth) {
        lemma_symbol_within(s, end, '.');
        lemma_dot_ident_within(s, end);
        lemma_index_name(s, end, depth);
        if let Parsed::Done(operand, _) = spec_operand(s, pos, depth) {
            match operand {
                OperandView::Name(name) => {
                    assert(name_well_formed(name));
                },
                OperandView::Group(value) => {},
                OperandView::Literal(literal) => {},
            }
        }
    }
}

proof fn lemma_name(s: Seq<char>, pos: int, depth: nat)
    requires
        0 <= pos <= s.len(),
    ensures
        moves_on(spec_name(s, pos, depth), s, pos),
        spec_name(s, pos, depth) matches Parsed::Done(name, _) ==> name_well_formed(name),
    decreases depth, 5nat, remaining(s, pos),
{
    lemma_operand(s, pos, depth);
    lemma_token_start_bound(s, pos);
    if let Parsed::Done(OperandView::Name(name), end) = spec_operand(s, pos, depth) {
        assert(value_well_formed(ValueView::Name(name)));
    }
}

proof fn lemma_call_args(s: Seq<char>, pos: int, depth: nat)
    requires
        0 <= pos <= s.len(),
    ensures
        moves_on(spec_call_args(s, pos, depth), s, pos),
        spec_call_args(s, pos, depth) matches Parsed::Done(arguments, _) ==> values_well_formed(
            arguments,
        ),
    decreases depth, 5nat, remaining(s, pos),
{
    lemma_symbol_within(s, pos, ')');
    if symbol_at(s, pos, ')') {
        assert(values_well_formed(Seq::empty()));
    } else if depth > 0 {
        lemma_value(s, pos, (depth - 1) as nat);
        if let Parsed::Done(argument, end) = spec_value(s, pos, (depth - 1) as nat) {
            lemma_symbol_within(s, end, ',');
            lemma_symbol_within(s, end, ')');
            if symbol_at(s, end, ',') {
                lemma_call_args(s, after_symbol(s, end), depth);
                if let Parsed::Done(rest, _) = spec_call_args(s, after_symbol(s, end), depth) {
                    lemma_prepend_well_formed(argument, rest);
                }
            } else if symbol_at(s, end, ')') {
                assert(values_well_formed(Seq::empty()));
                lemma_prepend_well_formed(argument, Seq::empty());
                assert(seq![argument] + Seq::<ValueView>::empty() =~= seq![argument]);
            }
        }
    }
}

proof fn lemma_calls(s: Seq<char>, callee: ValueView, pos: int, depth: nat)
    requires
        0 <= pos <= s.len(),
        value_well_formed(callee),
    ensures
        stays_within(spec_calls(s, callee, pos, depth), s, pos),
        spec_calls(s, callee, pos, depth) matches Parsed::Done(value, _) ==> value_well_formed(
            value,
        ),
    decreases depth, 6nat, remaining(s, pos),
{
    lemma_symbol_within(s, pos, '(');
    if symbol_at(s, pos, '(') {
        lemma_call_args(s, after_symbol(s, pos), depth);
        if let Parsed::Done(arguments, end) = spec_call_args(s, after_symbol(s, pos), depth) {
            let call = ValueView::FnCall(Box::new(callee), arguments);
            assert(value_well_formed(call));
            lemma_calls(s, call, end, depth);
        }
    }
}

proof fn lemma_fncall(s: Seq<char>, operand: OperandView, pos: int, depth: nat)
    requires
        0 <= pos <= s.len(),
        operand_well_formed(operand),
    ensures
        stays_within(spec_fncall(s, operand, pos, depth), s, pos),
        spec_fncall(s, operand, pos, depth) matches Parsed::Done(value, _) ==> value_well_formed(
            value,
        ),
    decreases depth, 7nat, remaining(s, pos),
{
    if !(operand is Literal) {
        lemma_calls(s, operand.value(), pos, depth);
    }
}

/// The arguments of a call that are read end behind their closing bracket,
/// further along than they began. The test for this in the repetition of
/// calls therefore never fails.
pub proof fn lemma_call_args_reads_well(s: Seq<char>, pos: int, depth: nat)
    requires
        0 <= pos <= s.len(),
    ensures
        moves_on(spec_call_args(s, pos, depth), s, pos),
        spec_call_args(s, pos, depth) matches Parsed::Done(arguments, _) ==> values_well_formed(
            arguments,
        ),
{
    lemma_call_args(s, pos, depth);
}

proof fn lemma_suite(s: Seq<char>, pos: int, depth: nat)
    requires
        0 <= pos <= s.len(),
    ensures
        moves_on(spec_suite(s, pos, depth), s, pos),
        spec_suite(s, pos, depth) matches Parsed::Done(body, _) ==> suite_well_formed(body),
    decreases depth, 6nat, remaining(s, pos),
{
    lemma_symbol_within(s, pos, '{');
    if symbol_at(s, pos, '{') && depth > 0 {
        lemma_exprs(s, after_symbol(s, pos), (depth - 1) as nat);
        if let Parsed::Done(body, end) = spec_exprs(s, after_symbol(s, pos), (depth - 1) as nat) {
            lemma_symbol_within(s, end, '}');
        }
    }
}

proof fn lemma_function(s: Seq<char>, pos: int, depth: nat)
    requires
        0 <= pos <= s.len(),
    ensures
        moves_on(spec_function(s, pos, depth), s, pos),
        spec_function(s, pos, depth) matches Parsed::Done(function, _) ==> function_well_formed(
            function,
        ),
    decreases depth, 7nat, remaining(s, pos),
{
    lemma_symbol_within(s, pos, '(');
    if symbol_at(s, pos, '(') {
        lemma_args_moves_on(s, after_symbol(s, pos));
        if let Parsed::Done(params, end) = spec_args(s, after_symbol(s, pos)) {
            lemma_suite(s, end, depth);
        }
    }
}

proof fn lemma_value(s: Seq<char>, pos: int, depth: nat)
    requires
        0 <= pos <= s.len(),
    ensures
        moves_on(spec_value(s, pos, depth), s, pos),
        spec_value(s, pos, depth) matches Parsed::Done(value, _) ==> value_well_formed(value),
    decreases depth, 8nat, remaining(s, pos),
{
    lemma_word_within(s, pos);
    if keyword_at(s, pos) == Some(Keyword::Fn) {
        lemma_function(s, after_word(s, pos), depth);
    } else {
        lemma_operand(s, pos, depth);
        if let Parsed::Done(operand, end) = spec_operand(s, pos, depth) {
            lemma_fncall(s, operand, end, depth);
        }
    }
}

proof fn lemma_function_def(s: Seq<char>, pos: int, depth: nat)
    requires
        0 <= pos <= s.len(),
    ensures
        moves_on(spec_function_def(s, pos, depth), s, pos),
        spec_function_def(s, pos, depth) matches Parsed::Done(def, _)
            ==> function_def_well_formed(def),
    decreases depth, 9nat, remaining(s, pos),
{
    lemma_name(s, pos, depth);
    if let Parsed::Done(name, end) = spec_name(s, pos, depth) {
        lemma_function(s, end, depth);
    }
}

proof fn lemma_methods(s: Seq<char>, pos: int, depth: nat)
    requires
        0 <= pos <= s.len(),
    ensures
        stays_within(spec_methods(s, pos, depth), s, pos),
        spec_methods(s, pos, depth) matches Parsed::Done(methods, _)
            ==> function_defs_well_formed(methods),
    decreases depth, 10nat, remaining(s, pos),
{
    lemma_word_within(s, pos);
    if keyword_at(s, pos) == Some(Keyword::Fn) {
        lemma_function_def(s, after_word(s, pos), depth);
        if let Parsed::Done(method, end) = spec_function_def(s, after_word(s, pos), depth) {
            lemma_methods(s, end, depth);
            if let Parsed::Done(rest, _) = spec_methods(s, end, depth) {
                let all = seq![method] + rest;
                assert forall|i: int| 0 <= i < all.len() implies function_def_well_formed(
                    #[trigger] all[i],
                ) by {
                    if i > 0 {
                        assert(all[i] == rest[i - 1]);
                    }
                }
            }
        }
    } else {
        assert(function_defs_well_formed(Seq::empty()));
    }
}

proof fn lemma_struct_def(s: Seq<char>, pos: int, depth: nat)
    requires
        0 <= pos <= s.len(),
    ensures
        moves_on(spec_struct_def(s, pos, depth), s, pos),
        spec_struct_def(s, pos, depth) matches Parsed::Done(def, _) ==> struct_def_well_formed(
            def,
        ),
    decreases depth, 11nat, remaining(s, pos),
{
    lemma_name(s, pos, depth);
    if let Parsed::Done(name, end) = spec_name(s, pos, depth) {
        lemma_symbol_within(s, end, '{');
        if symbol_at(s, end, '{') && depth > 0 {
            lemma_methods(s, after_symbol(s, end), (depth - 1) as nat);
            if let Parsed::Done(methods, end) = spec_methods(
                s,
                after_symbol(s, end),
                (depth - 1) as nat,
            ) {
                lemma_symbol_within(s, end, '}');
            }
        }
    }
}

proof fn lemma_while_loop(s: Seq<char>, pos: int, depth: nat)
    requires
        0 <= pos <= s.len(),
    ensures
        moves_on(spec_while_loop(s, pos, depth), s, pos),
        spec_while_loop(s, pos, depth) matches Parsed::Done(statement, _) ==> expr_well_formed(
            statement,
        ),
    decreases depth, 11nat, remaining(s, pos),
{
    lemma_value(s, pos, depth);
    if let Parsed::Done(condition, end) = spec_value(s, pos, depth) {
        lemma_suite(s, end, depth);
    }
}

proof fn lemma_for_loop(s: Seq<char>, pos: int, depth: nat)
    requires
        0 <= pos <= s.len(),
    ensures
        moves_on(spec_for_loop(s, pos, depth), s, pos),
        spec_for_loop(s, pos, depth) matches Parsed::Done(statement, _) ==> expr_well_formed(
            statement,
        ),
    decreases depth, 11nat, remaining(s, pos),
{
    lemma_ident_moves_on(s, pos);
    if let Parsed::Done(counter, end) = spec_ident(s, pos) {
        lemma_symbol_within(s, end, ',');
        if symbol_at(s, end, ',') {
            lemma_ident_moves_on(s, after_symbol(s, end));
            if let Parsed::Done(element, end) = spec_ident(s, after_symbol(s, end)) {
                lemma_word_within(s, end);
                if keyword_at(s, end) == Some(Keyword::In) {
                    lemma_value(s, after_word(s, end), depth);
                    if let Parsed::Done(list, end) = spec_value(s, after_word(s, end), depth) {
                        lemma_suite(s, end, depth);
                    }
                }
            }
        }
    }
}

proof fn lemma_if_then_else(s: Seq<char>, pos: int, depth: nat)
    requires
        0 <= pos <= s.len(),
    ensures
        moves_on(spec_if_then_else(s, pos, depth), s, pos),
        spec_if_then_else(s, pos, depth) matches Parsed::Done(statement, _) ==> expr_well_formed(
            statement,
        ),
    decreases depth, 11nat, remaining(s, pos),
{
    lemma_value(s, pos, depth);
    if let Parsed::Done(condition, end) = spec_value(s, pos, depth) {
        lemma_suite(s, end, depth);
        if let Parsed::Done(then_body, end) = spec_suite(s, end, depth) {
            lemma_word_within(s, end);
            if keyword_at(s, end) == Some(Keyword::Else) {
                lemma_suite(s, after_word(s, end), depth);
            } else {
                assert(suite_well_formed(Seq::empty()));
            }
        }
    }
}

proof fn lemma_assignment(s: Seq<char>, name: NameView, pos: int, depth: nat)
    requires
        0 <= pos <= s.len(),
        name_well_formed(name),
    ensures
        moves_on(spec_assignment(s, name, pos, depth), s, pos),
        spec_assignment(s, name, pos, depth) matches Parsed::Done(statement, _)
            ==> expr_well_formed(statement),
    decreases depth, 11nat, remaining(s, pos),
{
    lemma_value(s, pos, depth);
    if let Parsed::Done(value, end) = spec_value(s, pos, depth) {
        lemma_semicolon_within(s, end);
    }
}

proof fn lemma_expr(s: Seq<char>, pos: int, depth: nat)
    requires
        0 <= pos <= s.len(),
    ensures
        moves_on(spec_expr(s, pos, depth), s, pos),
        spec_expr(s, pos, depth) matches Parsed::Done(statement, _) ==> expr_well_formed(
            statement,
        ),
    decreases depth, 12nat, remaining(s, pos),
{
    lemma_word_within(s, pos);
    let word = keyword_at(s, pos);
    let behind = after_word(s, pos);
    lemma_symbol_within(s, behind, '(');
    if word == Some(Keyword::Class) {
        lemma_struct_def(s, behind, depth);
    } else if word == Some(Keyword::Fn) && !symbol_at(s, behind, '(') {
        lemma_function_def(s, behind, depth);
    } else if word == Some(Keyword::While) {
        lemma_while_loop(s, behind, depth);
    } else if word == Some(Keyword::For) {
        lemma_for_loop(s, behind, depth);
    } else if word == Some(Keyword::If) {
        lemma_if_then_else(s, behind, depth);
    } else if word == Some(Keyword::Fn) {
        lemma_value(s, pos, depth);
        if let Parsed::Done(value, end) = spec_value(s, pos, depth) {
            lemma_semicolon_within(s, end);
        }
    } else {
        lemma_operand(s, pos, depth);
        if let Parsed::Done(operand, end) = spec_operand(s, pos, depth) {
            lemma_symbol_within(s, end, '=');
            match operand {
                OperandView::Name(name) => {
                    assert(value_well_formed(ValueView::Name(name)));
                    if symbol_at(s, end, '=') {
                        lemma_assignment(s, name, after_symbol(s, end), depth);
                    }
                },
                _ => {},
            }
            lemma_fncall(s, operand, end, depth);
            if let Parsed::Done(value, end) = spec_fncall(s, operand, end, depth) {
                lemma_semicolon_within(s, end);
            }
        }
    }
}

proof fn lemma_exprs(s: Seq<char>, pos: int, depth: nat)
    requires
        0 <= pos <= s.len(),
    ensures
        stays_within(spec_exprs(s, pos, depth), s, pos),
        spec_exprs(s, pos, depth) matches Parsed::Done(statements, _) ==> suite_well_formed(
            statements,
        ),
    decreases depth, 13nat, remaining(s, pos),
{
    lemma_token_start_bound(s, pos);
    if statements_end(s, pos) {
        assert(suite_well_formed(Seq::empty()));
    } else {
        lemma_expr(s, pos, depth);
        if let Parsed::Done(statement, end) = spec_expr(s, pos, depth) {
            lemma_exprs(s, end, depth);
            if let Parsed::Done(rest, _) = spec_exprs(s, end, depth) {
                let all = seq![statement] + rest;
                assert forall|i: int| 0 <= i < all.len() implies expr_well_formed(
                    #[trigger] all[i],
                ) by {
                    if i > 0 {
                        assert(all[i] == rest[i - 1]);
                    }
                }
            }
        }
    }
}

/// A value that is read ends further along than it began, within the
/// source, and is well formed; a failure to read one lies between the place
/// where reading began and the end of the source.
pub proof fn lemma_value_reads_well(s: Seq<char>, pos: int, depth: nat)
    requires
        0 <= pos <= s.len(),
    ensures
        moves_on(spec_value(s, pos, depth), s, pos),
        spec_value(s, pos, depth) matches Parsed::Done(value, _) ==> value_well_formed(value),
{
    lemma_value(s, pos, depth);
}

/// A statement that is read ends further along than it began, within the
/// source, and is well formed. The test for this in the repetition of
/// statements therefore never fails.
pub proof fn lemma_expr_reads_well(s: Seq<char>, pos: int, depth: nat)
    requires
        0 <= pos <= s.len(),
    ensures
        moves_on(spec_expr(s, pos, depth), s, pos),
        spec_expr(s, pos, depth) matches Parsed::Done(statement, end) ==> expr_well_formed(
            statement,
        ) && advances(s, pos, end),
{
    lemma_expr(s, pos, depth);
}

/// A named function that is read ends further along than it began, within
/// the source, and is well formed.
pub proof fn lemma_function_def_reads_well(s: Seq<char>, pos: int, depth: nat)
    requires
        0 <= pos <= s.len(),
    ensures
        moves_on(spec_function_def(s, pos, depth), s, pos),
        spec_function_def(s, pos, depth) matches Parsed::Done(def, _)
            ==> function_def_well_formed(def),
{
    lemma_function_def(s, pos, depth);
}

/// A program that is read is well formed: every dotted path in it has a
/// segment and every indexed path a key. A program that cannot be read
/// fails at a place within the source.
pub proof fn lemma_program_reads_well(s: Seq<char>, depth: nat)
    ensures
        match spec_program(s, depth) {
            Parsed::Done(statements, end) => suite_well_formed(statements) && end == s.len(),
            Parsed::Failed(at, _) => 0 <= at <= s.len(),
        },
{
    lemma_exprs(s, 0, depth);
    if let Parsed::Done(statements, end) = spec_exprs(s, 0, depth) {
        lemma_token_start_bound(s, end);
    }
}

/// A number is read as written: the literal holds the characters of the
/// source from the start of the token to its end, and nothing else.
pub proof fn lemma_number_read_verbatim(s: Seq<char>, pos: int)
    ensures
        spec_number_literal(s, pos) matches Parsed::Done(literal, end) ==> literal
            == LiteralView::Number(s.subrange(token_start(s, pos), end)),
        spec_literal(s, pos) matches Parsed::Done(LiteralView::Number(text), end) ==> text
            == s.subrange(token_start(s, pos), end),
{
}

/// A string is read as written: the literal holds the characters between
/// the two quotes, escapes included.
pub proof fn lemma_string_read_verbatim(s: Seq<char>, pos: int)
    ensures
        spec_string_literal(s, pos) matches Parsed::Done(literal, end) ==> literal
            == LiteralView::String(s.subrange(token_start(s, pos) + 1, end - 1)),
{
}

/// A string that is read can stand between two quotes again: the quote
/// put behind its characters is the first that closes it. So the text that
/// pushes it holds it as one string.
pub proof fn lemma_read_string_closes(s: Seq<char>, pos: int)
    requires
        0 <= pos <= s.len(),
    ensures
        spec_string_literal(s, pos) matches Parsed::Done(LiteralView::String(text), _)
            ==> closes_behind(text),
{
    lemma_token_start_bound(s, pos);
    let start = token_start(s, pos);
    if start < s.len() && s[start] == '"' {
        if let Some(n) = string_len(s, start + 1) {
            lemma_string_len_bound(s, start + 1);
            lemma_string_ends_at_quote(s, start + 1);
            let text = s.subrange(start + 1, start + 1 + n);
            assert(text.push('"') =~= s.subrange(start + 1, start + n + 2));
            assert(text.push('"').subrange(0, n as int + 1) =~= text.push('"'));
            lemma_string_len_local(s, text.push('"'), start + 1, 0, n);
        }
    }
}

/// A conditional without the keyword `else` behind its block reads as one
/// whose second block is empty.
pub proof fn lemma_missing_else_reads_empty(
    s: Seq<char>,
    pos: int,
    depth: nat,
    condition: ValueView,
    then_start: int,
    then_body: Seq<ExprView>,
    then_end: int,
)
    requires
        spec_value(s, pos, depth) == Parsed::Done(condition, then_start),
        spec_suite(s, then_start, depth) == Parsed::Done(then_body, then_end),
        keyword_at(s, then_end) != Some(Keyword::Else),
    ensures
        spec_if_then_else(s, pos, depth) == Parsed::Done(
            ExprView::IfThenElse(condition, then_body, Seq::empty()),
            then_end,
        ),
{
}

/// A conditional with an empty block behind the keyword `else` reads as the
/// same tree as one without the keyword.
pub proof fn lemma_empty_else_reads_empty(
    s: Seq<char>,
    pos: int,
    depth: nat,
    condition: ValueView,
    then_start: int,
    then_body: Seq<ExprView>,
    then_end: int,
    else_end: int,
)
    requires
        spec_value(s, pos, depth) == Parsed::Done(condition, then_start),
        spec_suite(s, then_start, depth) == Parsed::Done(then_body, then_end),
        keyword_at(s, then_end) == Some(Keyword::Else),
        spec_suite(s, after_word(s, then_end), depth) == Parsed::Done(
            Seq::<ExprView>::empty(),
            else_end,
        ),
    ensures
        spec_if_then_else(s, pos, depth) == Parsed::Done(
            ExprView::IfThenElse(condition, then_body, Seq::empty()),
            else_end,
        ),
{
}

} // verus!
