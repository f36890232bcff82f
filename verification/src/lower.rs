//! The lowering of a syntax tree to the instruction text of a backend profile.
//!
//! The text of a node is defined on its model, by recursion over the tree:
//! operations are emitted in pre-order, left to right, and each node's text
//! is built from the texts of its children by the profile's operations.

use vstd::prelude::*;
use crate::backend::quote_text;
use crate::target::Target;
use crate::text::{concat, reversed};
use crate::token::{
    ExprView, FunctionDefView, FunctionView, LiteralView, NameView, StructDefView, ValueView,
};

verus! {

/// The text that pushes the name `name` as a string.
pub open spec fn identifier_code<T: Target>(name: Seq<char>) -> Seq<char> {
    T::spec_push(T::spec_string(quote_text(name)))
}

/// The text that pushes the value of a literal.
pub open spec fn literal_code<T: Target>(literal: LiteralView) -> Seq<char> {
    match literal {
        LiteralView::String(s) => T::spec_push(T::spec_string(quote_text(s))),
        LiteralView::Number(n) => T::spec_push(T::spec_number(n)),
        LiteralView::ForeignFunction(f) => T::spec_push(T::spec_foreign_func(f)),
    }
}

/// The text that binds the parameters `params`, in the order declared.
pub open spec fn stores_code<T: Target>(params: Seq<Seq<char>>) -> Seq<char> {
    concat(Seq::new(params.len(), |i: int| T::spec_store(identifier_code::<T>(params[i]))))
}

/// The text that leaves a value on the stack.
///
/// A simple name is pushed and loaded. A call pushes its arguments, then
/// dispatches on its callee.
pub open spec fn value_code<T: Target>(value: ValueView) -> Seq<char>
    decreases value, 0nat,
{
    match value {
        ValueView::Name(NameView::Name(n)) => T::spec_load(identifier_code::<T>(n)),
        ValueView::Name(other) => name_code::<T>(other),
        ValueView::Literal(l) => literal_code::<T>(l),
        ValueView::FnCall(callee, arguments) => arguments_code::<T>(arguments) + callee_code::<T>(
            *callee,
        ),
        ValueView::Function(f) => function_code::<T>(f),
    }
}

/// The texts of the values of `values`, each followed by a duplication.
pub open spec fn copied_codes<T: Target>(values: Seq<ValueView>) -> Seq<Seq<char>>
    decreases values, 0nat,
{
    Seq::new(
        values.len(),
        |i: int|
            if 0 <= i < values.len() {
                T::spec_copy(value_code::<T>(values[i]))
            } else {
                arbitrary()
            },
    )
}

/// The text that evaluates the arguments of a call: last argument first,
/// each one duplicated.
pub open spec fn arguments_code<T: Target>(arguments: Seq<ValueView>) -> Seq<char>
    decreases arguments, 1nat,
{
    concat(reversed(copied_codes::<T>(arguments)))
}

/// The text that invokes `callee` on arguments already on the stack.
///
/// A dotted callee is a method invocation: the path without its last segment
/// yields the receiver, and the last segment is the message. Any other callee
/// is evaluated and called.
pub open spec fn callee_code<T: Target>(callee: ValueView) -> Seq<char>
    decreases callee, 1nat,
{
    match callee {
        ValueView::Name(NameView::DotName(head, segments)) => T::spec_dotname(
            value_code::<T>(*head),
            segments.drop_last(),
        ) + T::spec_method_call(T::spec_string(quote_text(segments.last()))),
        other => T::spec_call(value_code::<T>(other)),
    }
}

/// The texts of the values of `values`.
pub open spec fn values_code<T: Target>(values: Seq<ValueView>) -> Seq<Seq<char>>
    decreases values, 0nat,
{
    Seq::new(
        values.len(),
        |i: int|
            if 0 <= i < values.len() {
                value_code::<T>(values[i])
            } else {
                arbitrary()
            },
    )
}

/// The text of a name where it stands for itself: an identifier is pushed as
/// a string, a path is followed from its head.
pub open spec fn name_code<T: Target>(name: NameView) -> Seq<char>
    decreases name, 0nat,
{
    match name {
        NameView::Name(n) => identifier_code::<T>(n),
        NameView::DotName(head, tail) => T::spec_dotname(value_code::<T>(*head), tail),
        NameView::IndexName(head, tail) => T::spec_indexname(
            value_code::<T>(*head),
            values_code::<T>(tail),
        ),
    }
}

/// The text that pushes a closure: its body binds the parameters in the
/// order declared, then runs the statements.
pub open spec fn function_code<T: Target>(function: FunctionView) -> Seq<char>
    decreases function, 0nat,
{
    T::spec_push(T::spec_func(stores_code::<T>(function.params) + suite_code::<T>(function.body)))
}

/// The texts of the statements of `statements`.
pub open spec fn exprs_code<T: Target>(statements: Seq<ExprView>) -> Seq<Seq<char>>
    decreases statements, 0nat,
{
    Seq::new(
        statements.len(),
        |i: int|
            if 0 <= i < statements.len() {
                expr_code::<T>(statements[i])
            } else {
                arbitrary()
            },
    )
}

/// The text of a block: the texts of its statements in source order.
pub open spec fn suite_code<T: Target>(statements: Seq<ExprView>) -> Seq<char>
    decreases statements, 1nat,
{
    concat(exprs_code::<T>(statements))
}

/// The text that assigns the value computed by `value` to `name`.
///
/// The value is duplicated, so that the assignment itself leaves it on the
/// stack. A simple name is bound in the current scope; a path is written
/// through.
pub open spec fn assignment_code<T: Target>(name: NameView, value: Seq<char>) -> Seq<char>
    decreases name, 1nat,
{
    match name {
        NameView::Name(n) => T::spec_store(T::spec_copy(value) + identifier_code::<T>(n)),
        other => T::spec_assign(T::spec_copy(value) + name_code::<T>(other)),
    }
}

/// The text of a named function: the assignment of the closure to the name.
pub open spec fn function_def_code<T: Target>(def: FunctionDefView) -> Seq<char>
    decreases def, 2nat,
{
    assignment_code::<T>(def.name, function_code::<T>(def.function))
}

/// The text that loads `self`.
pub open spec fn self_code<T: Target>() -> Seq<char> {
    T::spec_load(identifier_code::<T>("self"@))
}

/// The text of `self = dict()`.
pub open spec fn self_init_code<T: Target>() -> Seq<char> {
    T::spec_store(
        T::spec_copy(T::spec_call(T::spec_load(identifier_code::<T>("dict"@))))
            + identifier_code::<T>("self"@),
    )
}

/// The segments under which a method of a class is stored in `self`: a simple
/// name gives one segment, a dotted name its trailing segments.
pub open spec fn method_segments(name: NameView) -> Seq<Seq<char>> {
    match name {
        NameView::Name(n) => seq![n],
        NameView::DotName(_, segments) => segments,
        NameView::IndexName(_, _) => Seq::empty(),
    }
}

/// The text that stores a method as an attribute of `self`.
pub open spec fn method_code<T: Target>(method: FunctionDefView) -> Seq<char>
    decreases method, 1nat,
{
    T::spec_assign(
        T::spec_copy(function_code::<T>(method.function)) + T::spec_dotname(
            self_code::<T>(),
            method_segments(method.name),
        ),
    )
}

/// The texts that store the methods `methods` in `self`.
pub open spec fn methods_code<T: Target>(methods: Seq<FunctionDefView>) -> Seq<Seq<char>>
    decreases methods, 0nat,
{
    Seq::new(
        methods.len(),
        |i: int|
            if 0 <= i < methods.len() {
                method_code::<T>(methods[i])
            } else {
                arbitrary()
            },
    )
}

/// The text that pushes the constructor of a class: a closure without
/// parameters that creates `self`, stores each method in it and yields it.
pub open spec fn constructor_code<T: Target>(methods: Seq<FunctionDefView>) -> Seq<char>
    decreases methods, 1nat,
{
    T::spec_push(
        T::spec_func(
            self_init_code::<T>() + concat(methods_code::<T>(methods)) + self_code::<T>(),
        ),
    )
}

/// The text of a class: the assignment of its constructor to its name.
pub open spec fn struct_def_code<T: Target>(def: StructDefView) -> Seq<char>
    decreases def, 2nat,
{
    assignment_code::<T>(def.name, constructor_code::<T>(def.methods))
}

/// The text of a statement.
pub open spec fn expr_code<T: Target>(statement: ExprView) -> Seq<char>
    decreases statement, 3nat,
{
    match statement {
        ExprView::Assignment(name, value) => assignment_code::<T>(name, value_code::<T>(value)),
        ExprView::ForLoop { counter, element, list, body } => T::spec_for_loop(
            identifier_code::<T>(counter),
            identifier_code::<T>(element),
            value_code::<T>(list),
            suite_code::<T>(body),
        ),
        ExprView::WhileLoop(condition, body) => T::spec_while_loop(
            value_code::<T>(condition),
            suite_code::<T>(body),
        ),
        ExprView::IfThenElse(condition, then_body, else_body) => T::spec_if_then_else(
            value_code::<T>(condition),
            suite_code::<T>(then_body),
            suite_code::<T>(else_body),
        ),
        ExprView::FunctionDef(def) => function_def_code::<T>(def),
        ExprView::StructDef(def) => struct_def_code::<T>(def),
        ExprView::Value(value) => value_code::<T>(value),
    }
}

/// Whether a value can be compiled: every call in it names its function.
pub open spec fn value_compiles(value: ValueView) -> bool
    decreases value, 0nat,
{
    match value {
        ValueView::Name(name) => name_compiles(name),
        ValueView::Literal(_) => true,
        ValueView::FnCall(callee, arguments) => values_compile(arguments) && callee_compiles(
            *callee,
        ),
        ValueView::Function(f) => function_compiles(f),
    }
}

/// Whether each value of `values` can be compiled.
pub open spec fn values_compile(values: Seq<ValueView>) -> bool
    decreases values, 0nat,
{
    forall|i: int| 0 <= i < values.len() ==> value_compiles(#[trigger] values[i])
}

/// Whether a callee can be compiled. A dotted callee needs a last segment,
/// the name of the method.
pub open spec fn callee_compiles(callee: ValueView) -> bool
    decreases callee, 1nat,
{
    match callee {
        ValueView::Name(NameView::DotName(head, segments)) => segments.len() > 0
            && value_compiles(*head),
        other => value_compiles(other),
    }
}

/// Whether a name can be compiled.
pub open spec fn name_compiles(name: NameView) -> bool
    decreases name, 0nat,
{
    match name {
        NameView::Name(_) => true,
        NameView::DotName(head, _) => value_compiles(*head),
        NameView::IndexName(head, tail) => value_compiles(*head) && values_compile(tail),
    }
}

/// Whether a function can be compiled.
pub open spec fn function_compiles(function: FunctionView) -> bool
    decreases function, 0nat,
{
    suite_compiles(function.body)
}

/// Whether each statement of a block can be compiled.
pub open spec fn suite_compiles(statements: Seq<ExprView>) -> bool
    decreases statements, 0nat,
{
    forall|i: int| 0 <= i < statements.len() ==> expr_compiles(#[trigger] statements[i])
}

/// Whether a named function can be compiled.
pub open spec fn function_def_compiles(def: FunctionDefView) -> bool
    decreases def, 1nat,
{
    name_compiles(def.name) && function_compiles(def.function)
}

/// Whether a method of a class can be compiled. An indexed path cannot name
/// a method.
pub open spec fn method_compiles(method: FunctionDefView) -> bool
    decreases method, 1nat,
{
    !(method.name is IndexName) && function_compiles(method.function)
}

/// Whether each method of `methods` can be compiled.
pub open spec fn methods_compile(methods: Seq<FunctionDefView>) -> bool
    decreases methods, 0nat,
{
    forall|i: int| 0 <= i < methods.len() ==> method_compiles(#[trigger] methods[i])
}

/// Whether a class can be compiled.
pub open spec fn struct_def_compiles(def: StructDefView) -> bool
    decreases def, 1nat,
{
    name_compiles(def.name) && methods_compile(def.methods)
}

/// Whether a statement can be compiled.
pub open spec fn expr_compiles(statement: ExprView) -> bool
    decreases statement, 2nat,
{
    match statement {
        ExprView::Assignment(name, value) => value_compiles(value) && name_compiles(name),
        ExprView::ForLoop { counter, element, list, body } => value_compiles(list)
            && suite_compiles(body),
        ExprView::WhileLoop(condition, body) => value_compiles(condition) && suite_compiles(body),
        ExprView::IfThenElse(condition, then_body, else_body) => value_compiles(condition)
            && suite_compiles(then_body) && suite_compiles(else_body),
        ExprView::FunctionDef(def) => function_def_compiles(def),
        ExprView::StructDef(def) => struct_def_compiles(def),
        ExprView::Value(value) => value_compiles(value),
    }
}

} // verus!
