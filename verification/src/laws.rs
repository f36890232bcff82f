//! What holds of the instruction text of every tree, in every profile.

use vstd::prelude::*;
use crate::backend::quote_text;
use crate::lower::{
    arguments_code, callee_code, callee_compiles, copied_codes, expr_code, expr_compiles,
    exprs_code, function_code, function_compiles, function_def_code, function_def_compiles,
    identifier_code, method_compiles, methods_compile, name_code, name_compiles,
    struct_def_compiles, suite_code, suite_compiles, value_code, value_compiles, values_compile,
};
use crate::rust::Rust;
use crate::target::Target;
use crate::text::{concat, reversed};
use crate::token::{
    expr_well_formed, function_def_well_formed, function_well_formed, name_well_formed,
    struct_def_well_formed, suite_well_formed, value_well_formed, values_well_formed, ExprView,
    FunctionDefView, LiteralView, NameView, ValueView,
};

verus! {

/// An assignment is an expression: its text computes the value, duplicates
/// it, and only then binds or writes one of the two copies, so that the
/// other stays on the stack for whatever encloses the assignment.
pub proof fn lemma_assignment_keeps_value<T: Target>(name: NameView, value: ValueView)
    ensures
        name matches NameView::Name(n) ==> expr_code::<T>(ExprView::Assignment(name, value))
            == T::spec_store(T::spec_copy(value_code::<T>(value)) + identifier_code::<T>(n)),
        !(name is Name) ==> expr_code::<T>(ExprView::Assignment(name, value)) == T::spec_assign(
            T::spec_copy(value_code::<T>(value)) + name_code::<T>(name),
        ),
{
}

/// A named function is the assignment of the function to the name.
pub proof fn lemma_function_def_is_assignment<T: Target>(def: FunctionDefView)
    ensures
        function_def_code::<T>(def) == expr_code::<T>(
            ExprView::Assignment(def.name, ValueView::Function(def.function)),
        ),
        function_def_compiles(def) == expr_compiles(
            ExprView::Assignment(def.name, ValueView::Function(def.function)),
        ),
{
    assert(value_code::<T>(ValueView::Function(def.function)) == function_code::<T>(
        def.function,
    ));
    assert(value_compiles(ValueView::Function(def.function)) == function_compiles(
        def.function,
    ));
}

/// The arguments of a call are evaluated last one first: for two arguments,
/// the second, then the first, each one duplicated.
pub proof fn lemma_two_arguments_in_reverse<T: Target>(first: ValueView, second: ValueView)
    ensures
        arguments_code::<T>(seq![first, second]) == T::spec_copy(value_code::<T>(second))
            + T::spec_copy(value_code::<T>(first)),
{
    let arguments = seq![first, second];
    let parts = reversed(copied_codes::<T>(arguments));
    assert(parts.len() == 2);
    assert(parts[0] == T::spec_copy(value_code::<T>(arguments[1])));
    assert(parts[1] == T::spec_copy(value_code::<T>(arguments[0])));
    assert(parts.drop_last().drop_last() =~= Seq::<Seq<char>>::empty());
    assert(concat(parts.drop_last().drop_last()) =~= Seq::<char>::empty());
    assert(concat(parts.drop_last()) =~= parts[0]);
    assert(concat(parts) =~= parts[0] + parts[1]);
}

/// A call of a dotted path is a method invocation: after the arguments, the
/// path without its last segment yields the receiver, and the last segment
/// is sent to it as a message. No plain call is emitted for it.
pub proof fn lemma_dotted_call_dispatches<T: Target>(
    head: ValueView,
    segments: Seq<Seq<char>>,
    arguments: Seq<ValueView>,
)
    requires
        segments.len() > 0,
    ensures
        value_code::<T>(
            ValueView::FnCall(
                Box::new(ValueView::Name(NameView::DotName(Box::new(head), segments))),
                arguments,
            ),
        ) == arguments_code::<T>(arguments) + T::spec_dotname(
            value_code::<T>(head),
            segments.drop_last(),
        ) + T::spec_method_call(T::spec_string(quote_text(segments.last()))),
{
    let callee = ValueView::Name(NameView::DotName(Box::new(head), segments));
    assert(callee_code::<T>(callee) == T::spec_dotname(
        value_code::<T>(head),
        segments.drop_last(),
    ) + T::spec_method_call(T::spec_string(quote_text(segments.last()))));
    assert(value_code::<T>(ValueView::FnCall(Box::new(callee), arguments)) =~= arguments_code::<
        T,
    >(arguments) + callee_code::<T>(callee));
}

/// A call of anything but a dotted path evaluates the callee after the
/// arguments and calls it.
pub proof fn lemma_plain_call<T: Target>(callee: ValueView, arguments: Seq<ValueView>)
    requires
        !(callee matches ValueView::Name(NameView::DotName(_, _))),
    ensures
        value_code::<T>(ValueView::FnCall(Box::new(callee), arguments)) == arguments_code::<T>(
            arguments,
        ) + T::spec_call(value_code::<T>(callee)),
{
    assert(callee_code::<T>(callee) == T::spec_call(value_code::<T>(callee)));
}

/// The text of a number reaches the instruction text character for
/// character: the literal is handed to the profile as written, and the Rust
/// profile puts it between the brackets of its constructor.
pub proof fn lemma_number_verbatim<T: Target>(number: Seq<char>)
    ensures
        value_code::<T>(ValueView::Literal(LiteralView::Number(number))) == T::spec_push(
            T::spec_number(number),
        ),
        Rust::spec_number(number) == "Value::number("@ + number + ")"@,
{
}

/// A conditional without statements in its second block compiles with the
/// empty text for that block.
pub proof fn lemma_empty_else<T: Target>(condition: ValueView, then_body: Seq<ExprView>)
    ensures
        expr_code::<T>(ExprView::IfThenElse(condition, then_body, Seq::empty()))
            == T::spec_if_then_else(
            value_code::<T>(condition),
            suite_code::<T>(then_body),
            Seq::empty(),
        ),
{
    assert(exprs_code::<T>(Seq::empty()) =~= Seq::<Seq<char>>::empty());
    assert(suite_code::<T>(Seq::empty()) =~= Seq::<char>::empty());
}

/// Whether every class in a value gives each of its methods a name that
/// can name an attribute: an identifier or a dotted path.
pub open spec fn value_names_methods(value: ValueView) -> bool
    decreases value, 0nat,
{
    match value {
        ValueView::Name(name) => name_names_methods(name),
        ValueView::Literal(_) => true,
        ValueView::FnCall(callee, arguments) => value_names_methods(*callee)
            && values_name_methods(arguments),
        ValueView::Function(function) => suite_names_methods(function.body),
    }
}

/// Whether every class in `values` names its methods.
pub open spec fn values_name_methods(values: Seq<ValueView>) -> bool
    decreases values, 0nat,
{
    forall|i: int| 0 <= i < values.len() ==> value_names_methods(#[trigger] values[i])
}

/// Whether every class in a name names its methods.
pub open spec fn name_names_methods(name: NameView) -> bool
    decreases name, 0nat,
{
    match name {
        NameView::Name(_) => true,
        NameView::DotName(head, _) => value_names_methods(*head),
        NameView::IndexName(head, tail) => value_names_methods(*head) && values_name_methods(
            tail,
        ),
    }
}

/// Whether a method has a name that can name an attribute, and every class
/// in its body names its methods.
pub open spec fn method_names_methods(method: FunctionDefView) -> bool
    decreases method, 1nat,
{
    !(method.name is IndexName) && suite_names_methods(method.function.body)
}

/// Whether every class in a statement names its methods.
pub open spec fn expr_names_methods(statement: ExprView) -> bool
    decreases statement, 2nat,
{
    match statement {
        ExprView::Assignment(name, value) => name_names_methods(name) && value_names_methods(
            value,
        ),
        ExprView::ForLoop { counter, element, list, body } => value_names_methods(list)
            && suite_names_methods(body),
        ExprView::WhileLoop(condition, body) => value_names_methods(condition)
            && suite_names_methods(body),
        ExprView::IfThenElse(condition, then_body, else_body) => value_names_methods(condition)
            && suite_names_methods(then_body) && suite_names_methods(else_body),
        ExprView::FunctionDef(def) => name_names_methods(def.name) && suite_names_methods(
            def.function.body,
        ),
        ExprView::StructDef(def) => name_names_methods(def.name) && (forall|i: int|
            0 <= i < def.methods.len() ==> method_names_methods(#[trigger] def.methods[i])),
        ExprView::Value(value) => value_names_methods(value),
    }
}

/// Whether every class in a block names its methods.
pub open spec fn suite_names_methods(statements: Seq<ExprView>) -> bool
    decreases statements, 0nat,
{
    forall|i: int| 0 <= i < statements.len() ==> expr_names_methods(#[trigger] statements[i])
}

proof fn lemma_value_compiles(value: ValueView)
    requires
        value_well_formed(value),
    ensures
        value_compiles(value) == value_names_methods(value),
    decreases value, 0nat,
{
    match value {
        ValueView::Name(name) => {
            lemma_name_compiles(name);
        },
        ValueView::Literal(_) => {},
        ValueView::FnCall(callee, arguments) => {
            lemma_values_compile(arguments);
            lemma_value_compiles(*callee);
            match *callee {
                ValueView::Name(NameView::DotName(head, segments)) => {
                    assert(value_well_formed(*callee));
                    assert(name_well_formed(NameView::DotName(head, segments)));
                    lemma_value_compiles(*head);
                    assert(value_compiles(*callee) == value_compiles(*head)) by {
                        assert(name_compiles(NameView::DotName(head, segments))
                            == value_compiles(*head));
                    }
                    assert(callee_compiles(*callee) == value_compiles(*head));
                },
                _ => {
                    assert(callee_compiles(*callee) == value_compiles(*callee));
                },
            }
        },
        ValueView::Function(function) => {
            assert(function_well_formed(function));
            lemma_suite_compiles(function.body);
            assert(function_compiles(function) == suite_compiles(
                function.body,
            ));
        },
    }
}

proof fn lemma_values_compile(values: Seq<ValueView>)
    requires
        values_well_formed(values),
    ensures
        values_compile(values) == values_name_methods(values),
    decreases values, 0nat,
{
    assert forall|i: int| 0 <= i < values.len() implies value_compiles(#[trigger] values[i])
        == value_names_methods(values[i]) by {
        lemma_value_compiles(values[i]);
    }
}

proof fn lemma_name_compiles(name: NameView)
    requires
        name_well_formed(name),
    ensures
        name_compiles(name) == name_names_methods(name),
    decreases name, 0nat,
{
    match name {
        NameView::Name(_) => {},
        NameView::DotName(head, _) => {
            lemma_value_compiles(*head);
        },
        NameView::IndexName(head, tail) => {
            lemma_value_compiles(*head);
            lemma_values_compile(tail);
        },
    }
}

proof fn lemma_expr_compiles(statement: ExprView)
    requires
        expr_well_formed(statement),
    ensures
        expr_compiles(statement) == expr_names_methods(statement),
    decreases statement, 2nat,
{
    match statement {
        ExprView::Assignment(name, value) => {
            lemma_name_compiles(name);
            lemma_value_compiles(value);
        },
        ExprView::ForLoop { counter, element, list, body } => {
            lemma_value_compiles(list);
            lemma_suite_compiles(body);
        },
        ExprView::WhileLoop(condition, body) => {
            lemma_value_compiles(condition);
            lemma_suite_compiles(body);
        },
        ExprView::IfThenElse(condition, then_body, else_body) => {
            lemma_value_compiles(condition);
            lemma_suite_compiles(then_body);
            lemma_suite_compiles(else_body);
        },
        ExprView::FunctionDef(def) => {
            assert(function_def_well_formed(def));
            lemma_name_compiles(def.name);
            lemma_suite_compiles(def.function.body);
            assert(function_def_compiles(def) == (name_compiles(def.name)
                && suite_compiles(def.function.body))) by {
                assert(function_compiles(def.function)
                    == suite_compiles(def.function.body));
            }
        },
        ExprView::StructDef(def) => {
            assert(struct_def_well_formed(def));
            lemma_name_compiles(def.name);
            assert forall|i: int| 0 <= i < def.methods.len() implies method_compiles(
                #[trigger] def.methods[i],
            ) == method_names_methods(def.methods[i]) by {
                assert(function_def_well_formed(def.methods[i]));
                lemma_suite_compiles(def.methods[i].function.body);
                assert(function_compiles(def.methods[i].function)
                    == suite_compiles(def.methods[i].function.body));
            }
            assert(struct_def_compiles(def) == (name_compiles(
                def.name,
            ) && methods_compile(def.methods)));
        },
        ExprView::Value(value) => {
            lemma_value_compiles(value);
        },
    }
}

proof fn lemma_suite_compiles(statements: Seq<ExprView>)
    requires
        suite_well_formed(statements),
    ensures
        suite_compiles(statements) == suite_names_methods(statements),
    decreases statements, 0nat,
{
    assert forall|i: int| 0 <= i < statements.len() implies expr_compiles(
        #[trigger] statements[i],
    ) == expr_names_methods(statements[i]) by {
        lemma_expr_compiles(statements[i]);
    }
}

/// A well-formed program can be compiled exactly where every class in it
/// gives each of its methods a name that can name an attribute. So the one
/// thing that keeps a program that was read from compiling is a method
/// under an indexed path.
pub proof fn lemma_well_formed_compiles(program: Seq<ExprView>)
    requires
        suite_well_formed(program),
    ensures
        suite_compiles(program) == suite_names_methods(program),
{
    lemma_suite_compiles(program);
}

} // verus!
