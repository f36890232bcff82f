//! The operations that a tree asks of the machine, before any profile has
//! written them.
//!
//! The compiler decides which operations run and in which order; a profile
//! decides how each is written. The decision of the compiler is the tree of
//! operations defined here, which mentions no profile. The instruction text
//! of a tree in a profile is that profile's writing of this one tree.

use vstd::prelude::*;
use crate::backend::quote_text;
use crate::lower::{
    arguments_code, assignment_code, callee_code, constructor_code, copied_codes, expr_code,
    exprs_code, function_code, identifier_code, literal_code, method_code, method_segments,
    methods_code, name_code, self_code, self_init_code, stores_code, suite_code, value_code,
    values_code,
};
use crate::target::Target;
use crate::text::{concat, reversed};
use crate::token::{ExprView, FunctionDefView, FunctionView, LiteralView, NameView, ValueView};

verus! {

/// An operation of the machine, applied to the operations that compute what
/// it works on.
pub enum Operation {
    /// Operations, one after the other.
    Sequence(Seq<Operation>),
    /// A name between quotes.
    Quote(Seq<char>),
    /// The number written so.
    Number(Seq<char>),
    /// The string that the operand denotes.
    String(Box<Operation>),
    /// A closure with the operand as its body.
    Func(Box<Operation>),
    /// A closure over the host's primitive of that name.
    ForeignFunc(Seq<char>),
    Push(Box<Operation>),
    Load(Box<Operation>),
    Store(Box<Operation>),
    Copy(Box<Operation>),
    Call(Box<Operation>),
    MethodCall(Box<Operation>),
    Assign(Box<Operation>),
    WhileLoop(Box<Operation>, Box<Operation>),
    ForLoop(Box<Operation>, Box<Operation>, Box<Operation>, Box<Operation>),
    IfThenElse(Box<Operation>, Box<Operation>, Box<Operation>),
    DotName(Box<Operation>, Seq<Seq<char>>),
    IndexName(Box<Operation>, Seq<Operation>),
}

/// The texts of the operations of `operations` in the profile `T`.
pub open spec fn rendered_each<T: Target>(operations: Seq<Operation>) -> Seq<Seq<char>>
    decreases operations,
{
    Seq::new(
        operations.len(),
        |i: int|
            if 0 <= i < operations.len() {
                rendered::<T>(operations[i])
            } else {
                arbitrary()
            },
    )
}

/// The text of an operation in the profile `T`.
pub open spec fn rendered<T: Target>(operation: Operation) -> Seq<char>
    decreases operation,
{
    match operation {
        Operation::Sequence(parts) => concat(rendered_each::<T>(parts)),
        Operation::Quote(name) => quote_text(name),
        Operation::Number(text) => T::spec_number(text),
        Operation::String(text) => T::spec_string(rendered::<T>(*text)),
        Operation::Func(body) => T::spec_func(rendered::<T>(*body)),
        Operation::ForeignFunc(name) => T::spec_foreign_func(name),
        Operation::Push(value) => T::spec_push(rendered::<T>(*value)),
        Operation::Load(name) => T::spec_load(rendered::<T>(*name)),
        Operation::Store(value) => T::spec_store(rendered::<T>(*value)),
        Operation::Copy(value) => T::spec_copy(rendered::<T>(*value)),
        Operation::Call(callee) => T::spec_call(rendered::<T>(*callee)),
        Operation::MethodCall(name) => T::spec_method_call(rendered::<T>(*name)),
        Operation::Assign(pointer) => T::spec_assign(rendered::<T>(*pointer)),
        Operation::WhileLoop(condition, body) => T::spec_while_loop(
            rendered::<T>(*condition),
            rendered::<T>(*body),
        ),
        Operation::ForLoop(counter, element, list, body) => T::spec_for_loop(
            rendered::<T>(*counter),
            rendered::<T>(*element),
            rendered::<T>(*list),
            rendered::<T>(*body),
        ),
        Operation::IfThenElse(condition, then_fn, else_fn) => T::spec_if_then_else(
            rendered::<T>(*condition),
            rendered::<T>(*then_fn),
            rendered::<T>(*else_fn),
        ),
        Operation::DotName(head, tail) => T::spec_dotname(rendered::<T>(*head), tail),
        Operation::IndexName(head, tail) => T::spec_indexname(
            rendered::<T>(*head),
            rendered_each::<T>(tail),
        ),
    }
}

/// One operation after another.
pub open spec fn then(first: Operation, second: Operation) -> Operation {
    Operation::Sequence(seq![first, second])
}

/// The push of a name as a string.
pub open spec fn identifier_operation(name: Seq<char>) -> Operation {
    Operation::Push(Box::new(Operation::String(Box::new(Operation::Quote(name)))))
}

/// The push of the value of a literal.
pub open spec fn literal_operation(literal: LiteralView) -> Operation {
    match literal {
        LiteralView::String(s) => Operation::Push(
            Box::new(Operation::String(Box::new(Operation::Quote(s)))),
        ),
        LiteralView::Number(n) => Operation::Push(Box::new(Operation::Number(n))),
        LiteralView::ForeignFunction(f) => Operation::Push(Box::new(Operation::ForeignFunc(f))),
    }
}

/// The stores of the parameters `params`, in the order declared.
pub open spec fn stores_operations(params: Seq<Seq<char>>) -> Seq<Operation> {
    Seq::new(params.len(), |i: int| Operation::Store(Box::new(identifier_operation(params[i]))))
}

/// The operations that bind the parameters `params`.
pub open spec fn stores_operation(params: Seq<Seq<char>>) -> Operation {
    Operation::Sequence(stores_operations(params))
}

/// The operations of a value.
pub open spec fn value_operation(value: ValueView) -> Operation
    decreases value, 0nat,
{
    match value {
        ValueView::Name(NameView::Name(n)) => Operation::Load(Box::new(identifier_operation(n))),
        ValueView::Name(other) => name_operation(other),
        ValueView::Literal(l) => literal_operation(l),
        ValueView::FnCall(callee, arguments) => then(
            arguments_operation(arguments),
            callee_operation(*callee),
        ),
        ValueView::Function(f) => function_operation(f),
    }
}

/// The duplicated values of the arguments of a call, last argument first.
pub open spec fn arguments_operations(arguments: Seq<ValueView>) -> Seq<Operation>
    decreases arguments, 0nat,
{
    Seq::new(
        arguments.len(),
        |i: int|
            if 0 <= i < arguments.len() {
                Operation::Copy(Box::new(value_operation(arguments[arguments.len() - 1 - i])))
            } else {
                arbitrary()
            },
    )
}

/// The operations of the arguments of a call: last argument first, each one
/// duplicated.
pub open spec fn arguments_operation(arguments: Seq<ValueView>) -> Operation
    decreases arguments, 1nat,
{
    Operation::Sequence(arguments_operations(arguments))
}

/// The operations that invoke a callee.
pub open spec fn callee_operation(callee: ValueView) -> Operation
    decreases callee, 1nat,
{
    match callee {
        ValueView::Name(NameView::DotName(head, segments)) => then(
            Operation::DotName(Box::new(value_operation(*head)), segments.drop_last()),
            Operation::MethodCall(
                Box::new(Operation::String(Box::new(Operation::Quote(segments.last())))),
            ),
        ),
        other => Operation::Call(Box::new(value_operation(other))),
    }
}

/// The operations of the values of `values`.
pub open spec fn values_operations(values: Seq<ValueView>) -> Seq<Operation>
    decreases values, 0nat,
{
    Seq::new(
        values.len(),
        |i: int|
            if 0 <= i < values.len() {
                value_operation(values[i])
            } else {
                arbitrary()
            },
    )
}

/// The operations of a name where it stands for itself.
pub open spec fn name_operation(name: NameView) -> Operation
    decreases name, 0nat,
{
    match name {
        NameView::Name(n) => identifier_operation(n),
        NameView::DotName(head, tail) => Operation::DotName(
            Box::new(value_operation(*head)),
            tail,
        ),
        NameView::IndexName(head, tail) => Operation::IndexName(
            Box::new(value_operation(*head)),
            values_operations(tail),
        ),
    }
}

/// The operations of a function.
pub open spec fn function_operation(function: FunctionView) -> Operation
    decreases function, 0nat,
{
    Operation::Push(
        Box::new(
            Operation::Func(
                Box::new(then(stores_operation(function.params), suite_operation(function.body))),
            ),
        ),
    )
}

/// The operations of the statements of `statements`.
pub open spec fn exprs_operations(statements: Seq<ExprView>) -> Seq<Operation>
    decreases statements, 0nat,
{
    Seq::new(
        statements.len(),
        |i: int|
            if 0 <= i < statements.len() {
                expr_operation(statements[i])
            } else {
                arbitrary()
            },
    )
}

/// The operations of a block.
pub open spec fn suite_operation(statements: Seq<ExprView>) -> Operation
    decreases statements, 1nat,
{
    Operation::Sequence(exprs_operations(statements))
}

/// The operations that assign what `value` computes to `name`.
pub open spec fn assignment_operation(name: NameView, value: Operation) -> Operation
    decreases name, 1nat,
{
    match name {
        NameView::Name(n) => Operation::Store(
            Box::new(then(Operation::Copy(Box::new(value)), identifier_operation(n))),
        ),
        other => Operation::Assign(
            Box::new(then(Operation::Copy(Box::new(value)), name_operation(other))),
        ),
    }
}

/// The load of `self`.
pub open spec fn self_operation() -> Operation {
    Operation::Load(Box::new(identifier_operation("self"@)))
}

/// The operations of `self = dict()`.
pub open spec fn self_init_operation() -> Operation {
    Operation::Store(
        Box::new(
            then(
                Operation::Copy(
                    Box::new(
                        Operation::Call(
                            Box::new(Operation::Load(Box::new(identifier_operation("dict"@)))),
                        ),
                    ),
                ),
                identifier_operation("self"@),
            ),
        ),
    )
}

/// The operations that store a method in `self`.
pub open spec fn method_operation(method: FunctionDefView) -> Operation
    decreases method, 1nat,
{
    Operation::Assign(
        Box::new(
            then(
                Operation::Copy(Box::new(function_operation(method.function))),
                Operation::DotName(Box::new(self_operation()), method_segments(method.name)),
            ),
        ),
    )
}

/// The operations that store the methods `methods` in `self`.
pub open spec fn methods_operations(methods: Seq<FunctionDefView>) -> Seq<Operation>
    decreases methods, 0nat,
{
    Seq::new(
        methods.len(),
        |i: int|
            if 0 <= i < methods.len() {
                method_operation(methods[i])
            } else {
                arbitrary()
            },
    )
}

/// The operations of the constructor of a class.
pub open spec fn constructor_operation(methods: Seq<FunctionDefView>) -> Operation
    decreases methods, 1nat,
{
    Operation::Push(
        Box::new(
            Operation::Func(
                Box::new(
                    Operation::Sequence(
                        seq![
                            self_init_operation(),
                            Operation::Sequence(methods_operations(methods)),
                            self_operation(),
                        ],
                    ),
                ),
            ),
        ),
    )
}

/// The operations of a statement.
pub open spec fn expr_operation(statement: ExprView) -> Operation
    decreases statement, 3nat,
{
    match statement {
        ExprView::Assignment(name, value) => assignment_operation(name, value_operation(value)),
        ExprView::ForLoop { counter, element, list, body } => Operation::ForLoop(
            Box::new(identifier_operation(counter)),
            Box::new(identifier_operation(element)),
            Box::new(value_operation(list)),
            Box::new(suite_operation(body)),
        ),
        ExprView::WhileLoop(condition, body) => Operation::WhileLoop(
            Box::new(value_operation(condition)),
            Box::new(suite_operation(body)),
        ),
        ExprView::IfThenElse(condition, then_body, else_body) => Operation::IfThenElse(
            Box::new(value_operation(condition)),
            Box::new(suite_operation(then_body)),
            Box::new(suite_operation(else_body)),
        ),
        ExprView::FunctionDef(def) => assignment_operation(
            def.name,
            function_operation(def.function),
        ),
        ExprView::StructDef(def) => assignment_operation(
            def.name,
            constructor_operation(def.methods),
        ),
        ExprView::Value(value) => value_operation(value),
    }
}

/// Two texts, one after the other.
proof fn lemma_concat_two(first: Seq<char>, second: Seq<char>)
    ensures
        concat(seq![first, second]) == first + second,
{
    let parts = seq![first, second];
    assert(parts.drop_last().drop_last() =~= Seq::<Seq<char>>::empty());
    assert(concat(parts.drop_last().drop_last()) =~= Seq::<char>::empty());
    assert(concat(parts.drop_last()) =~= first);
    assert(concat(parts) =~= first + second);
}

/// Three texts, one after the other.
proof fn lemma_concat_three(first: Seq<char>, second: Seq<char>, third: Seq<char>)
    ensures
        concat(seq![first, second, third]) == first + second + third,
{
    let parts = seq![first, second, third];
    assert(parts.drop_last() =~= seq![first, second]);
    lemma_concat_two(first, second);
}

/// The text of one operation after another.
proof fn lemma_then_renders<T: Target>(first: Operation, second: Operation)
    ensures
        rendered::<T>(then(first, second)) == rendered::<T>(first) + rendered::<T>(second),
{
    let parts = seq![first, second];
    assert(rendered_each::<T>(parts) =~= seq![rendered::<T>(first), rendered::<T>(second)]);
    lemma_concat_two(rendered::<T>(first), rendered::<T>(second));
}

proof fn lemma_identifier_renders<T: Target>(name: Seq<char>)
    ensures
        rendered::<T>(identifier_operation(name)) == identifier_code::<T>(name),
{
    reveal_with_fuel(rendered, 4);
}

proof fn lemma_literal_renders<T: Target>(literal: LiteralView)
    ensures
        rendered::<T>(literal_operation(literal)) == literal_code::<T>(literal),
{
    reveal_with_fuel(rendered, 4);
}

proof fn lemma_stores_render<T: Target>(params: Seq<Seq<char>>)
    ensures
        rendered::<T>(stores_operation(params)) == stores_code::<T>(params),
{
    let operations = stores_operations(params);
    let codes = Seq::new(params.len(), |i: int| T::spec_store(identifier_code::<T>(params[i])));
    assert(rendered_each::<T>(operations) =~= codes) by {
        assert forall|i: int| 0 <= i < params.len() implies rendered::<T>(
            #[trigger] operations[i],
        ) == codes[i] by {
            lemma_identifier_renders::<T>(params[i]);
        }
    }
}

proof fn lemma_value_renders<T: Target>(value: ValueView)
    ensures
        rendered::<T>(value_operation(value)) == value_code::<T>(value),
    decreases value, 0nat,
{
    match value {
        ValueView::Name(NameView::Name(n)) => {
            lemma_identifier_renders::<T>(n);
        },
        ValueView::Name(other) => {
            lemma_name_renders::<T>(other);
        },
        ValueView::Literal(l) => {
            lemma_literal_renders::<T>(l);
        },
        ValueView::FnCall(callee, arguments) => {
            lemma_arguments_render::<T>(arguments);
            lemma_callee_renders::<T>(*callee);
            lemma_then_renders::<T>(arguments_operation(arguments), callee_operation(*callee));
        },
        ValueView::Function(f) => {
            lemma_function_renders::<T>(f);
        },
    }
}

proof fn lemma_arguments_render<T: Target>(arguments: Seq<ValueView>)
    ensures
        rendered::<T>(arguments_operation(arguments)) == arguments_code::<T>(arguments),
    decreases arguments, 1nat,
{
    let operations = arguments_operations(arguments);
    let codes = reversed(copied_codes::<T>(arguments));
    assert(rendered_each::<T>(operations) =~= codes) by {
        assert forall|i: int| 0 <= i < arguments.len() implies rendered::<T>(
            #[trigger] operations[i],
        ) == codes[i] by {
            lemma_value_renders::<T>(arguments[arguments.len() - 1 - i]);
        }
    }
}

proof fn lemma_callee_renders<T: Target>(callee: ValueView)
    ensures
        rendered::<T>(callee_operation(callee)) == callee_code::<T>(callee),
    decreases callee, 1nat,
{
    match callee {
        ValueView::Name(NameView::DotName(head, segments)) => {
            lemma_value_renders::<T>(*head);
            let path = Operation::DotName(Box::new(value_operation(*head)), segments.drop_last());
            let message = Operation::MethodCall(
                Box::new(Operation::String(Box::new(Operation::Quote(segments.last())))),
            );
            lemma_then_renders::<T>(path, message);
            assert(rendered::<T>(message) == T::spec_method_call(
                T::spec_string(quote_text(segments.last())),
            )) by {
                reveal_with_fuel(rendered, 4);
            }
        },
        other => {
            lemma_value_renders::<T>(other);
        },
    }
}

proof fn lemma_values_render<T: Target>(values: Seq<ValueView>)
    ensures
        rendered_each::<T>(values_operations(values)) == values_code::<T>(values),
    decreases values, 0nat,
{
    assert(rendered_each::<T>(values_operations(values)) =~= values_code::<T>(values)) by {
        assert forall|i: int| 0 <= i < values.len() implies rendered::<T>(
            #[trigger] values_operations(values)[i],
        ) == values_code::<T>(values)[i] by {
            lemma_value_renders::<T>(values[i]);
        }
    }
}

proof fn lemma_name_renders<T: Target>(name: NameView)
    ensures
        rendered::<T>(name_operation(name)) == name_code::<T>(name),
    decreases name, 0nat,
{
    match name {
        NameView::Name(n) => {
            lemma_identifier_renders::<T>(n);
        },
        NameView::DotName(head, tail) => {
            lemma_value_renders::<T>(*head);
        },
        NameView::IndexName(head, tail) => {
            lemma_value_renders::<T>(*head);
            lemma_values_render::<T>(tail);
        },
    }
}

proof fn lemma_function_renders<T: Target>(function: FunctionView)
    ensures
        rendered::<T>(function_operation(function)) == function_code::<T>(function),
    decreases function, 0nat,
{
    lemma_stores_render::<T>(function.params);
    lemma_suite_renders::<T>(function.body);
    lemma_then_renders::<T>(stores_operation(function.params), suite_operation(function.body));
    reveal_with_fuel(rendered, 3);
}

proof fn lemma_suite_renders<T: Target>(statements: Seq<ExprView>)
    ensures
        rendered::<T>(suite_operation(statements)) == suite_code::<T>(statements),
    decreases statements, 1nat,
{
    let operations = exprs_operations(statements);
    assert(rendered_each::<T>(operations) =~= exprs_code::<T>(statements)) by {
        assert forall|i: int| 0 <= i < statements.len() implies rendered::<T>(
            #[trigger] operations[i],
        ) == exprs_code::<T>(statements)[i] by {
            lemma_expr_renders::<T>(statements[i]);
        }
    }
}

proof fn lemma_assignment_renders<T: Target>(name: NameView, value: Operation)
    ensures
        rendered::<T>(assignment_operation(name, value)) == assignment_code::<T>(
            name,
            rendered::<T>(value),
        ),
    decreases name, 1nat,
{
    match name {
        NameView::Name(n) => {
            lemma_identifier_renders::<T>(n);
            lemma_then_renders::<T>(Operation::Copy(Box::new(value)), identifier_operation(n));
        },
        other => {
            lemma_name_renders::<T>(other);
            lemma_then_renders::<T>(Operation::Copy(Box::new(value)), name_operation(other));
        },
    }
}

proof fn lemma_self_renders<T: Target>()
    ensures
        rendered::<T>(self_operation()) == self_code::<T>(),
        rendered::<T>(self_init_operation()) == self_init_code::<T>(),
{
    lemma_identifier_renders::<T>("self"@);
    lemma_identifier_renders::<T>("dict"@);
    let call = Operation::Copy(
        Box::new(
            Operation::Call(Box::new(Operation::Load(Box::new(identifier_operation("dict"@))))),
        ),
    );
    lemma_then_renders::<T>(call, identifier_operation("self"@));
    assert(rendered::<T>(call) == T::spec_copy(
        T::spec_call(T::spec_load(identifier_code::<T>("dict"@))),
    )) by {
        reveal_with_fuel(rendered, 4);
    }
}

proof fn lemma_method_renders<T: Target>(method: FunctionDefView)
    ensures
        rendered::<T>(method_operation(method)) == method_code::<T>(method),
    decreases method, 1nat,
{
    lemma_function_renders::<T>(method.function);
    lemma_self_renders::<T>();
    let copy = Operation::Copy(Box::new(function_operation(method.function)));
    let path = Operation::DotName(Box::new(self_operation()), method_segments(method.name));
    lemma_then_renders::<T>(copy, path);
}

proof fn lemma_constructor_renders<T: Target>(methods: Seq<FunctionDefView>)
    ensures
        rendered::<T>(constructor_operation(methods)) == constructor_code::<T>(methods),
    decreases methods, 1nat,
{
    lemma_self_renders::<T>();
    let stored = methods_operations(methods);
    assert(rendered_each::<T>(stored) =~= methods_code::<T>(methods)) by {
        assert forall|i: int| 0 <= i < methods.len() implies rendered::<T>(#[trigger] stored[i])
            == methods_code::<T>(methods)[i] by {
            lemma_method_renders::<T>(methods[i]);
        }
    }
    let parts = seq![self_init_operation(), Operation::Sequence(stored), self_operation()];
    assert(rendered_each::<T>(parts) =~= seq![
        self_init_code::<T>(),
        concat(methods_code::<T>(methods)),
        self_code::<T>(),
    ]);
    lemma_concat_three(
        self_init_code::<T>(),
        concat(methods_code::<T>(methods)),
        self_code::<T>(),
    );
    reveal_with_fuel(rendered, 3);
}

proof fn lemma_expr_renders<T: Target>(statement: ExprView)
    ensures
        rendered::<T>(expr_operation(statement)) == expr_code::<T>(statement),
    decreases statement, 3nat,
{
    match statement {
        ExprView::Assignment(name, value) => {
            lemma_value_renders::<T>(value);
            lemma_assignment_renders::<T>(name, value_operation(value));
        },
        ExprView::ForLoop { counter, element, list, body } => {
            lemma_identifier_renders::<T>(counter);
            lemma_identifier_renders::<T>(element);
            lemma_value_renders::<T>(list);
            lemma_suite_renders::<T>(body);
        },
        ExprView::WhileLoop(condition, body) => {
            lemma_value_renders::<T>(condition);
            lemma_suite_renders::<T>(body);
        },
        ExprView::IfThenElse(condition, then_body, else_body) => {
            lemma_value_renders::<T>(condition);
            lemma_suite_renders::<T>(then_body);
            lemma_suite_renders::<T>(else_body);
        },
        ExprView::FunctionDef(def) => {
            lemma_function_renders::<T>(def.function);
            lemma_assignment_renders::<T>(def.name, function_operation(def.function));
        },
        ExprView::StructDef(def) => {
            lemma_constructor_renders::<T>(def.methods);
            lemma_assignment_renders::<T>(def.name, constructor_operation(def.methods));
        },
        ExprView::Value(value) => {
            lemma_value_renders::<T>(value);
        },
    }
}

/// The instruction text of a program in a profile is that profile's writing
/// of the program's operations, which do not depend on the profile.
pub proof fn lemma_code_renders_operations<T: Target>(program: Seq<ExprView>)
    ensures
        suite_code::<T>(program) == rendered::<T>(suite_operation(program)),
{
    lemma_suite_renders::<T>(program);
}

/// Two profiles write the same operations in the same order: the texts of
/// a program in the profiles `A` and `B` are the two writings of one tree
/// of operations.
pub proof fn lemma_profiles_share_operations<A: Target, B: Target>(program: Seq<ExprView>)
    ensures
        suite_code::<A>(program) == rendered::<A>(suite_operation(program)),
        suite_code::<B>(program) == rendered::<B>(suite_operation(program)),
{
    lemma_suite_renders::<A>(program);
    lemma_suite_renders::<B>(program);
}

} // verus!
