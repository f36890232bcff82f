//! The compiler: functions that walk a syntax tree and emit its instruction
//! text through the operations of a backend profile.
//!
//! Each function calls itself for the parts of its node, so compiling goes
//! as deep as the tree is deep, a fixed number of calls for each level of
//! its depth. The functions set no limit: `parse_within` and
//! `compile_within` hand over trees no deeper than two more than the depth
//! they read within. For any other tree, `compile_suite_within` compiles
//! it only where it is within a limit, and `Suite::deeper_than` tells
//! whether it is.

use vstd::prelude::*;
use vstd::string::*;
use crate::depth::{suite_deeper_than, suite_depth};
use crate::lower::{
    arguments_code, assignment_code, callee_code, callee_compiles, constructor_code, copied_codes,
    expr_code, expr_compiles, exprs_code, function_code, function_compiles, function_def_code,
    function_def_compiles, identifier_code, literal_code, method_code, method_compiles,
    methods_code, methods_compile, name_code, name_compiles, self_code, self_init_code, stores_code,
    struct_def_code, struct_def_compiles, suite_code, suite_compiles, value_code, value_compiles,
    values_code, values_compile,
};
use crate::target::{lowered, Compile, Error, Target};
use crate::text::{concat, lemma_concat_take, reversed, views};
use crate::token::{
    exprs_view, function_defs_view, idents_view, name_view, value_view, values_view, Expr, FnCall,
    Function, FunctionDef, Identifier, Literal, Name, StructDef, Suite, Value,
};

verus! {

/// Pushes the name of `identifier` as a string.
pub fn compile_identifier<T: Target>(identifier: &Identifier) -> (code: String)
    ensures
        code@ == identifier_code::<T>(identifier@),
{
    T::push(T::string(T::quote(identifier.0.as_str()).as_str()).as_str())
}

/// Pushes the value of `literal`.
pub fn compile_literal<T: Target>(literal: &Literal) -> (code: String)
    ensures
        code@ == literal_code::<T>(literal@),
{
    match literal {
        Literal::String(s) => T::push(T::string(T::quote(s.as_str()).as_str()).as_str()),
        Literal::Number(n) => T::push(T::number(n.as_str()).as_str()),
        Literal::ForeignFunction(f) => T::push(T::foreign_func(f.as_str()).as_str()),
    }
}

/// Binds the parameters `params`, in the order declared.
pub fn compile_stores<T: Target>(params: &Vec<Identifier>) -> (code: String)
    ensures
        code@ == stores_code::<T>(idents_view(params@)),
{
    let mut code = String::new();
    let ghost stores = Seq::new(
        params.len() as nat,
        |i: int| T::spec_store(identifier_code::<T>(idents_view(params@)[i])),
    );
    let mut i: usize = 0;
    while i < params.len()
        invariant
            i <= params.len(),
            stores == Seq::new(
                params.len() as nat,
                |i: int| T::spec_store(identifier_code::<T>(idents_view(params@)[i])),
            ),
            code@ == concat(stores.take(i as int)),
        decreases params.len() - i,
    {
        let store = T::store(compile_identifier::<T>(&params[i]).as_str());
        code.append(store.as_str());
        proof {
            lemma_concat_take(stores, i as int);
        }
        i += 1;
    }
    assert(stores.take(params.len() as int) =~= stores);
    code
}

/// Compiles a value: the text that leaves it on the stack.
pub fn compile_value<T: Target>(value: &Value) -> (result: Result<String, Error>)
    ensures
        lowered(result, value_compiles(value@), value_code::<T>(value@)),
    decreases value, 0nat,
{
    proof {
        reveal_with_fuel(value_view, 2);
        reveal_with_fuel(name_view, 2);
        reveal_with_fuel(name_compiles, 2);
        reveal_with_fuel(name_code, 2);
    }
    match value {
        Value::Name(name) => match name {
            Name::Name(n) => Ok(T::load(compile_identifier::<T>(n).as_str())),
            _ => compile_name::<T>(name),
        },
        Value::Literal(l) => Ok(compile_literal::<T>(l)),
        Value::FnCall(call) => compile_fn_call::<T>(call),
        Value::Function(f) => compile_function::<T>(f),
    }
}

/// Compiles a call: the arguments, last one first and each one duplicated,
/// then the dispatch on the callee.
pub fn compile_fn_call<T: Target>(call: &FnCall) -> (result: Result<String, Error>)
    ensures
        lowered(result, value_compiles(call@), value_code::<T>(call@)),
    decreases call, 2nat,
{
    let mut code = compile_arguments::<T>(&call.1)?;
    let callee = compile_callee::<T>(&call.0)?;
    code.append(callee.as_str());
    Ok(code)
}

/// Compiles the arguments of a call: last one first, each one duplicated.
pub fn compile_arguments<T: Target>(arguments: &Vec<Value>) -> (result: Result<String, Error>)
    ensures
        lowered(
            result,
            values_compile(values_view(arguments@)),
            arguments_code::<T>(values_view(arguments@)),
        ),
    decreases arguments, 1nat,
{
    let mut code = String::new();
    let ghost model = values_view(arguments@);
    let ghost parts = reversed(copied_codes::<T>(model));
    let mut i: usize = arguments.len();
    while i > 0
        invariant
            i <= arguments.len(),
            model == values_view(arguments@),
            parts == reversed(copied_codes::<T>(model)),
            code@ == concat(parts.take(arguments.len() - i)),
            forall|j: int| i <= j < arguments.len() ==> value_compiles(#[trigger] model[j]),
        decreases i,
    {
        i -= 1;
        assert(model[i as int] == arguments[i as int]@);
        let argument = compile_value::<T>(&arguments[i])?;
        code.append(T::copy(argument.as_str()).as_str());
        proof {
            lemma_concat_take(parts, arguments.len() - i - 1);
        }
    }
    assert(parts.take(arguments.len() as int) =~= parts);
    Ok(code)
}

/// Compiles the callee of a call whose arguments are on the stack: a method
/// invocation for a dotted callee, a plain call for any other.
pub fn compile_callee<T: Target>(callee: &Value) -> (result: Result<String, Error>)
    ensures
        lowered(result, callee_compiles(callee@), callee_code::<T>(callee@)),
    decreases callee, 1nat,
{
    proof {
        reveal_with_fuel(value_view, 2);
        reveal_with_fuel(name_view, 2);
    }
    match callee {
        Value::Name(Name::DotName(head, segments)) => {
            if segments.len() == 0 {
                return Err(Error::InvalidFunctionName);
            }
            let receiver = compile_value::<T>(head)?;
            let last = segments.len() - 1;
            let path = vstd::slice::slice_subrange(segments.as_slice(), 0, last);
            let mut code = T::dotname(receiver.as_str(), path);
            let message = T::string(T::quote(segments[last].0.as_str()).as_str());
            code.append(T::method_call(message.as_str()).as_str());
            assert(idents_view(path@) =~= idents_view(segments@).drop_last());
            Ok(code)
        },
        _ => Ok(T::call(compile_value::<T>(callee)?.as_str())),
    }
}

/// Compiles the values of `values`, each to a text of its own.
pub fn compile_values<T: Target>(values: &Vec<Value>) -> (result: Result<Vec<String>, Error>)
    ensures
        match result {
            Ok(codes) => values_compile(values_view(values@)) && views(codes@) == values_code::<T>(
                values_view(values@),
            ),
            Err(e) => !values_compile(values_view(values@)) && e == Error::InvalidFunctionName,
        },
    decreases values, 0nat,
{
    let mut codes: Vec<String> = Vec::new();
    let ghost model = values_view(values@);
    let mut i: usize = 0;
    while i < values.len()
        invariant
            i <= values.len(),
            model == values_view(values@),
            codes.len() == i,
            forall|j: int| 0 <= j < i ==> value_compiles(#[trigger] model[j]),
            forall|j: int| 0 <= j < i ==> (#[trigger] codes[j])@ == value_code::<T>(model[j]),
        decreases values.len() - i,
    {
        assert(model[i as int] == values[i as int]@);
        let code = compile_value::<T>(&values[i])?;
        codes.push(code);
        i += 1;
    }
    assert(views(codes@) =~= values_code::<T>(model));
    Ok(codes)
}

/// Compiles a name where it stands for itself.
pub fn compile_name<T: Target>(name: &Name) -> (result: Result<String, Error>)
    ensures
        lowered(result, name_compiles(name@), name_code::<T>(name@)),
    decreases name, 0nat,
{
    match name {
        Name::Name(n) => Ok(compile_identifier::<T>(n)),
        Name::DotName(head, tail) => {
            let head_code = compile_value::<T>(head)?;
            Ok(T::dotname(head_code.as_str(), tail.as_slice()))
        },
        Name::IndexName(head, tail) => {
            let head_code = compile_value::<T>(head)?;
            let keys = compile_values::<T>(tail)?;
            Ok(T::indexname(head_code.as_str(), keys.as_slice()))
        },
    }
}

/// Compiles an anonymous function to the text that pushes its closure.
pub fn compile_function<T: Target>(function: &Function) -> (result: Result<String, Error>)
    ensures
        lowered(result, function_compiles(function@), function_code::<T>(function@)),
    decreases function, 0nat,
{
    let mut body = compile_stores::<T>(&function.0);
    let statements = compile_suite::<T>(&function.1)?;
    body.append(statements.as_str());
    Ok(T::push(T::func(body.as_str()).as_str()))
}

/// Compiles a block: its statements in source order.
pub fn compile_suite<T: Target>(suite: &Suite) -> (result: Result<String, Error>)
    ensures
        lowered(result, suite_compiles(suite@), suite_code::<T>(suite@)),
    decreases suite, 1nat,
{
    let mut code = String::new();
    let ghost model = exprs_view(suite.0@);
    let ghost parts = exprs_code::<T>(model);
    let mut i: usize = 0;
    while i < suite.0.len()
        invariant
            i <= suite.0.len(),
            model == exprs_view(suite.0@),
            parts == exprs_code::<T>(model),
            code@ == concat(parts.take(i as int)),
            forall|j: int| 0 <= j < i ==> expr_compiles(#[trigger] model[j]),
        decreases suite.0.len() - i,
    {
        assert(model[i as int] == suite.0[i as int]@);
        let statement = compile_expr::<T>(&suite.0[i])?;
        code.append(statement.as_str());
        proof {
            lemma_concat_take(parts, i as int);
        }
        i += 1;
    }
    assert(parts.take(suite.0.len() as int) =~= parts);
    Ok(code)
}

/// Compiles the assignment of the value that `value` computes to `name`.
pub fn compile_assignment<T: Target>(name: &Name, value: &str) -> (result: Result<
    String,
    Error,
>)
    ensures
        lowered(result, name_compiles(name@), assignment_code::<T>(name@, value@)),
    decreases name, 1nat,
{
    let mut code = T::copy(value);
    match name {
        Name::Name(n) => {
            code.append(compile_identifier::<T>(n).as_str());
            Ok(T::store(code.as_str()))
        },
        _ => {
            code.append(compile_name::<T>(name)?.as_str());
            Ok(T::assign(code.as_str()))
        },
    }
}

/// Compiles a named function: the assignment of its closure to its name.
pub fn compile_function_def<T: Target>(def: &FunctionDef) -> (result: Result<String, Error>)
    ensures
        lowered(result, function_def_compiles(def@), function_def_code::<T>(def@)),
    decreases def, 2nat,
{
    let function = compile_function::<T>(&def.1)?;
    compile_assignment::<T>(&def.0, function.as_str())
}

/// Loads `self`.
fn compile_self<T: Target>() -> (code: String)
    ensures
        code@ == self_code::<T>(),
{
    T::load(T::push(T::string(T::quote("self").as_str()).as_str()).as_str())
}

/// Compiles `self = dict()`.
fn compile_self_init<T: Target>() -> (code: String)
    ensures
        code@ == self_init_code::<T>(),
{
    let dict = T::load(T::push(T::string(T::quote("dict").as_str()).as_str()).as_str());
    let mut code = T::copy(T::call(dict.as_str()).as_str());
    code.append(T::push(T::string(T::quote("self").as_str()).as_str()).as_str());
    T::store(code.as_str())
}

/// Compiles a method of a class: the assignment of its closure to the
/// attribute of `self` that its name gives.
pub fn compile_method<T: Target>(method: &FunctionDef) -> (result: Result<String, Error>)
    ensures
        lowered(result, method_compiles(method@), method_code::<T>(method@)),
    decreases method, 1nat,
{
    proof {
        reveal_with_fuel(name_view, 2);
    }
    let mut own: Vec<Identifier> = Vec::new();
    let path = match &method.0 {
        Name::Name(n) => {
            own.push(Identifier(n.0.clone()));
            assert(idents_view(own@) =~= seq![n@]);
            own.as_slice()
        },
        Name::DotName(_, segments) => segments.as_slice(),
        Name::IndexName(_, _) => {
            return Err(Error::InvalidFunctionName);
        },
    };
    let mut code = T::copy(compile_function::<T>(&method.1)?.as_str());
    code.append(T::dotname(compile_self::<T>().as_str(), path).as_str());
    Ok(T::assign(code.as_str()))
}

/// Compiles the constructor of a class: a closure without parameters that
/// creates `self`, stores each method in it and yields it.
pub fn compile_constructor<T: Target>(methods: &Vec<FunctionDef>) -> (result: Result<
    String,
    Error,
>)
    ensures
        lowered(
            result,
            methods_compile(function_defs_view(methods@)),
            constructor_code::<T>(function_defs_view(methods@)),
        ),
    decreases methods, 1nat,
{
    let mut body = compile_self_init::<T>();
    let ghost model = function_defs_view(methods@);
    let ghost parts = methods_code::<T>(model);
    let mut stored = String::new();
    let mut i: usize = 0;
    while i < methods.len()
        invariant
            i <= methods.len(),
            model == function_defs_view(methods@),
            parts == methods_code::<T>(model),
            stored@ == concat(parts.take(i as int)),
            forall|j: int| 0 <= j < i ==> method_compiles(#[trigger] model[j]),
        decreases methods.len() - i,
    {
        assert(model[i as int] == methods[i as int]@);
        let method = compile_method::<T>(&methods[i])?;
        stored.append(method.as_str());
        proof {
            lemma_concat_take(parts, i as int);
        }
        i += 1;
    }
    assert(parts.take(methods.len() as int) =~= parts);
    body.append(stored.as_str());
    body.append(compile_self::<T>().as_str());
    Ok(T::push(T::func(body.as_str()).as_str()))
}

/// Compiles a class: the assignment of its constructor to its name.
pub fn compile_struct_def<T: Target>(def: &StructDef) -> (result: Result<String, Error>)
    ensures
        lowered(result, struct_def_compiles(def@), struct_def_code::<T>(def@)),
    decreases def, 2nat,
{
    let constructor = compile_constructor::<T>(&def.1)?;
    compile_assignment::<T>(&def.0, constructor.as_str())
}

/// Compiles a statement.
pub fn compile_expr<T: Target>(statement: &Expr) -> (result: Result<String, Error>)
    ensures
        lowered(result, expr_compiles(statement@), expr_code::<T>(statement@)),
    decreases statement, 3nat,
{
    match statement {
        Expr::Assignment(name, value) => {
            let value_code = compile_value::<T>(value)?;
            compile_assignment::<T>(name, value_code.as_str())
        },
        Expr::WhileLoop(condition, body) => {
            let condition_code = compile_value::<T>(condition)?;
            let body_code = compile_suite::<T>(body)?;
            Ok(T::while_loop(condition_code.as_str(), body_code.as_str()))
        },
        Expr::ForLoop { counter, element, list, body } => {
            let counter_code = compile_identifier::<T>(counter);
            let element_code = compile_identifier::<T>(element);
            let list_code = compile_value::<T>(list)?;
            let body_code = compile_suite::<T>(body)?;
            Ok(
                T::for_loop(
                    counter_code.as_str(),
                    element_code.as_str(),
                    list_code.as_str(),
                    body_code.as_str(),
                ),
            )
        },
        Expr::IfThenElse(condition, then_body, else_body) => {
            let condition_code = compile_value::<T>(condition)?;
            let then_code = compile_suite::<T>(then_body)?;
            let else_code = compile_suite::<T>(else_body)?;
            Ok(T::if_then_else(condition_code.as_str(), then_code.as_str(), else_code.as_str()))
        },
        Expr::FunctionDef(def) => compile_function_def::<T>(def),
        Expr::StructDef(def) => compile_struct_def::<T>(def),
        Expr::Value(value) => compile_value::<T>(value),
    }
}

/// Compiles a block that is no deeper than `limit`. A deeper block is not
/// gone into any further than `limit` and nothing of it is compiled: `None`.
pub fn compile_suite_within<T: Target>(suite: &Suite, limit: usize) -> (result: Option<
    Result<String, Error>,
>)
    ensures
        result is None == (suite_depth(suite@) > limit),
        result matches Some(compiled) ==> lowered(
            compiled,
            suite_compiles(suite@),
            suite_code::<T>(suite@),
        ),
{
    if suite_deeper_than(suite, limit) {
        None
    } else {
        Some(compile_suite::<T>(suite))
    }
}

impl<T: Target> Compile<T> for Literal {
    open spec fn compiles(&self) -> bool {
        true
    }

    open spec fn code(&self) -> Seq<char> {
        literal_code::<T>(self@)
    }

    fn compile(self) -> (result: Result<String, Error>) {
        Ok(compile_literal::<T>(&self))
    }
}

impl<T: Target> Compile<T> for FnCall {
    open spec fn compiles(&self) -> bool {
        value_compiles(self@)
    }

    open spec fn code(&self) -> Seq<char> {
        value_code::<T>(self@)
    }

    fn compile(self) -> (result: Result<String, Error>) {
        compile_fn_call::<T>(&self)
    }
}

impl<T: Target> Compile<T> for Identifier {
    open spec fn compiles(&self) -> bool {
        true
    }

    open spec fn code(&self) -> Seq<char> {
        identifier_code::<T>(self@)
    }

    fn compile(self) -> (result: Result<String, Error>) {
        Ok(compile_identifier::<T>(&self))
    }
}

impl<T: Target> Compile<T> for Function {
    open spec fn compiles(&self) -> bool {
        function_compiles(self@)
    }

    open spec fn code(&self) -> Seq<char> {
        function_code::<T>(self@)
    }

    fn compile(self) -> (result: Result<String, Error>) {
        compile_function::<T>(&self)
    }
}

impl<T: Target> Compile<T> for FunctionDef {
    open spec fn compiles(&self) -> bool {
        function_def_compiles(self@)
    }

    open spec fn code(&self) -> Seq<char> {
        function_def_code::<T>(self@)
    }

    fn compile(self) -> (result: Result<String, Error>) {
        compile_function_def::<T>(&self)
    }
}

impl<T: Target> Compile<T> for Value {
    open spec fn compiles(&self) -> bool {
        value_compiles(self@)
    }

    open spec fn code(&self) -> Seq<char> {
        value_code::<T>(self@)
    }

    fn compile(self) -> (result: Result<String, Error>) {
        compile_value::<T>(&self)
    }
}

impl<T: Target> Compile<T> for Name {
    open spec fn compiles(&self) -> bool {
        name_compiles(self@)
    }

    open spec fn code(&self) -> Seq<char> {
        name_code::<T>(self@)
    }

    fn compile(self) -> (result: Result<String, Error>) {
        compile_name::<T>(&self)
    }
}

impl<T: Target> Compile<T> for Expr {
    open spec fn compiles(&self) -> bool {
        expr_compiles(self@)
    }

    open spec fn code(&self) -> Seq<char> {
        expr_code::<T>(self@)
    }

    fn compile(self) -> (result: Result<String, Error>) {
        compile_expr::<T>(&self)
    }
}

impl<T: Target> Compile<T> for Suite {
    open spec fn compiles(&self) -> bool {
        suite_compiles(self@)
    }

    open spec fn code(&self) -> Seq<char> {
        suite_code::<T>(self@)
    }

    fn compile(self) -> (result: Result<String, Error>) {
        compile_suite::<T>(&self)
    }
}

impl<T: Target> Compile<T> for StructDef {
    open spec fn compiles(&self) -> bool {
        struct_def_compiles(self@)
    }

    open spec fn code(&self) -> Seq<char> {
        struct_def_code::<T>(self@)
    }

    fn compile(self) -> (result: Result<String, Error>) {
        compile_struct_def::<T>(&self)
    }
}

} // verus!
