//! Classes as constructors.
//!
//! A class is sugar for a function without parameters, bound to the name of
//! the class. The function creates an empty container named `self`, stores
//! each method in it as an attribute, and yields it. Objects are thus
//! dictionaries of closures.

use vstd::prelude::*;
use vstd::string::*;
use crate::lower::{
    arguments_code, assignment_code, callee_code, callee_compiles, constructor_code, copied_codes,
    expr_code, expr_compiles, exprs_code, function_code, function_compiles, function_def_code,
    function_def_compiles, identifier_code, method_code, method_compiles, method_segments,
    methods_code, methods_compile, name_code, name_compiles, self_code, self_init_code, stores_code,
    struct_def_code, struct_def_compiles, suite_code, suite_compiles, value_code, value_compiles,
    values_compile,
};
use crate::target::{Error, Target};
use crate::text::{concat, lemma_concat_add, reversed};
use crate::token::{
    expr_view, expr_well_formed, exprs_view, function_def_view, function_def_well_formed,
    function_defs_view, function_well_formed, idents_view, name_view, name_well_formed,
    struct_def_well_formed, suite_well_formed, value_view, value_well_formed, values_view,
    values_well_formed, Expr, ExprView, FnCall, Function, FunctionDef, FunctionDefView,
    FunctionView, Identifier, Name, NameView, StructDef, StructDefView, Suite, Value, ValueView,
};

verus! {

/// The value `self`.
pub open spec fn self_value() -> ValueView {
    ValueView::Name(NameView::Name("self"@))
}

/// The statement `self = dict()`.
pub open spec fn self_init() -> ExprView {
    ExprView::Assignment(
        NameView::Name("self"@),
        ValueView::FnCall(Box::new(ValueView::Name(NameView::Name("dict"@))), Seq::empty()),
    )
}

/// The statement that stores `method` in `self`: the definition of its
/// function under the dotted path from `self` through its segments.
pub open spec fn method_def(method: FunctionDefView) -> ExprView {
    ExprView::FunctionDef(
        FunctionDefView {
            name: NameView::DotName(Box::new(self_value()), method_segments(method.name)),
            function: method.function,
        },
    )
}

/// The statements that store the methods `methods` in `self`.
pub open spec fn method_defs(methods: Seq<FunctionDefView>) -> Seq<ExprView> {
    Seq::new(methods.len(), |i: int| method_def(methods[i]))
}

/// The constructor of a class with the methods `methods`.
pub open spec fn constructor(methods: Seq<FunctionDefView>) -> FunctionView {
    FunctionView {
        params: Seq::empty(),
        body: seq![self_init()] + method_defs(methods) + seq![ExprView::Value(self_value())],
    }
}

/// The named function that a class stands for.
pub open spec fn desugared(def: StructDefView) -> FunctionDefView {
    FunctionDefView { name: def.name, function: constructor(def.methods) }
}

/// The text of `self = dict()` is that of the statement.
proof fn lemma_self_init_code<T: Target>()
    ensures
        expr_code::<T>(self_init()) == self_init_code::<T>(),
{
    let dict = ValueView::Name(NameView::Name("dict"@));
    let call = ValueView::FnCall(Box::new(dict), Seq::empty());
    assert(copied_codes::<T>(Seq::empty()) =~= Seq::<Seq<char>>::empty());
    assert(reversed(Seq::<Seq<char>>::empty()) =~= Seq::<Seq<char>>::empty());
    assert(arguments_code::<T>(Seq::empty()) =~= Seq::<char>::empty());
    assert(value_code::<T>(dict) == T::spec_load(identifier_code::<T>("dict"@)));
    assert(callee_code::<T>(dict) == T::spec_call(value_code::<T>(dict)));
    assert(value_code::<T>(call) =~= T::spec_call(value_code::<T>(dict)));
    assert(assignment_code::<T>(NameView::Name("self"@), value_code::<T>(call))
        == self_init_code::<T>());
}

/// The text that stores a method is that of its definition under `self`.
proof fn lemma_method_def_code<T: Target>(method: FunctionDefView)
    ensures
        expr_code::<T>(method_def(method)) == method_code::<T>(method),
{
    let name = NameView::DotName(Box::new(self_value()), method_segments(method.name));
    let def = FunctionDefView { name, function: method.function };
    assert(value_code::<T>(self_value()) == self_code::<T>());
    assert(name_code::<T>(name) == T::spec_dotname(
        self_code::<T>(),
        method_segments(method.name),
    ));
    assert(assignment_code::<T>(name, function_code::<T>(method.function))
        == method_code::<T>(method));
    assert(function_def_code::<T>(def) == method_code::<T>(method));
}

/// A class compiles to the text of the named function that it stands for:
/// the assignment, to the name of the class, of a closure that creates
/// `self`, stores each method in it under the method's own name and yields
/// it.
pub proof fn lemma_class_is_constructor<T: Target>(def: StructDefView)
    ensures
        struct_def_code::<T>(def) == function_def_code::<T>(desugared(def)),
{
    let methods = def.methods;
    let body = constructor(methods).body;
    let first = seq![self_init()];
    let last = seq![ExprView::Value(self_value())];
    let codes = exprs_code::<T>(body);
    let first_codes = seq![self_init_code::<T>()];
    let last_codes = seq![self_code::<T>()];
    lemma_self_init_code::<T>();
    assert(value_code::<T>(self_value()) == self_code::<T>());
    assert(expr_code::<T>(ExprView::Value(self_value())) == self_code::<T>());
    assert forall|i: int| 0 <= i < methods.len() implies expr_code::<T>(
        #[trigger] method_defs(methods)[i],
    ) == methods_code::<T>(methods)[i] by {
        lemma_method_def_code::<T>(methods[i]);
    }
    assert(codes =~= first_codes + methods_code::<T>(methods) + last_codes) by {
        assert(codes.len() == methods.len() + 2);
        assert forall|i: int| 0 <= i < codes.len() implies codes[i] == (first_codes
            + methods_code::<T>(methods) + last_codes)[i] by {
            if i == 0 {
                assert(body[i] == self_init());
            } else if i <= methods.len() {
                assert(body[i] == method_defs(methods)[i - 1]);
            } else {
                assert(body[i] == ExprView::Value(self_value()));
            }
        }
    }
    lemma_concat_add(first_codes + methods_code::<T>(methods), last_codes);
    lemma_concat_add(first_codes, methods_code::<T>(methods));
    assert(concat(first_codes) =~= self_init_code::<T>()) by {
        assert(first_codes.drop_last() =~= Seq::<Seq<char>>::empty());
        assert(concat(first_codes.drop_last()) =~= Seq::<char>::empty());
    }
    assert(concat(last_codes) =~= self_code::<T>()) by {
        assert(last_codes.drop_last() =~= Seq::<Seq<char>>::empty());
        assert(concat(last_codes.drop_last()) =~= Seq::<char>::empty());
    }
    assert(stores_code::<T>(Seq::empty()) =~= Seq::<char>::empty()) by {
        assert(Seq::new(
            0,
            |i: int|
                T::spec_store(
                    identifier_code::<T>(Seq::<Seq<char>>::empty()[i]),
                ),
        ) =~= Seq::<Seq<char>>::empty());
    }
    assert(suite_code::<T>(body) == self_init_code::<T>() + concat(methods_code::<T>(methods))
        + self_code::<T>());
    assert(stores_code::<T>(Seq::empty()) + suite_code::<T>(body) =~= suite_code::<T>(body));
    assert(function_code::<T>(constructor(methods)) == constructor_code::<T>(
        methods,
    ));
}

/// Whether each method of `methods` has a name that can name an attribute:
/// an identifier or a dotted path.
pub open spec fn methods_named(methods: Seq<FunctionDefView>) -> bool {
    forall|i: int| 0 <= i < methods.len() ==> !((#[trigger] methods[i]).name is IndexName)
}

/// A class can be compiled exactly where its methods have names that can
/// name attributes and the named function that it stands for can be
/// compiled.
pub proof fn lemma_class_compiles_as_constructor(def: StructDefView)
    ensures
        struct_def_compiles(def) == (methods_named(def.methods) && function_def_compiles(
            desugared(def),
        )),
{
    let methods = def.methods;
    let body = constructor(methods).body;
    let dict = ValueView::Name(NameView::Name("dict"@));
    let call = ValueView::FnCall(Box::new(dict), Seq::empty());
    assert(expr_compiles(self_init())) by {
        assert(values_compile(Seq::empty()));
        assert(value_compiles(dict)) by {
            assert(name_compiles(NameView::Name("dict"@)));
        }
        assert(callee_compiles(dict));
        assert(value_compiles(call));
        assert(name_compiles(NameView::Name("self"@)));
    }
    assert(value_compiles(self_value())) by {
        assert(name_compiles(NameView::Name("self"@)));
    }
    assert(expr_compiles(ExprView::Value(self_value())));
    assert forall|i: int| 0 <= i < methods.len() implies expr_compiles(
        #[trigger] method_defs(methods)[i],
    ) == function_compiles(methods[i].function) by {
        let name = NameView::DotName(Box::new(self_value()), method_segments(methods[i].name));
        let def = FunctionDefView { name, function: methods[i].function };
        assert(name_compiles(name));
        assert(function_def_compiles(def) == function_compiles(
            methods[i].function,
        ));
    }
    if struct_def_compiles(def) {
        assert(methods_named(methods)) by {
            assert forall|i: int| 0 <= i < methods.len() implies !((
            #[trigger] methods[i]).name is IndexName) by {
                assert(method_compiles(methods[i]));
            }
        }
        assert(suite_compiles(body)) by {
            assert forall|i: int| 0 <= i < body.len() implies expr_compiles(
                #[trigger] body[i],
            ) by {
                if i == 0 {
                } else if i <= methods.len() {
                    assert(body[i] == method_defs(methods)[i - 1]);
                    assert(method_compiles(methods[i - 1]));
                } else {
                }
            }
        }
        assert(function_compiles(constructor(methods)));
    }
    if methods_named(methods) && function_def_compiles(desugared(def)) {
        assert(function_compiles(constructor(methods)));
        assert(suite_compiles(body));
        assert(methods_compile(methods)) by {
            assert forall|i: int| 0 <= i < methods.len() implies method_compiles(
                #[trigger] methods[i],
            ) by {
                assert(body[i + 1] == method_defs(methods)[i]);
                assert(expr_compiles(body[i + 1]));
            }
        }
    }
}

/// A well-formed class whose methods have names that can name attributes
/// stands for a well-formed function.
pub proof fn lemma_desugared_is_well_formed(def: StructDefView)
    requires
        struct_def_well_formed(def),
        methods_named(def.methods),
    ensures
        function_def_well_formed(desugared(def)),
{
    let methods = def.methods;
    let body = constructor(methods).body;
    let dict = ValueView::Name(NameView::Name("dict"@));
    let call = ValueView::FnCall(Box::new(dict), Seq::empty());
    assert(expr_well_formed(self_init())) by {
        assert(name_well_formed(NameView::Name("self"@)));
        assert(value_well_formed(dict)) by {
            assert(name_well_formed(NameView::Name("dict"@)));
        }
        assert(values_well_formed(Seq::empty()));
        assert(value_well_formed(call));
    }
    assert(value_well_formed(self_value())) by {
        assert(name_well_formed(NameView::Name("self"@)));
    }
    assert(expr_well_formed(ExprView::Value(self_value())));
    assert forall|i: int| 0 <= i < body.len() implies expr_well_formed(#[trigger] body[i]) by {
        if 0 < i <= methods.len() {
            let method = methods[i - 1];
            assert(body[i] == method_defs(methods)[i - 1]);
            assert(function_def_well_formed(method));
            assert(!(method.name is IndexName));
            let name = NameView::DotName(Box::new(self_value()), method_segments(method.name));
            assert(method_segments(method.name).len() > 0) by {
                assert(name_well_formed(method.name));
            }
            assert(name_well_formed(name));
            assert(function_def_well_formed(
                FunctionDefView { name, function: method.function },
            ));
        }
    }
    assert(suite_well_formed(body));
    assert(function_well_formed(constructor(methods)));
    assert(name_well_formed(def.name));
}

/// The value `self`.
fn make_self() -> (value: Value)
    ensures
        value@ == self_value(),
{
    proof {
        reveal_with_fuel(value_view, 2);
    }
    Value::Name(Name::Name(Identifier(String::from_str("self"))))
}

impl StructDef {
    /// Rewrites the class as the named function that it stands for. A method
    /// under an indexed path has no name to be stored under:
    /// `InvalidFunctionName`.
    pub fn desugar(self) -> (result: Result<FunctionDef, Error>)
        ensures
            match result {
                Ok(def) => methods_named(self@.methods) && def@ == desugared(self@),
                Err(error) => !methods_named(self@.methods) && error
                    == Error::InvalidFunctionName,
            },
            struct_def_well_formed(self@) ==> (result matches Ok(def)
                ==> function_def_well_formed(def@)),
    {
        proof {
            if struct_def_well_formed(self@) && methods_named(self@.methods) {
                lemma_desugared_is_well_formed(self@);
            }
        }
        proof {
            reveal_with_fuel(value_view, 3);
            reveal_with_fuel(name_view, 3);
            reveal_with_fuel(expr_view, 3);
            reveal_with_fuel(function_def_view, 3);
        }
        let StructDef(name, methods) = self;
        let ghost model = function_defs_view(methods@);
        let mut body: Vec<Expr> = Vec::new();
        let dict = Value::Name(Name::Name(Identifier(String::from_str("dict"))));
        body.push(
            Expr::Assignment(
                Name::Name(Identifier(String::from_str("self"))),
                Value::FnCall(FnCall(Box::new(dict), Vec::new())),
            ),
        );
        assert(exprs_view(body@) =~= seq![self_init()]) by {
            assert(values_view(Seq::<Value>::empty()) =~= Seq::<ValueView>::empty());
            assert(body@[0]@ == self_init());
        }
        for method in iter: methods
            invariant
                iter.seq() == methods@,
                model == function_defs_view(methods@),
                model == self@.methods,
                exprs_view(body@) == seq![self_init()] + method_defs(model).take(
                    iter.index() as int,
                ),
                forall|i: int| 0 <= i < iter.index() ==> !((#[trigger] model[i]).name is IndexName),
        {
            proof {
                reveal_with_fuel(value_view, 3);
                reveal_with_fuel(name_view, 3);
                reveal_with_fuel(expr_view, 3);
                reveal_with_fuel(function_def_view, 3);
            }
            let ghost index = iter.index() as int;
            assert(model[index] == method@);
            let FunctionDef(method_name, function) = method;
            let segments = match method_name {
                Name::Name(identifier) => {
                    let segments = vec![identifier];
                    assert(idents_view(segments@) =~= seq![identifier@]);
                    segments
                },
                Name::DotName(_, segments) => segments,
                Name::IndexName(_, _) => {
                    return Err(Error::InvalidFunctionName);
                },
            };
            let stored = Expr::FunctionDef(
                FunctionDef(Name::DotName(Box::new(make_self()), segments), function),
            );
            assert(stored@ == method_def(model[index]));
            let ghost before = exprs_view(body@);
            body.push(stored);
            assert(exprs_view(body@) =~= before.push(stored@));
            assert(exprs_view(body@) =~= seq![self_init()] + method_defs(model).take(index + 1));
        }
        assert(method_defs(model).take(model.len() as int) =~= method_defs(model));
        let ghost before = exprs_view(body@);
        body.push(Expr::Value(make_self()));
        assert(exprs_view(body@) =~= before.push(ExprView::Value(self_value())));
        assert(exprs_view(body@) =~= constructor(model).body);
        let params: Vec<Identifier> = Vec::new();
        assert(idents_view(params@) =~= Seq::<Seq<char>>::empty());
        Ok(FunctionDef(name, Function(params, Suite(body))))
    }
}

} // verus!
