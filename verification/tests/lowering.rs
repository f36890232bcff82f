use xassembler::{
    compile, Compile, Error, Expr, FnCall, Function, FunctionDef, Golang, Identifier, Literal,
    Name, Rust, StructDef, Suite, Value,
};

fn id(name: &str) -> Identifier {
    Identifier(name.to_string())
}

fn var(name: &str) -> Value {
    Value::Name(Name::Name(id(name)))
}

fn num(text: &str) -> Value {
    Value::Literal(Literal::Number(text.to_string()))
}

fn rust<C: Compile<Rust>>(node: C) -> Result<String, Error> {
    Compile::<Rust>::compile(node)
}

fn go<C: Compile<Golang>>(node: C) -> Result<String, Error> {
    Compile::<Golang>::compile(node)
}

const PUSH_X: &str = "xasm.push(Value::string(\"x\"));";
const LOAD_X: &str = "xasm.push(Value::string(\"x\"));xasm.load();";

#[test]
fn literals_compile_to_a_push() {
    assert_eq!(
        rust(Literal::String("hi".to_string())).unwrap(),
        "xasm.push(Value::string(\"hi\"));"
    );
    assert_eq!(
        rust(Literal::Number("42".to_string())).unwrap(),
        "xasm.push(Value::number(42));"
    );
    assert_eq!(
        rust(Literal::ForeignFunction("print".to_string())).unwrap(),
        "xasm.push(Value::function(print, &xasm));"
    );
    assert_eq!(
        go(Literal::Number("42".to_string())).unwrap(),
        "xasm.Push(NewNumber(42))\n"
    );
}

#[test]
fn identifier_compiles_to_the_push_of_its_name() {
    assert_eq!(rust(id("x")).unwrap(), PUSH_X);
    assert_eq!(rust(Name::Name(id("x"))).unwrap(), PUSH_X);
}

#[test]
fn simple_name_is_pushed_then_loaded() {
    assert_eq!(rust(var("x")).unwrap(), LOAD_X);
    assert_eq!(
        go(var("x")).unwrap(),
        "xasm.Push(NewString(\"x\"))\nxasm.Load()\n"
    );
}

#[test]
fn dotted_name_follows_attributes_from_its_head() {
    let name = Name::DotName(Box::new(var("x")), vec![id("a"), id("b")]);
    assert_eq!(
        rust(Value::Name(name)).unwrap(),
        format!(
            "{}xasm.push(Value::string(\"a\"));xasm.index();xasm.push(Value::string(\"b\"));xasm.index();",
            LOAD_X
        )
    );
}

#[test]
fn indexed_name_follows_computed_keys_from_its_head() {
    let name = Name::IndexName(Box::new(var("x")), vec![num("0"), var("k")]);
    assert_eq!(
        rust(name).unwrap(),
        format!(
            "{}xasm.push(Value::number(0));xasm.index();xasm.push(Value::string(\"k\"));xasm.load();xasm.index();",
            LOAD_X
        )
    );
}

#[test]
fn plain_call_evaluates_arguments_in_reverse_then_calls() {
    let call = FnCall(Box::new(var("f")), vec![num("1"), num("2")]);
    assert_eq!(
        rust(call).unwrap(),
        "xasm.push(Value::number(2));xasm.copy();\
         xasm.push(Value::number(1));xasm.copy();\
         xasm.push(Value::string(\"f\"));xasm.load();xasm.call();"
    );
}

#[test]
fn call_without_arguments_only_calls() {
    let call = Value::FnCall(FnCall(Box::new(var("f")), vec![]));
    assert_eq!(
        rust(call).unwrap(),
        "xasm.push(Value::string(\"f\"));xasm.load();xasm.call();"
    );
}

#[test]
fn dotted_call_sends_the_last_segment_to_the_receiver() {
    let callee = Value::Name(Name::DotName(Box::new(var("obj")), vec![id("method")]));
    let call = FnCall(Box::new(callee), vec![var("a"), var("b")]);
    let text = rust(call).unwrap();
    assert_eq!(
        text,
        "xasm.push(Value::string(\"b\"));xasm.load();xasm.copy();\
         xasm.push(Value::string(\"a\"));xasm.load();xasm.copy();\
         xasm.push(Value::string(\"obj\"));xasm.load();\
         xasm.push(Value::string(\"method\"));xasm.method_call();"
    );
    assert!(!text.contains("xasm.call();"));
}

#[test]
fn dotted_call_through_a_longer_path_indexes_up_to_the_receiver() {
    let callee = Value::Name(Name::DotName(
        Box::new(var("a")),
        vec![id("b"), id("c")],
    ));
    let call = FnCall(Box::new(callee), vec![]);
    assert_eq!(
        rust(call).unwrap(),
        "xasm.push(Value::string(\"a\"));xasm.load();\
         xasm.push(Value::string(\"b\"));xasm.index();\
         xasm.push(Value::string(\"c\"));xasm.method_call();"
    );
}

#[test]
fn dotted_call_without_a_segment_is_an_invalid_function_name() {
    let callee = Value::Name(Name::DotName(Box::new(var("obj")), vec![]));
    let call = FnCall(Box::new(callee), vec![var("a")]);
    assert_eq!(rust(call), Err(Error::InvalidFunctionName));
}

#[test]
fn error_reaches_the_top_from_any_depth() {
    let bad = Value::FnCall(FnCall(
        Box::new(Value::Name(Name::DotName(Box::new(var("obj")), vec![]))),
        vec![],
    ));
    let body = Suite(vec![Expr::WhileLoop(
        var("c"),
        Suite(vec![Expr::Assignment(Name::Name(id("x")), bad)]),
    )]);
    let function = Value::Function(Function(vec![], body));
    let program = Suite(vec![Expr::Value(var("ok")), Expr::Value(function)]);
    assert_eq!(rust(program), Err(Error::InvalidFunctionName));
}

#[test]
fn error_has_a_name() {
    assert_eq!(Error::InvalidFunctionName.name(), "InvalidFunctionName");
}

#[test]
fn assignment_to_a_simple_name_copies_then_stores() {
    let assignment = Expr::Assignment(Name::Name(id("x")), num("5"));
    assert_eq!(
        rust(assignment).unwrap(),
        "xasm.push(Value::number(5));xasm.copy();xasm.push(Value::string(\"x\"));xasm.store();"
    );
}

#[test]
fn assignment_to_a_path_copies_then_assigns() {
    let destination = Name::DotName(Box::new(var("x")), vec![id("a")]);
    let assignment = Expr::Assignment(destination, num("5"));
    assert_eq!(
        rust(assignment).unwrap(),
        "xasm.push(Value::number(5));xasm.copy();\
         xasm.push(Value::string(\"x\"));xasm.load();\
         xasm.push(Value::string(\"a\"));xasm.index();xasm.assign();"
    );
}

#[test]
fn function_stores_its_parameters_in_the_order_declared() {
    let function = Function(
        vec![id("a"), id("b")],
        Suite(vec![Expr::Value(var("a"))]),
    );
    assert_eq!(
        rust(function).unwrap(),
        "xasm.push(Value::function(|xasm: &mut Machine| {\
         xasm.push(Value::string(\"a\"));xasm.store();\
         xasm.push(Value::string(\"b\"));xasm.store();\
         xasm.push(Value::string(\"a\"));xasm.load();\
         }, &xasm));"
    );
}

#[test]
fn function_definition_is_the_assignment_of_the_function() {
    let function = || Function(vec![id("a")], Suite(vec![Expr::Value(var("a"))]));
    let definition = FunctionDef(Name::Name(id("f")), function());
    let assignment = Expr::Assignment(Name::Name(id("f")), Value::Function(function()));
    assert_eq!(rust(definition), rust(assignment));
    let definition = Expr::FunctionDef(FunctionDef(Name::Name(id("f")), function()));
    assert_eq!(
        rust(definition).unwrap(),
        "xasm.push(Value::function(|xasm: &mut Machine| {\
         xasm.push(Value::string(\"a\"));xasm.store();\
         xasm.push(Value::string(\"a\"));xasm.load();\
         }, &xasm));xasm.copy();xasm.push(Value::string(\"f\"));xasm.store();"
    );
}

#[test]
fn while_loop_hands_condition_and_body_to_the_profile() {
    let statement = Expr::WhileLoop(var("c"), Suite(vec![Expr::Value(var("x"))]));
    assert_eq!(
        rust(statement).unwrap(),
        format!(
            "xasm.push(Value::function(|xasm: &mut Machine| {{{}}}, &xasm));\
             xasm.push(Value::function(|xasm: &mut Machine| {{xasm.push(Value::string(\"c\"));xasm.load();}}, &xasm));\
             xasm.while_loop();",
            LOAD_X
        )
    );
}

#[test]
fn for_loop_hands_counter_element_list_and_body_to_the_profile() {
    let statement = Expr::ForLoop {
        counter: id("i"),
        element: id("e"),
        list: var("l"),
        body: Suite(vec![Expr::Value(var("x"))]),
    };
    assert_eq!(
        rust(statement).unwrap(),
        format!(
            "xasm.push(Value::function(|xasm: &mut Machine| {{{}}}, &xasm));\
             xasm.push(Value::string(\"l\"));xasm.load();\
             xasm.push(Value::string(\"e\"));\
             xasm.push(Value::string(\"i\"));\
             xasm.for_loop();",
            LOAD_X
        )
    );
}

#[test]
fn conditional_hands_condition_and_both_blocks_to_the_profile() {
    let statement = Expr::IfThenElse(
        var("c"),
        Suite(vec![Expr::Value(var("x"))]),
        Suite(vec![]),
    );
    assert_eq!(
        rust(statement).unwrap(),
        format!(
            "xasm.push(Value::function(|xasm: &mut Machine| {{}}, &xasm));\
             xasm.push(Value::function(|xasm: &mut Machine| {{{}}}, &xasm));\
             xasm.push(Value::function(|xasm: &mut Machine| {{xasm.push(Value::string(\"c\"));xasm.load();}}, &xasm));\
             xasm.if_then_else();",
            LOAD_X
        )
    );
}

#[test]
fn block_concatenates_its_statements_in_source_order() {
    let block = Suite(vec![
        Expr::Value(var("a")),
        Expr::Value(var("b")),
        Expr::Value(num("3")),
    ]);
    assert_eq!(
        rust(block).unwrap(),
        "xasm.push(Value::string(\"a\"));xasm.load();\
         xasm.push(Value::string(\"b\"));xasm.load();\
         xasm.push(Value::number(3));"
    );
    assert_eq!(rust(Suite(vec![])).unwrap(), "");
}

fn list_class() -> StructDef {
    StructDef(
        Name::Name(id("List")),
        vec![
            FunctionDef(
                Name::Name(id("new")),
                Function(vec![id("self")], Suite(vec![Expr::Value(var("self"))])),
            ),
            FunctionDef(
                Name::Name(id("push")),
                Function(vec![id("self"), id("item")], Suite(vec![])),
            ),
        ],
    )
}

#[test]
fn class_compiles_to_a_constructor_that_stores_its_methods_in_self() {
    let text = rust(list_class()).unwrap();
    assert_eq!(
        text,
        "xasm.push(Value::function(|xasm: &mut Machine| {\
         xasm.push(Value::string(\"dict\"));xasm.load();xasm.call();xasm.copy();\
         xasm.push(Value::string(\"self\"));xasm.store();\
         xasm.push(Value::function(|xasm: &mut Machine| {\
         xasm.push(Value::string(\"self\"));xasm.store();\
         xasm.push(Value::string(\"self\"));xasm.load();\
         }, &xasm));xasm.copy();\
         xasm.push(Value::string(\"self\"));xasm.load();\
         xasm.push(Value::string(\"new\"));xasm.index();xasm.assign();\
         xasm.push(Value::function(|xasm: &mut Machine| {\
         xasm.push(Value::string(\"self\"));xasm.store();\
         xasm.push(Value::string(\"item\"));xasm.store();\
         }, &xasm));xasm.copy();\
         xasm.push(Value::string(\"self\"));xasm.load();\
         xasm.push(Value::string(\"push\"));xasm.index();xasm.assign();\
         xasm.push(Value::string(\"self\"));xasm.load();\
         }, &xasm));xasm.copy();xasm.push(Value::string(\"List\"));xasm.store();"
    );
}

#[test]
fn class_compiles_as_the_function_it_desugars_to() {
    let desugared = list_class().desugar().unwrap();
    assert_eq!(rust(desugared), rust(list_class()));
    let desugared = list_class().desugar().unwrap();
    assert_eq!(go(desugared), go(list_class()));
    assert_eq!(
        rust(Expr::StructDef(list_class())),
        rust(Expr::FunctionDef(list_class().desugar().unwrap()))
    );
}

#[test]
fn class_desugars_to_a_constructor_without_parameters() {
    let self_value = || var("self");
    let expected = FunctionDef(
        Name::Name(id("List")),
        Function(
            vec![],
            Suite(vec![
                Expr::Assignment(
                    Name::Name(id("self")),
                    Value::FnCall(FnCall(Box::new(var("dict")), vec![])),
                ),
                Expr::FunctionDef(FunctionDef(
                    Name::DotName(Box::new(self_value()), vec![id("new")]),
                    Function(vec![id("self")], Suite(vec![Expr::Value(var("self"))])),
                )),
                Expr::FunctionDef(FunctionDef(
                    Name::DotName(Box::new(self_value()), vec![id("push")]),
                    Function(vec![id("self"), id("item")], Suite(vec![])),
                )),
                Expr::Value(self_value()),
            ]),
        ),
    );
    assert_eq!(list_class().desugar(), Ok(expected));
}

#[test]
fn dotted_method_name_keeps_its_trailing_segments() {
    let class = || {
        StructDef(
            Name::Name(id("C")),
            vec![FunctionDef(
                Name::DotName(Box::new(var("ignored")), vec![id("a"), id("b")]),
                Function(vec![], Suite(vec![])),
            )],
        )
    };
    let desugared = class().desugar().unwrap();
    let FunctionDef(_, Function(_, Suite(body))) = &desugared;
    assert_eq!(
        body[1],
        Expr::FunctionDef(FunctionDef(
            Name::DotName(Box::new(var("self")), vec![id("a"), id("b")]),
            Function(vec![], Suite(vec![])),
        ))
    );
    assert_eq!(rust(desugared), rust(class()));
}

#[test]
fn class_without_methods_yields_an_empty_self() {
    let class = StructDef(Name::Name(id("E")), vec![]);
    assert_eq!(
        rust(class).unwrap(),
        "xasm.push(Value::function(|xasm: &mut Machine| {\
         xasm.push(Value::string(\"dict\"));xasm.load();xasm.call();xasm.copy();\
         xasm.push(Value::string(\"self\"));xasm.store();\
         xasm.push(Value::string(\"self\"));xasm.load();\
         }, &xasm));xasm.copy();xasm.push(Value::string(\"E\"));xasm.store();"
    );
}

#[test]
fn method_under_an_indexed_path_is_an_invalid_function_name() {
    let class = || {
        StructDef(
            Name::Name(id("C")),
            vec![
                FunctionDef(Name::Name(id("ok")), Function(vec![], Suite(vec![]))),
                FunctionDef(
                    Name::IndexName(Box::new(var("a")), vec![num("0")]),
                    Function(vec![], Suite(vec![])),
                ),
            ],
        )
    };
    assert_eq!(rust(class()), Err(Error::InvalidFunctionName));
    assert_eq!(go(class()), Err(Error::InvalidFunctionName));
    assert_eq!(class().desugar(), Err(Error::InvalidFunctionName));
    assert_eq!(
        compile::<Rust>("class C { fn a[0]() { } }"),
        Err("InvalidFunctionName".to_string())
    );
}

#[test]
fn number_text_is_kept_verbatim() {
    for text in ["1000", "3.14", "-0.50", "007", "1.0"] {
        assert_eq!(
            rust(num(text)).unwrap(),
            format!("xasm.push(Value::number({}));", text)
        );
        assert_eq!(
            go(num(text)).unwrap(),
            format!("xasm.Push(NewNumber({}))\n", text)
        );
        assert_eq!(
            compile::<Rust>(text).unwrap(),
            format!("xasm.push(Value::number({}));\n\t", text)
        );
    }
}

#[test]
fn profiles_render_the_same_operations() {
    let program = || {
        Suite(vec![
            Expr::Assignment(Name::Name(id("x")), num("5")),
            Expr::Value(Value::FnCall(FnCall(
                Box::new(var("f")),
                vec![var("x"), num("1")],
            ))),
        ])
    };
    let rust_text = rust(program()).unwrap();
    let go_text = go(program()).unwrap();
    let rewritten = rust_text
        .replace("xasm.copy();", "xasm.Copy()\n")
        .replace("xasm.store();", "xasm.Store()\n")
        .replace("xasm.load();", "xasm.Load()\n")
        .replace("xasm.call();", "xasm.Call()\n")
        .replace("xasm.push(", "xasm.Push(")
        .replace("Value::number(", "NewNumber(")
        .replace("Value::string(", "NewString(")
        .replace(");", ")\n");
    assert_eq!(rewritten, go_text);
}

#[test]
fn copies_of_trees_are_equal_to_them() {
    let class = list_class();
    assert_eq!(class.clone(), class);
    let statement = Expr::StructDef(class);
    assert_eq!(statement.clone(), statement);
    let value = Value::FnCall(FnCall(
        Box::new(Value::Name(Name::IndexName(
            Box::new(var("a")),
            vec![num("0"), var("k")],
        ))),
        vec![Value::Function(Function(
            vec![id("p")],
            Suite(vec![Expr::IfThenElse(
                var("c"),
                Suite(vec![Expr::Value(var("x"))]),
                Suite(vec![]),
            )]),
        ))],
    ));
    assert_eq!(value.clone(), value);
    assert_eq!(rust(value.clone()), rust(value));
}
