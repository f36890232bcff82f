use xassembler::depth::{expr_deeper_than, name_deeper_than, value_deeper_than};
use xassembler::emit::compile_suite_within;
use xassembler::{
    compile, compile_within, parse, parse_within, Expr, FnCall, Function, FunctionDef, Golang,
    Identifier, Literal, Name, Rust, StructDef, Suite, Value, MAX_DEPTH,
};

fn id(name: &str) -> Identifier {
    Identifier(name.to_string())
}

fn var(name: &str) -> Value {
    Value::Name(Name::Name(id(name)))
}

fn call(callee: Value, arguments: Vec<Value>) -> Value {
    Value::FnCall(FnCall(Box::new(callee), arguments))
}

fn depth_of(value: &Value) -> usize {
    let mut limit = 0;
    while value_deeper_than(value, limit) {
        limit += 1;
    }
    limit
}

fn depth_of_block(block: &Suite) -> usize {
    let mut limit = 0;
    while block.deeper_than(limit) {
        limit += 1;
    }
    limit
}

fn chain(calls: usize) -> String {
    format!("f{}", "()".repeat(calls))
}

#[test]
fn chain_of_calls_longer_than_the_depth_is_refused() {
    assert!(parse_within("f()()()", 3).is_ok());
    assert_eq!(
        parse_within("f()()()", 2),
        Err("expected less nesting at position 5".to_string())
    );
    assert_eq!(
        parse_within("f()", 0),
        Err("expected less nesting at position 1".to_string())
    );
    assert_eq!(
        parse_within("f(1)(2)(3)", 2),
        Err("expected less nesting at position 7".to_string())
    );
    assert!(parse_within("f(1)(2)(3)", 3).is_ok());
    assert_eq!(
        compile_within::<Rust>("f()()", 1),
        Err("expected less nesting at position 3".to_string())
    );
    assert_eq!(
        compile_within::<Golang>("x = f()()", 1),
        Err("expected less nesting at position 7".to_string())
    );
}

#[test]
fn call_of_a_deep_callee_is_refused() {
    assert!(parse_within("a.b()", 2).is_ok());
    assert_eq!(
        parse_within("a.b()", 1),
        Err("expected less nesting at position 3".to_string())
    );
    assert!(parse_within("((f))()", 2).is_ok());
    assert!(parse_within("(f())()", 2).is_ok());
    assert_eq!(
        parse_within("((f()))()()", 2),
        Err("expected less nesting at position 3".to_string())
    );
    assert!(parse_within("((f()))()()", 3).is_ok());
    assert_eq!(
        parse_within("((f()))()()()", 3),
        Err("expected less nesting at position 11".to_string())
    );
}

#[test]
fn long_chain_fails_instead_of_overflowing() {
    let long = chain(100_000);
    let message = format!(
        "expected less nesting at position {}",
        1 + 2 * MAX_DEPTH
    );
    assert_eq!(parse(&long), Err(message.clone()));
    assert_eq!(compile::<Rust>(&long), Err(message.clone()));
    assert_eq!(compile::<Golang>(&long), Err(message));
    let long = format!("f{}", "(1)".repeat(100_000));
    assert!(compile::<Rust>(&long).is_err());
}

#[test]
fn chain_as_long_as_the_depth_compiles() {
    let fits = chain(MAX_DEPTH);
    let Suite(statements) = parse(&fits).unwrap();
    assert_eq!(statements.len(), 1);
    let text = compile::<Rust>(&fits).unwrap();
    assert_eq!(text.matches("xasm.call();").count(), MAX_DEPTH);
}

#[test]
fn tree_that_is_read_is_no_deeper_than_two_more_than_the_depth() {
    let sources = [
        "x",
        "a.b",
        "f(a.b)(c)",
        "(((a.b)[c.d]).e)(f)",
        "while c { if d { x = fn(a) { y.z(a) } } }",
        "class A { fn m(self) { self.k = fn() { g(h(1)) } } }",
    ];
    for source in sources {
        for depth in 0..8 {
            if let Ok(tree) = parse_within(source, depth) {
                assert!(!tree.deeper_than(depth + 2), "{} within {}", source, depth);
            }
        }
        assert!(parse_within(source, 8).is_ok());
    }
    let deepest = format!("{}x{}", "(".repeat(MAX_DEPTH), ")".repeat(MAX_DEPTH));
    assert!(!parse(&deepest).unwrap().deeper_than(MAX_DEPTH + 2));
    assert!(!parse(&chain(MAX_DEPTH)).unwrap().deeper_than(MAX_DEPTH + 2));
}

#[test]
fn depth_counts_how_far_nodes_stand_inside_one_another() {
    assert_eq!(depth_of(&var("x")), 1);
    assert_eq!(depth_of(&Value::Literal(Literal::Number("1".to_string()))), 1);
    assert_eq!(depth_of(&call(var("f"), vec![])), 2);
    assert_eq!(depth_of(&call(var("f"), vec![var("a"), call(var("g"), vec![])])), 3);
    assert_eq!(depth_of(&call(call(var("f"), vec![]), vec![])), 3);
    let path = Name::DotName(Box::new(var("a")), vec![id("b"), id("c")]);
    assert!(name_deeper_than(&path, 1) && !name_deeper_than(&path, 2));
    let keyed = Name::IndexName(Box::new(var("a")), vec![call(var("f"), vec![var("x")])]);
    assert!(name_deeper_than(&keyed, 2) && !name_deeper_than(&keyed, 3));
    let function = Value::Function(Function(vec![id("p")], Suite(vec![Expr::Value(var("x"))])));
    assert_eq!(depth_of(&function), 2);
    assert_eq!(depth_of(&Value::Function(Function(vec![], Suite(vec![])))), 1);
    let looping = Expr::WhileLoop(var("c"), Suite(vec![Expr::Value(call(var("f"), vec![]))]));
    assert!(expr_deeper_than(&looping, 2) && !expr_deeper_than(&looping, 3));
    assert!(looping.deeper_than(2) && !looping.deeper_than(3));
    let class = Expr::StructDef(StructDef(
        Name::Name(id("C")),
        vec![FunctionDef(
            Name::Name(id("m")),
            Function(vec![], Suite(vec![Expr::Value(var("x"))])),
        )],
    ));
    assert!(class.deeper_than(2) && !class.deeper_than(3));
    assert_eq!(depth_of_block(&Suite(vec![])), 0);
    assert_eq!(depth_of_block(&parse("x = 1 f(g(h))").unwrap()), 3);
    assert!(var("x").deeper_than(0) && !var("x").deeper_than(1));
}

#[test]
fn depth_check_does_not_go_deeper_than_its_limit() {
    let mut deep = var("f");
    for _ in 0..5_000 {
        deep = call(deep, vec![]);
    }
    assert!(value_deeper_than(&deep, 64));
    assert!(deep.deeper_than(MAX_DEPTH + 2));
    assert!(!deep.deeper_than(5_001));
    let block = Suite(vec![Expr::Value(var("x")), Expr::Value(deep)]);
    assert!(block.deeper_than(MAX_DEPTH + 2));
    std::mem::forget(block);
}

#[test]
fn tree_built_by_hand_is_compiled_only_within_the_limit() {
    let shallow = || Suite(vec![Expr::Value(call(var("f"), vec![var("x")]))]);
    assert_eq!(
        compile_suite_within::<Rust>(&shallow(), 2),
        Some(Ok("xasm.push(Value::string(\"x\"));xasm.load();xasm.copy();\
                 xasm.push(Value::string(\"f\"));xasm.load();xasm.call();"
            .to_string()))
    );
    assert_eq!(compile_suite_within::<Rust>(&shallow(), 1), None);
    assert_eq!(compile_suite_within::<Golang>(&Suite(vec![]), 0), Some(Ok(String::new())));
    let mut deep = var("f");
    for _ in 0..5_000 {
        deep = call(deep, vec![]);
    }
    let block = Suite(vec![Expr::Value(deep)]);
    assert_eq!(compile_suite_within::<Rust>(&block, MAX_DEPTH + 2), None);
    std::mem::forget(block);
}
