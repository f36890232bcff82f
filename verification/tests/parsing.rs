use xassembler::grammar::Expected;
use xassembler::layout::lay_out;
use xassembler::lexer;
use xassembler::parser;
use xassembler::report::decimal;
use xassembler::{
    compile, compile_within, parse, parse_within, Expr, FnCall, Function, FunctionDef, Golang,
    Identifier, Literal, Name, ParseError, Rust, StructDef, Suite, Value, MAX_DEPTH,
};

fn id(name: &str) -> Identifier {
    Identifier(name.to_string())
}

fn var(name: &str) -> Value {
    Value::Name(Name::Name(id(name)))
}

fn num(text: &str) -> Value {
    Value::Literal(Literal::Number(text.to_string()))
}

fn string(text: &str) -> Value {
    Value::Literal(Literal::String(text.to_string()))
}

fn call(callee: Value, arguments: Vec<Value>) -> Value {
    Value::FnCall(FnCall(Box::new(callee), arguments))
}

fn chars(text: &str) -> Vec<char> {
    text.chars().collect()
}

fn statements(source: &str) -> Vec<Expr> {
    let Suite(statements) = parse(source).unwrap();
    statements
}

fn failure(source: &str) -> ParseError {
    parser::program(&chars(source), MAX_DEPTH).unwrap_err()
}

#[test]
fn empty_source_is_an_empty_program() {
    assert_eq!(parse(""), Ok(Suite(vec![])));
    assert_eq!(parse("  \n\t // nothing\n"), Ok(Suite(vec![])));
    assert_eq!(compile::<Rust>("").unwrap(), "");
}

#[test]
fn characters_of_a_source_keep_their_order() {
    assert_eq!(lexer::characters("a\u{e9}b"), vec!['a', '\u{e9}', 'b']);
    assert_eq!(lexer::characters(""), Vec::<char>::new());
}

#[test]
fn text_of_a_range_is_its_characters() {
    let source = chars("hello world");
    assert_eq!(lexer::text(&source, 6, 11), "world");
    assert_eq!(lexer::text(&source, 3, 3), "");
}

#[test]
fn skip_passes_blank_space_and_comments() {
    let source = chars("  // c\n\t x // d");
    assert_eq!(lexer::skip(&source, 0), 9);
    assert_eq!(lexer::skip(&source, 9), 9);
    assert_eq!(lexer::skip(&source, 10), 15);
    let slash = chars(" / x");
    assert_eq!(lexer::skip(&slash, 0), 1);
}

#[test]
fn extents_of_words_numbers_and_strings() {
    let source = chars("ab_1+ 12.5.x -3 -x 7. \"a\\\"b\" \"open");
    assert_eq!(lexer::word_end(&source, 0), 4);
    assert_eq!(lexer::word_end(&source, 4), 4);
    assert!(lexer::starts_number(&source, 6));
    assert_eq!(lexer::number_end(&source, 6), 10);
    assert!(lexer::starts_number(&source, 13));
    assert_eq!(lexer::number_end(&source, 13), 15);
    assert!(!lexer::starts_number(&source, 16));
    assert_eq!(lexer::number_end(&source, 16), 16);
    assert_eq!(lexer::comment(&source, 0), None);
    assert_eq!(lexer::comment(&chars("a // b\nc"), 2), Some(6));
    assert_eq!(lexer::comment(&chars("//"), 0), Some(2));
    assert_eq!(lexer::number_end(&source, 19), 20);
    assert_eq!(lexer::string_end(&source, 23), Some(27));
    assert_eq!(lexer::string_end(&source, 30), None);
    assert_eq!(lexer::digits_end(&source, 6), 8);
    assert_eq!(lexer::line_end(&source, 0), source.len());
}

#[test]
fn character_classes() {
    assert!(lexer::is_space(' ') && lexer::is_space('\t') && lexer::is_space('\r'));
    assert!(lexer::is_space('\n') && !lexer::is_space('x'));
    assert!(lexer::is_letter('a') && lexer::is_letter('Z') && !lexer::is_letter('_'));
    assert!(!lexer::is_letter('\u{e9}'));
    assert!(lexer::is_digit('0') && lexer::is_digit('9') && !lexer::is_digit('a'));
    assert!(lexer::is_word_char('_') && lexer::is_word_char('7') && !lexer::is_word_char('-'));
}

#[test]
fn value_statement_is_a_name_a_literal_or_a_call() {
    assert_eq!(
        statements("x 12 \"s\" @f f(1)"),
        vec![
            Expr::Value(var("x")),
            Expr::Value(num("12")),
            Expr::Value(string("s")),
            Expr::Value(Value::Literal(Literal::ForeignFunction("f".to_string()))),
            Expr::Value(call(var("f"), vec![num("1")])),
        ]
    );
}

#[test]
fn string_literal_keeps_the_text_between_its_quotes() {
    assert_eq!(
        statements(r#""a\"b\\" "" "// no comment""#),
        vec![
            Expr::Value(string(r#"a\"b\\"#)),
            Expr::Value(string("")),
            Expr::Value(string("// no comment")),
        ]
    );
    assert_eq!(
        compile::<Rust>(r#"print("tab\there")"#).unwrap(),
        "xasm.push(Value::string(\"tab\\there\"));\n\txasm.copy();\n\t\
         xasm.push(Value::string(\"print\"));\n\txasm.load();\n\txasm.call();\n\t"
    );
}

#[test]
fn number_literal_keeps_its_source_text() {
    assert_eq!(
        statements("1000 3.14 -2 -0.50 007"),
        vec![
            Expr::Value(num("1000")),
            Expr::Value(num("3.14")),
            Expr::Value(num("-2")),
            Expr::Value(num("-0.50")),
            Expr::Value(num("007")),
        ]
    );
}

#[test]
fn point_without_digits_begins_a_dotted_path() {
    assert_eq!(
        statements("1.x"),
        vec![Expr::Value(Value::Name(Name::DotName(
            Box::new(num("1")),
            vec![id("x")]
        )))]
    );
}

#[test]
fn assignment_takes_a_name_and_a_value() {
    assert_eq!(
        statements("x = 5; y.a = x z[0][1] = f()"),
        vec![
            Expr::Assignment(Name::Name(id("x")), num("5")),
            Expr::Assignment(Name::DotName(Box::new(var("y")), vec![id("a")]), var("x")),
            Expr::Assignment(
                Name::IndexName(Box::new(var("z")), vec![num("0"), num("1")]),
                call(var("f"), vec![])
            ),
        ]
    );
}

#[test]
fn assignment_compiles_to_copy_then_store() {
    assert_eq!(
        compile::<Rust>("x = 5").unwrap(),
        "xasm.push(Value::number(5));\n\txasm.copy();\n\t\
         xasm.push(Value::string(\"x\"));\n\txasm.store();\n\t"
    );
    assert_eq!(
        compile::<Golang>("x = 5").unwrap(),
        "xasm.Push(NewNumber(5))\nxasm.Copy()\nxasm.Push(NewString(\"x\"))\nxasm.Store()\n"
    );
}

#[test]
fn group_is_the_value_between_its_brackets() {
    assert_eq!(statements("(x)"), vec![Expr::Value(var("x"))]);
    assert_eq!(
        statements("(f)(1); (a.b).c; ((x))"),
        vec![
            Expr::Value(call(var("f"), vec![num("1")])),
            Expr::Value(Value::Name(Name::DotName(
                Box::new(Value::Name(Name::DotName(Box::new(var("a")), vec![id("b")]))),
                vec![id("c")]
            ))),
            Expr::Value(var("x")),
        ]
    );
}

#[test]
fn bracketed_name_is_not_assigned_to() {
    assert_eq!(
        failure("(x) = 1"),
        ParseError { position: 4, expected: Expected::Value }
    );
}

#[test]
fn literal_is_not_called() {
    assert_eq!(
        statements("1 (x)"),
        vec![Expr::Value(num("1")), Expr::Value(var("x"))]
    );
}

#[test]
fn call_arguments_may_end_in_a_comma() {
    assert_eq!(
        statements("f(a, b,) g( ) h(x)"),
        vec![
            Expr::Value(call(var("f"), vec![var("a"), var("b")])),
            Expr::Value(call(var("g"), vec![])),
            Expr::Value(call(var("h"), vec![var("x")])),
        ]
    );
    assert_eq!(
        failure("f(a b)"),
        ParseError { position: 4, expected: Expected::Symbol(')') }
    );
    assert_eq!(
        failure("f(,)"),
        ParseError { position: 2, expected: Expected::Value }
    );
}

#[test]
fn dotted_call_reads_as_a_call_of_a_dotted_name() {
    assert_eq!(
        statements("obj.method(a, b)"),
        vec![Expr::Value(call(
            Value::Name(Name::DotName(Box::new(var("obj")), vec![id("method")])),
            vec![var("a"), var("b")]
        ))]
    );
    let text = compile::<Rust>("obj.method(a, b)").unwrap();
    assert_eq!(
        text,
        "xasm.push(Value::string(\"b\"));\n\txasm.load();\n\txasm.copy();\n\t\
         xasm.push(Value::string(\"a\"));\n\txasm.load();\n\txasm.copy();\n\t\
         xasm.push(Value::string(\"obj\"));\n\txasm.load();\n\t\
         xasm.push(Value::string(\"method\"));\n\txasm.method_call();\n\t"
    );
}

#[test]
fn function_literal_and_function_definition() {
    let function = || {
        Function(
            vec![id("a"), id("b")],
            Suite(vec![Expr::Value(var("a"))]),
        )
    };
    assert_eq!(
        statements("fn(a, b) { a } fn f(a, b,) { a } fn o.m(a, b) { a }"),
        vec![
            Expr::Value(Value::Function(function())),
            Expr::FunctionDef(FunctionDef(Name::Name(id("f")), function())),
            Expr::FunctionDef(FunctionDef(
                Name::DotName(Box::new(var("o")), vec![id("m")]),
                function()
            )),
        ]
    );
    assert_eq!(
        statements("g = fn() { }"),
        vec![Expr::Assignment(
            Name::Name(id("g")),
            Value::Function(Function(vec![], Suite(vec![])))
        )]
    );
}

#[test]
fn class_holds_its_methods_in_source_order() {
    assert_eq!(
        statements("class List { fn new(self) { self } fn push(self, item) { } }"),
        vec![Expr::StructDef(StructDef(
            Name::Name(id("List")),
            vec![
                FunctionDef(
                    Name::Name(id("new")),
                    Function(vec![id("self")], Suite(vec![Expr::Value(var("self"))]))
                ),
                FunctionDef(
                    Name::Name(id("push")),
                    Function(vec![id("self"), id("item")], Suite(vec![]))
                ),
            ]
        ))]
    );
    assert_eq!(
        failure("class C { x }"),
        ParseError { position: 10, expected: Expected::Symbol('}') }
    );
    assert_eq!(
        failure("class 1 { }"),
        ParseError { position: 6, expected: Expected::Name }
    );
}

#[test]
fn class_source_compiles_to_a_constructor_with_the_named_attributes() {
    let text =
        compile::<Rust>("class List { fn new(self) { self } fn push(self, item) { } }").unwrap();
    let flat = text.replace(";\n\t", ";");
    assert!(flat.starts_with(
        "xasm.push(Value::function(|xasm: &mut Machine| {\
         xasm.push(Value::string(\"dict\"));xasm.load();xasm.call();xasm.copy();\
         xasm.push(Value::string(\"self\"));xasm.store();"
    ));
    assert!(flat.contains(
        "xasm.copy();xasm.push(Value::string(\"self\"));xasm.load();\
         xasm.push(Value::string(\"new\"));xasm.index();xasm.assign();"
    ));
    assert!(flat.contains(
        "xasm.copy();xasm.push(Value::string(\"self\"));xasm.load();\
         xasm.push(Value::string(\"push\"));xasm.index();xasm.assign();"
    ));
    assert!(flat.contains(
        "xasm.push(Value::function(|xasm: &mut Machine| {\
         xasm.push(Value::string(\"self\"));xasm.store();\
         xasm.push(Value::string(\"item\"));xasm.store();}, &xasm));"
    ));
    assert!(flat.ends_with(
        "xasm.push(Value::string(\"self\"));xasm.load();}, &xasm));\
         xasm.copy();xasm.push(Value::string(\"List\"));xasm.store();"
    ));
}

#[test]
fn while_and_for_loops() {
    assert_eq!(
        statements("while n { n = sub(n, 1) } for i, x in xs { print(x) }"),
        vec![
            Expr::WhileLoop(
                var("n"),
                Suite(vec![Expr::Assignment(
                    Name::Name(id("n")),
                    call(var("sub"), vec![var("n"), num("1")])
                )])
            ),
            Expr::ForLoop {
                counter: id("i"),
                element: id("x"),
                list: var("xs"),
                body: Suite(vec![Expr::Value(call(var("print"), vec![var("x")]))]),
            },
        ]
    );
    assert_eq!(
        failure("for i x in xs { }"),
        ParseError { position: 6, expected: Expected::Symbol(',') }
    );
    assert_eq!(
        failure("for i, x of xs { }"),
        ParseError { position: 9, expected: Expected::In }
    );
    assert_eq!(
        failure("for 1, x in xs { }"),
        ParseError { position: 4, expected: Expected::Identifier }
    );
}

#[test]
fn conditional_without_else_has_an_empty_second_block() {
    assert_eq!(
        statements("if c { a }"),
        vec![Expr::IfThenElse(
            var("c"),
            Suite(vec![Expr::Value(var("a"))]),
            Suite(vec![])
        )]
    );
    assert_eq!(statements("if c { a }"), statements("if c { a } else { }"));
    assert_eq!(
        compile::<Rust>("if c { a }"),
        compile::<Rust>("if c { a } else { }")
    );
    assert_eq!(
        compile::<Golang>("if c { a }\nb"),
        compile::<Golang>("if c { a } else {}\nb")
    );
    assert_eq!(
        statements("if c { a } else { b }"),
        vec![Expr::IfThenElse(
            var("c"),
            Suite(vec![Expr::Value(var("a"))]),
            Suite(vec![Expr::Value(var("b"))])
        )]
    );
}

#[test]
fn keywords_are_whole_words_and_reserved() {
    assert_eq!(
        statements("iffy = 1 fnord(x) classes whiles"),
        vec![
            Expr::Assignment(Name::Name(id("iffy")), num("1")),
            Expr::Value(call(var("fnord"), vec![var("x")])),
            Expr::Value(var("classes")),
            Expr::Value(var("whiles")),
        ]
    );
    assert_eq!(
        failure("x = else"),
        ParseError { position: 4, expected: Expected::Value }
    );
    assert_eq!(
        failure("in"),
        ParseError { position: 0, expected: Expected::Value }
    );
    assert_eq!(
        failure("fn if() { }"),
        ParseError { position: 3, expected: Expected::Value }
    );
    assert_eq!(
        failure("fn(a, while) { }"),
        ParseError { position: 6, expected: Expected::Identifier }
    );
}

#[test]
fn paths_do_not_mix_points_and_brackets() {
    assert_eq!(
        failure("a.b[0]"),
        ParseError { position: 3, expected: Expected::Value }
    );
    assert_eq!(
        statements("(a.b)[0]"),
        vec![Expr::Value(Value::Name(Name::IndexName(
            Box::new(Value::Name(Name::DotName(Box::new(var("a")), vec![id("b")]))),
            vec![num("0")]
        )))]
    );
}

#[test]
fn failures_name_the_place_and_the_expectation() {
    assert_eq!(
        failure("x = "),
        ParseError { position: 4, expected: Expected::Value }
    );
    assert_eq!(
        failure("f(1"),
        ParseError { position: 3, expected: Expected::Symbol(')') }
    );
    assert_eq!(
        failure("a[1"),
        ParseError { position: 3, expected: Expected::Symbol(']') }
    );
    assert_eq!(
        failure("(1"),
        ParseError { position: 2, expected: Expected::Symbol(')') }
    );
    assert_eq!(
        failure("a."),
        ParseError { position: 2, expected: Expected::Identifier }
    );
    assert_eq!(
        failure("x = \"abc"),
        ParseError { position: 8, expected: Expected::ClosingQuote }
    );
    assert_eq!(
        failure("@ f"),
        ParseError { position: 1, expected: Expected::Identifier }
    );
    assert_eq!(
        failure("while c x"),
        ParseError { position: 8, expected: Expected::Symbol('{') }
    );
    assert_eq!(
        failure("while c { x"),
        ParseError { position: 11, expected: Expected::Symbol('}') }
    );
    assert_eq!(
        failure("x }"),
        ParseError { position: 2, expected: Expected::EndOfInput }
    );
    assert_eq!(
        failure("fn f { }"),
        ParseError { position: 5, expected: Expected::Symbol('(') }
    );
    assert_eq!(
        failure("fn f(a { }"),
        ParseError { position: 7, expected: Expected::Symbol(')') }
    );
    assert_eq!(
        failure("- 1"),
        ParseError { position: 0, expected: Expected::Value }
    );
    assert_eq!(
        failure("x ;; y"),
        ParseError { position: 3, expected: Expected::Value }
    );
}

#[test]
fn messages_say_what_was_expected_and_where() {
    assert_eq!(
        parse("x = "),
        Err("expected a value at position 4".to_string())
    );
    assert_eq!(
        parse("f(1"),
        Err("expected `)` at position 3".to_string())
    );
    assert_eq!(
        compile::<Rust>("a."),
        Err("expected an identifier at position 2".to_string())
    );
    assert_eq!(
        compile::<Golang>("for i, x of xs { }"),
        Err("expected `in` at position 9".to_string())
    );
    assert_eq!(
        ParseError { position: 120, expected: Expected::Name }.message(),
        "expected a name at position 120"
    );
    assert_eq!(
        ParseError { position: 0, expected: Expected::ClosingQuote }.message(),
        "expected a closing quote at position 0"
    );
    assert_eq!(
        ParseError { position: 7, expected: Expected::EndOfInput }.message(),
        "expected the end of the input at position 7"
    );
    assert_eq!(
        ParseError { position: 7, expected: Expected::ShallowerNesting }.message(),
        "expected less nesting at position 7"
    );
    assert_eq!(Expected::Symbol('{').describe(), "`{`");
}

#[test]
fn decimal_numerals() {
    assert_eq!(decimal(0), "0");
    assert_eq!(decimal(9), "9");
    assert_eq!(decimal(10), "10");
    assert_eq!(decimal(1234567890), "1234567890");
    assert_eq!(decimal(usize::MAX), usize::MAX.to_string());
}

#[test]
fn nesting_is_bounded_by_the_depth() {
    assert_eq!(parse_within("x = 1 f", 0), Ok(Suite(vec![
        Expr::Assignment(Name::Name(id("x")), num("1")),
        Expr::Value(var("f")),
    ])));
    assert_eq!(
        parse_within("(x)", 0),
        Err("expected less nesting at position 0".to_string())
    );
    assert_eq!(parse_within("(x)", 1), Ok(Suite(vec![Expr::Value(var("x"))])));
    assert_eq!(
        parse_within("((x))", 1),
        Err("expected less nesting at position 1".to_string())
    );
    assert_eq!(
        parse_within("f(a[0])", 1),
        Err("expected less nesting at position 3".to_string())
    );
    assert!(parse_within("f(a[0])", 2).is_ok());
    assert_eq!(
        parse_within("while c { }", 0),
        Err("expected less nesting at position 8".to_string())
    );
    assert_eq!(
        parse_within("class C { }", 0),
        Err("expected less nesting at position 8".to_string())
    );
    assert!(parse_within("while c { if d { } }", 2).is_ok());
    assert!(parse_within("while c { if d { } }", 1).is_err());
    assert_eq!(
        compile_within::<Rust>("(x)", 0),
        Err("expected less nesting at position 0".to_string())
    );
}

#[test]
fn deep_nesting_fails_instead_of_overflowing() {
    let deep = format!("{}x{}", "(".repeat(100_000), ")".repeat(100_000));
    assert_eq!(
        parse(&deep),
        Err(format!(
            "expected less nesting at position {}",
            MAX_DEPTH
        ))
    );
    let fits = format!("{}x{}", "(".repeat(MAX_DEPTH), ")".repeat(MAX_DEPTH));
    assert_eq!(parse(&fits), Ok(Suite(vec![Expr::Value(var("x"))])));
}

#[test]
fn compiling_twice_gives_the_same_text() {
    let source = "class A { fn m(self) { self.x = 1 } } a = A() a.m() // done";
    assert_eq!(compile::<Rust>(source), compile::<Rust>(source));
    assert_eq!(compile::<Golang>(source), compile::<Golang>(source));
    assert_eq!(compile::<Rust>("x = "), compile::<Rust>("x = "));
}

#[test]
fn profiles_accept_the_same_sources() {
    for source in ["x = 5", "f(a, b)", "x = ", "class C { fn a[0]() { } }", "o.m(1)"] {
        assert_eq!(
            compile::<Rust>(source).is_ok(),
            compile::<Golang>(source).is_ok()
        );
        if let Err(message) = compile::<Rust>(source) {
            assert_eq!(compile::<Golang>(source), Err(message));
        }
    }
}

#[test]
fn line_break_follows_each_semicolon_outside_strings() {
    assert_eq!(lay_out("a;b;;c"), "a;\n\tb;\n\t;\n\tc");
    assert_eq!(lay_out(""), "");
    assert_eq!(lay_out("\"a;b\""), "\"a;b\"");
    assert_eq!(lay_out("x;\"a;\\\";b\";y;"), "x;\n\t\"a;\\\";b\";\n\ty;\n\t");
    assert_eq!(lay_out("x;\"open;"), "x;\n\t\"open;");
    assert_eq!(
        compile::<Rust>("println(\"a;b\")").unwrap(),
        "xasm.push(Value::string(\"a;b\"));\n\txasm.copy();\n\t\
         xasm.push(Value::string(\"println\"));\n\txasm.load();\n\txasm.call();\n\t"
    );
    assert_eq!(
        compile::<Rust>("x = \"a\\\";b\"; y").unwrap(),
        "xasm.push(Value::string(\"a\\\";b\"));\n\txasm.copy();\n\t\
         xasm.push(Value::string(\"x\"));\n\txasm.store();\n\t\
         xasm.push(Value::string(\"y\"));\n\txasm.load();\n\t"
    );
}

#[test]
fn go_text_has_no_line_break_inside_a_string() {
    assert_eq!(
        compile::<Golang>("println(\"a;b\")").unwrap(),
        "xasm.Push(NewString(\"a;b\"))\nxasm.Copy()\n\
         xasm.Push(NewString(\"println\"))\nxasm.Load()\nxasm.Call()\n"
    );
}

#[test]
fn readers_of_single_constructs() {
    let source = chars(" foo.bar [1] (2)");
    assert_eq!(parser::ident(&source, 0), Ok((id("foo"), 4)));
    assert_eq!(parser::dot_ident(&source, 4), Ok((vec![id("bar")], 8)));
    assert_eq!(parser::dot_ident(&source, 8), Ok((vec![], 8)));
    assert_eq!(parser::index_name(&source, 8, 1), Ok((vec![num("1")], 12)));
    assert_eq!(parser::group(&source, 12, 1), Ok((num("2"), 16)));
    assert_eq!(parser::symbol(&source, 8, '['), Some(10));
    assert_eq!(parser::symbol(&source, 8, '('), None);
    assert_eq!(
        parser::value(&source, 0, 1),
        Ok((
            Value::Name(Name::DotName(Box::new(var("foo")), vec![id("bar")])),
            8
        ))
    );
    let args = chars("a, b) { }");
    assert_eq!(parser::args(&args, 0), Ok((vec![id("a"), id("b")], 5)));
    assert_eq!(parser::suite(&args, 5, 1), Ok((Suite(vec![]), 9)));
    let literal = chars("@f 1 \"s\"");
    assert_eq!(
        parser::literal(&literal, 0),
        Ok((Literal::ForeignFunction("f".to_string()), 2))
    );
    assert_eq!(
        parser::number_literal(&literal, 2),
        Ok((Literal::Number("1".to_string()), 4))
    );
    assert_eq!(
        parser::string_literal(&literal, 4),
        Ok((Literal::String("s".to_string()), 8))
    );
    assert_eq!(
        parser::foreign_function_literal(&literal, 2),
        Err(ParseError { position: 3, expected: Expected::Value })
    );
}

#[test]
fn call_of_a_call_calls_what_the_first_call_yields() {
    let inner = call(var("f"), vec![var("a")]);
    assert_eq!(
        statements("f(a)(b)"),
        vec![Expr::Value(call(inner, vec![var("b")]))]
    );
    assert_eq!(
        statements("g(f(a)(b)(), 1)"),
        vec![Expr::Value(call(
            var("g"),
            vec![
                call(
                    call(call(var("f"), vec![var("a")]), vec![var("b")]),
                    vec![]
                ),
                num("1")
            ]
        ))]
    );
    assert_eq!(
        statements("x = (h)(1)(2); o.m(1)(2)"),
        vec![
            Expr::Assignment(
                Name::Name(id("x")),
                call(call(var("h"), vec![num("1")]), vec![num("2")])
            ),
            Expr::Value(call(
                call(
                    Value::Name(Name::DotName(Box::new(var("o")), vec![id("m")])),
                    vec![num("1")]
                ),
                vec![num("2")]
            )),
        ]
    );
    assert_eq!(
        compile::<Rust>("f(a)(b)").unwrap(),
        "xasm.push(Value::string(\"b\"));\n\txasm.load();\n\txasm.copy();\n\t\
         xasm.push(Value::string(\"a\"));\n\txasm.load();\n\txasm.copy();\n\t\
         xasm.push(Value::string(\"f\"));\n\txasm.load();\n\txasm.call();\n\t\
         xasm.call();\n\t"
    );
    assert_eq!(
        failure("f(a)(b"),
        ParseError { position: 6, expected: Expected::Symbol(')') }
    );
    assert_eq!(
        parse_within("f(a)((b))", 1),
        Err("expected less nesting at position 4".to_string())
    );
}
