use xassembler::comments::uncomment;
use xassembler::tokens::tokenize;
use xassembler::{compile, Golang, Rust};

#[test]
fn comment_test() {
    assert_eq!(
        compile::<Rust>(
            r#"
// hello comments!
// hello comments!
println("Testing!") // Other comment!
// Last comment
// Last comment
"#
        )
        .unwrap(),
        compile::<Rust>(
            r#"
println("Testing!")
"#
        )
        .unwrap()
    );
}

#[test]
fn call_of_a_simple_name_in_rust() {
    assert_eq!(
        compile::<Rust>("println(\"Testing!\")").unwrap(),
        "xasm.push(Value::string(\"Testing!\"));\n\txasm.copy();\n\txasm.push(Value::string(\"println\"));\n\txasm.load();\n\txasm.call();\n\t"
    );
}

#[test]
fn comments_may_stand_between_any_two_tokens() {
    let with = "f // callee\n ( // open\n a // first\n , // comma\n b // second\n ) // close";
    assert_eq!(compile::<Rust>(with), compile::<Rust>("f(a, b)"));
    let with = "while // loop\n n // condition\n { // body\n n = 1 // assign\n } // end";
    assert_eq!(compile::<Rust>(with), compile::<Rust>("while n { n = 1 }"));
    let with = "class // c\n A // name\n { fn // f\n m // n\n ( // (\n self // p\n ) { } }";
    assert_eq!(
        compile::<Rust>(with),
        compile::<Rust>("class A { fn m(self) { } }")
    );
}

#[test]
fn comment_may_end_the_source_without_a_line_feed() {
    assert_eq!(compile::<Rust>("x // last"), compile::<Rust>("x"));
    assert_eq!(compile::<Rust>("//"), compile::<Rust>(""));
    assert_eq!(compile::<Rust>("// only\n// comments"), Ok(String::new()));
}

#[test]
fn slashes_inside_a_string_are_no_comment() {
    assert_eq!(
        compile::<Rust>("print(\"// text\")").unwrap(),
        "xasm.push(Value::string(\"// text\"));\n\txasm.copy();\n\t\
         xasm.push(Value::string(\"print\"));\n\txasm.load();\n\txasm.call();\n\t"
    );
}

#[test]
fn single_slash_is_no_comment() {
    assert_eq!(
        compile::<Rust>("x / y"),
        Err("expected a value at position 2".to_string())
    );
}

fn without_comments(source: &str) -> String {
    let characters: Vec<char> = source.chars().collect();
    uncomment(&characters).into_iter().collect()
}

#[test]
fn uncomment_takes_comments_out_and_keeps_strings() {
    assert_eq!(without_comments("a // b\nc"), "a \nc");
    assert_eq!(without_comments("// only"), "");
    assert_eq!(without_comments("x = \"// kept\" // gone"), "x = \"// kept\" ");
    assert_eq!(without_comments("\"a\\\"// in\" //out"), "\"a\\\"// in\" ");
    assert_eq!(without_comments("\"open // rest"), "\"open // rest");
    assert_eq!(without_comments("a / b /// c\n/"), "a / b \n/");
    assert_eq!(without_comments(""), "");
}

#[test]
fn program_compiles_the_same_without_its_comments() {
    let sources = [
        "// hello\nprintln(\"Testing!\") // bye",
        "class A { // a class\n fn m(self) { // a method\n self.x = \"//\" // assign\n } }",
        "f( // open\n 1 // one\n , 2.5 // two\n ) // close",
        "while n { n = sub(n, 1) } // loop",
        "x = fn(a, b) { a } //",
    ];
    for source in sources {
        let rest = without_comments(source);
        assert!(!rest.contains("//") || rest.contains("\"//\""));
        assert!(compile::<Rust>(source).is_ok());
        assert_eq!(compile::<Rust>(&rest), compile::<Rust>(source));
        assert_eq!(compile::<Golang>(&rest), compile::<Golang>(source));
    }
}

#[test]
fn comment_added_at_the_end_of_a_line_changes_nothing() {
    let source = "x = 5\nclass A {\n fn m(self) {\n  print(\"a // b\")\n }\n}\nf(x)(1)";
    let lines: Vec<&str> = source.split('\n').collect();
    let tree = xassembler::parse(source).unwrap();
    for commented in 0..lines.len() {
        let with: Vec<String> = lines
            .iter()
            .enumerate()
            .map(|(i, line)| {
                if i == commented {
                    format!("{}// note; \"quoted\" {}", line, i)
                } else {
                    line.to_string()
                }
            })
            .collect();
        let with = with.join("\n");
        assert_eq!(without_comments(&with), source);
        assert_eq!(xassembler::parse(&with), Ok(tree.clone()));
        assert_eq!(compile::<Rust>(&with), compile::<Rust>(source));
    }
}

#[test]
fn unreadable_source_stays_unreadable_without_its_comments() {
    for source in ["x = // nothing", "f(a // open\n", "class A { // c\n x }"] {
        assert!(compile::<Rust>(source).is_err());
        assert!(compile::<Rust>(&without_comments(source)).is_err());
    }
}

fn tokens_of(source: &str) -> Vec<String> {
    let characters: Vec<char> = source.chars().collect();
    tokenize(&characters)
}

#[test]
fn tokens_leave_out_blank_space_and_comments() {
    assert_eq!(
        tokens_of("x = f ( a.b , -1.5 ) // done\n@p \"s // t\" ;"),
        vec!["x", "=", "f", "(", "a", ".", "b", ",", "-1.5", ")", "@p", "\"s // t\"", ";"]
    );
    assert_eq!(tokens_of("  // only\n\t"), Vec::<String>::new());
    assert_eq!(tokens_of("- 1 @ p 1.x ab_1 \"open"), vec![
        "-", "1", "@", "p", "1", ".", "x", "ab_1", "\"open"
    ]);
    assert_eq!(tokens_of("a/b"), vec!["a", "/", "b"]);
}

#[test]
fn sources_with_the_same_tokens_read_as_the_same_tree() {
    let pairs = [
        ("// hi\nprintln(\"Testing!\")", "println(\"Testing!\")"),
        ("f(a,b)", " f ( a ,\n\tb )\n"),
        ("x=5;y . z=x", "x = 5 ; // five\n// then\ny.z = x"),
        (
            "class A{fn m(self){self.k=1}}",
            "\n// a class\nclass A {\n  // its method\n  fn m ( self ) {\n    self . k = 1\n  }\n}\n",
        ),
        ("while n{n=sub(n,1)}", "while n\n{\n\n// body\n\nn = sub( n, 1 )\n}"),
        ("x =", "x // nothing\n="),
    ];
    for (first, second) in pairs {
        assert_eq!(tokens_of(first), tokens_of(second));
        assert_eq!(
            xassembler::parse(first).is_ok(),
            xassembler::parse(second).is_ok()
        );
        if let Ok(tree) = xassembler::parse(first) {
            assert_eq!(xassembler::parse(second), Ok(tree));
            assert_eq!(compile::<Rust>(first), compile::<Rust>(second));
            assert_eq!(compile::<Golang>(first), compile::<Golang>(second));
        }
    }
}

#[test]
fn sources_with_other_tokens_may_read_otherwise() {
    assert!(tokens_of("a b") != tokens_of("ab"));
    assert!(tokens_of("@f") != tokens_of("@ f"));
    assert!(tokens_of("-1") != tokens_of("- 1"));
    assert!(tokens_of("1.5") != tokens_of("1 .5"));
    assert!(xassembler::parse("@f").is_ok() && xassembler::parse("@ f").is_err());
}
