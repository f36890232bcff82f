use xassembler::{compile, parse, Expr, Golang, Rust, Suite};

const SCRIPT: &str = r#"


class List {
    fn new(self) {
        self.list = list()
        self
    }

    fn push(self, item) {
        self.list = push(self.list, item)
    }

    fn pop(self) {
        if len(self.list) {
            self.list = pop(self.list)
        } else {
            None
        }
    }

    fn len(self) {
        len(self.list)
    }
}


l = new(List)
l.push("test")
l.push(l)
l.push(l)


println(l)

if l {
    println("l is true!!")
} else {
    println("l does not evaluate to true :(")
}


n = 1000
while n {
    n = sub(n, 1)
    println(n)

    if n {}
    else {}
}

"#;

#[test]
fn sample_script_reads_as_nine_statements() {
    let Suite(statements) = parse(SCRIPT).unwrap();
    assert_eq!(statements.len(), 9);
    assert!(matches!(statements[0], Expr::StructDef(_)));
    assert!(matches!(statements[1], Expr::Assignment(_, _)));
    assert!(matches!(statements[2], Expr::Value(_)));
    assert!(matches!(statements[5], Expr::Value(_)));
    assert!(matches!(statements[6], Expr::IfThenElse(_, _, _)));
    assert!(matches!(statements[7], Expr::Assignment(_, _)));
    assert!(matches!(statements[8], Expr::WhileLoop(_, _)));
}

#[test]
fn sample_script_compiles_in_both_profiles() {
    let rust = compile::<Rust>(SCRIPT).unwrap();
    let go = compile::<Golang>(SCRIPT).unwrap();
    for (rust_text, go_text) in [
        ("xasm.method_call();", "xasm.MethodCall()\n"),
        ("xasm.while_loop();", "xasm.WhileLoop()\n"),
        ("xasm.if_then_else();", "xasm.IfThenElse()\n"),
        ("xasm.call();", "xasm.Call()\n"),
        ("xasm.copy();", "xasm.Copy()\n"),
        ("xasm.store();", "xasm.Store()\n"),
        ("xasm.load();", "xasm.Load()\n"),
        ("xasm.assign();", "xasm.Assign()\n"),
        ("xasm.index();", "xasm.Index()\n"),
        ("xasm.push(", "xasm.Push("),
    ] {
        assert_eq!(rust.matches(rust_text).count(), go.matches(go_text).count());
    }
    assert_eq!(rust.matches("xasm.method_call();").count(), 3);
    assert_eq!(rust.matches("xasm.while_loop();").count(), 1);
    assert_eq!(rust.matches("xasm.if_then_else();").count(), 3);
    assert!(rust.contains("xasm.push(Value::number(1000));"));
    assert!(rust.ends_with("xasm.while_loop();\n\t"));
}
