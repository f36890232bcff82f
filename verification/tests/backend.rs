use xassembler::backend;
use xassembler::{Golang, Identifier, Rust, Target, MACHINE_NAME};

fn idents(names: &[&str]) -> Vec<Identifier> {
    names.iter().map(|name| Identifier(name.to_string())).collect()
}

#[test]
fn machine_name_is_xasm() {
    assert_eq!(MACHINE_NAME, "xasm");
}

#[test]
fn quote_puts_double_quotes_around() {
    assert_eq!(backend::quote("abc"), "\"abc\"");
    assert_eq!(backend::quote(""), "\"\"");
    assert_eq!(Rust::quote("a b"), "\"a b\"");
    assert_eq!(Golang::quote("a b"), "\"a b\"");
}

#[test]
fn free_functions_write_rust() {
    assert_eq!(backend::push("V"), "xasm.push(V);");
    assert_eq!(backend::load("N"), "Nxasm.load();");
    assert_eq!(backend::number("3.14"), "Value::number(3.14)");
    assert_eq!(backend::string("\"s\""), "Value::string(\"s\")");
    assert_eq!(backend::store("V"), "Vxasm.store();");
    assert_eq!(backend::copy("V"), "Vxasm.copy();");
    assert_eq!(
        backend::func("B"),
        "Value::function(|xasm: &mut Machine| {B}, &xasm)"
    );
    assert_eq!(backend::foreign_func("f"), "Value::function(f, &xasm)");
    assert_eq!(backend::call("F"), "Fxasm.call();");
    assert_eq!(backend::method_call("M"), "xasm.push(M);xasm.method_call();");
    assert_eq!(backend::assign("P"), "Pxasm.assign();");
}

#[test]
fn free_control_flow_pushes_closures_in_reverse() {
    assert_eq!(
        backend::while_loop("C", "B"),
        "xasm.push(Value::function(|xasm: &mut Machine| {B}, &xasm));\
         xasm.push(Value::function(|xasm: &mut Machine| {C}, &xasm));\
         xasm.while_loop();"
    );
    assert_eq!(
        backend::if_then_else("C", "T", "E"),
        "xasm.push(Value::function(|xasm: &mut Machine| {E}, &xasm));\
         xasm.push(Value::function(|xasm: &mut Machine| {T}, &xasm));\
         xasm.push(Value::function(|xasm: &mut Machine| {C}, &xasm));\
         xasm.if_then_else();"
    );
    assert_eq!(
        backend::for_loop("I", "X", "L", "B"),
        "xasm.push(Value::function(|xasm: &mut Machine| {B}, &xasm));LXIxasm.for_loop();"
    );
}

#[test]
fn free_dotname_chains_attribute_steps_left_to_right() {
    assert_eq!(backend::dotname("H", &idents(&[])), "H");
    assert_eq!(
        backend::dotname("H", &idents(&["a", "b"])),
        "Hxasm.push(Value::string(\"a\"));xasm.index();\
         xasm.push(Value::string(\"b\"));xasm.index();"
    );
}

#[test]
fn free_indexname_chains_index_steps_left_to_right() {
    assert_eq!(backend::indexname("H", &[]), "H");
    assert_eq!(
        backend::indexname("H", &["K1".to_string(), "K2".to_string()]),
        "HK1xasm.index();K2xasm.index();"
    );
}

#[test]
fn rust_profile_writes_what_the_free_functions_write() {
    assert_eq!(Rust::push("V"), backend::push("V"));
    assert_eq!(Rust::load("N"), backend::load("N"));
    assert_eq!(Rust::number("1"), backend::number("1"));
    assert_eq!(Rust::string("S"), backend::string("S"));
    assert_eq!(Rust::store("V"), backend::store("V"));
    assert_eq!(Rust::copy("V"), backend::copy("V"));
    assert_eq!(Rust::func("B"), backend::func("B"));
    assert_eq!(Rust::foreign_func("f"), backend::foreign_func("f"));
    assert_eq!(Rust::call("F"), backend::call("F"));
    assert_eq!(Rust::method_call("M"), backend::method_call("M"));
    assert_eq!(Rust::assign("P"), backend::assign("P"));
    assert_eq!(Rust::while_loop("C", "B"), backend::while_loop("C", "B"));
    assert_eq!(
        Rust::if_then_else("C", "T", "E"),
        backend::if_then_else("C", "T", "E")
    );
    assert_eq!(
        Rust::for_loop("I", "X", "L", "B"),
        backend::for_loop("I", "X", "L", "B")
    );
    assert_eq!(
        Rust::dotname("H", &idents(&["a"])),
        backend::dotname("H", &idents(&["a"]))
    );
    assert_eq!(
        Rust::indexname("H", &["K".to_string()]),
        backend::indexname("H", &["K".to_string()])
    );
}

#[test]
fn golang_profile_writes_go() {
    assert_eq!(Golang::push("V"), "xasm.Push(V)\n");
    assert_eq!(Golang::load("N"), "Nxasm.Load()\n");
    assert_eq!(Golang::number("3.14"), "NewNumber(3.14)");
    assert_eq!(Golang::string("\"s\""), "NewString(\"s\")");
    assert_eq!(Golang::store("V"), "Vxasm.Store()\n");
    assert_eq!(Golang::copy("V"), "Vxasm.Copy()\n");
    assert_eq!(
        Golang::func("B"),
        "NewFunction(func(xasm *Machine) {B}, xasm.Duplicate())"
    );
    assert_eq!(
        Golang::foreign_func("f"),
        "NewFunction(f, xasm.Duplicate())"
    );
    assert_eq!(Golang::call("F"), "Fxasm.Call()\n");
    assert_eq!(
        Golang::method_call("M"),
        "xasm.Push(M)\nxasm.MethodCall()\n"
    );
    assert_eq!(Golang::assign("P"), "Pxasm.Assign()\n");
}

#[test]
fn golang_control_flow_pushes_closures_in_reverse() {
    assert_eq!(
        Golang::while_loop("C", "B"),
        "xasm.Push(NewFunction(func(xasm *Machine) {B}, xasm.Duplicate()))\n\
         xasm.Push(NewFunction(func(xasm *Machine) {C}, xasm.Duplicate()))\n\
         xasm.WhileLoop()\n"
    );
    assert_eq!(
        Golang::if_then_else("C", "T", "E"),
        "xasm.Push(NewFunction(func(xasm *Machine) {E}, xasm.Duplicate()))\n\
         xasm.Push(NewFunction(func(xasm *Machine) {T}, xasm.Duplicate()))\n\
         xasm.Push(NewFunction(func(xasm *Machine) {C}, xasm.Duplicate()))\n\
         xasm.IfThenElse()\n"
    );
    assert_eq!(
        Golang::for_loop("I", "X", "L", "B"),
        "xasm.Push(NewFunction(func(xasm *Machine) {B}, xasm.Duplicate()))\nLXIxasm.ForLoop()\n"
    );
}

#[test]
fn golang_paths_chain_left_to_right() {
    assert_eq!(
        Golang::dotname("H", &idents(&["a", "b"])),
        "Hxasm.Push(NewString(\"a\"))\nxasm.Index()\nxasm.Push(NewString(\"b\"))\nxasm.Index()\n"
    );
    assert_eq!(
        Golang::indexname("H", &["K1".to_string(), "K2".to_string()]),
        "HK1xasm.Index()\nK2xasm.Index()\n"
    );
    assert_eq!(Golang::dotname("H", &idents(&[])), "H");
    assert_eq!(Golang::indexname("H", &[]), "H");
}
