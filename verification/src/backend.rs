//! The instruction text of the reference machine, as free functions.
//!
//! Every function returns the text of one operation. An operation that works
//! on values already computed takes the text that computes them and puts its
//! own instruction behind it, so that texts read in the order in which the
//! machine runs them.

use vstd::prelude::*;
use vstd::string::*;
use crate::target::MACHINE_NAME;
use crate::text::{concat, lemma_concat_take, views};
use crate::token::{idents_view, Identifier};

verus! {

/// `name` between double quotes.
pub open spec fn quote_text(name: Seq<char>) -> Seq<char> {
    "\""@ + name + "\""@
}

/// The statement that pushes the value `value`.
pub open spec fn push_text(value: Seq<char>) -> Seq<char> {
    MACHINE_NAME@ + ".push("@ + value + ");"@
}

/// `identifier`, then the instruction that replaces a name by what it is bound to.
pub open spec fn load_text(identifier: Seq<char>) -> Seq<char> {
    identifier + MACHINE_NAME@ + ".load();"@
}

/// The expression for the number written `number`.
pub open spec fn number_text(number: Seq<char>) -> Seq<char> {
    "Value::number("@ + number + ")"@
}

/// The expression for the string that `string` denotes.
pub open spec fn string_text(string: Seq<char>) -> Seq<char> {
    "Value::string("@ + string + ")"@
}

/// `value`, then the instruction that binds a value to a name.
pub open spec fn store_text(value: Seq<char>) -> Seq<char> {
    value + MACHINE_NAME@ + ".store();"@
}

/// `value`, then the instruction that duplicates the top of the stack.
pub open spec fn copy_text(value: Seq<char>) -> Seq<char> {
    value + MACHINE_NAME@ + ".copy();"@
}

/// The expression for a closure whose body is `body`.
pub open spec fn func_text(body: Seq<char>) -> Seq<char> {
    "Value::function(|"@ + MACHINE_NAME@ + ": &mut Machine| {"@ + body + "}, &"@ + MACHINE_NAME@
        + ")"@
}

/// The expression for a closure that runs the host's primitive `name`.
pub open spec fn foreign_func_text(name: Seq<char>) -> Seq<char> {
    "Value::function("@ + name + ", &"@ + MACHINE_NAME@ + ")"@
}

/// The body closure, the condition closure, then the loop instruction.
pub open spec fn while_loop_text(condition: Seq<char>, body: Seq<char>) -> Seq<char> {
    push_text(func_text(body)) + push_text(func_text(condition)) + MACHINE_NAME@
        + ".while_loop();"@
}

/// The body closure, the list, the element's name, the counter's name, then
/// the loop instruction.
pub open spec fn for_loop_text(
    counter: Seq<char>,
    element: Seq<char>,
    list: Seq<char>,
    body: Seq<char>,
) -> Seq<char> {
    push_text(func_text(body)) + list + element + counter + MACHINE_NAME@ + ".for_loop();"@
}

/// The closures of the else branch, the then branch and the condition, then
/// the branch instruction.
pub open spec fn if_then_else_text(
    condition: Seq<char>,
    then_fn: Seq<char>,
    else_fn: Seq<char>,
) -> Seq<char> {
    push_text(func_text(else_fn)) + push_text(func_text(then_fn)) + push_text(
        func_text(condition),
    ) + MACHINE_NAME@ + ".if_then_else();"@
}

/// `func`, then the instruction that calls the function on top of the stack.
pub open spec fn call_text(func: Seq<char>) -> Seq<char> {
    func + MACHINE_NAME@ + ".call();"@
}

/// The push of the method's name, then the instruction that sends it to the
/// receiver on the stack.
pub open spec fn method_call_text(method_name: Seq<char>) -> Seq<char> {
    push_text(method_name) + MACHINE_NAME@ + ".method_call();"@
}

/// `pointer_value`, then the instruction that writes through it.
pub open spec fn assign_text(pointer_value: Seq<char>) -> Seq<char> {
    pointer_value + MACHINE_NAME@ + ".assign();"@
}

/// The instruction that replaces the value on top of the stack by its member
/// under the key that was pushed above it.
pub open spec fn index_text() -> Seq<char> {
    MACHINE_NAME@ + ".index();"@
}

/// The step from a value to its attribute `name`.
pub open spec fn attribute_step_text(name: Seq<char>) -> Seq<char> {
    push_text(string_text(quote_text(name))) + index_text()
}

/// The steps to the attributes `names`, one after the other.
pub open spec fn attribute_steps(names: Seq<Seq<char>>) -> Seq<Seq<char>> {
    Seq::new(names.len(), |i: int| attribute_step_text(names[i]))
}

/// The steps to the members under the keys that `keys` compute.
pub open spec fn index_steps(keys: Seq<Seq<char>>) -> Seq<Seq<char>> {
    Seq::new(keys.len(), |i: int| keys[i] + index_text())
}

/// `head`, then one attribute step for each name of `tail`, left to right.
pub open spec fn dotname_text(head: Seq<char>, tail: Seq<Seq<char>>) -> Seq<char> {
    head + concat(attribute_steps(tail))
}

/// `head`, then one index step for each key of `tail`, left to right.
pub open spec fn indexname_text(head: Seq<char>, tail: Seq<Seq<char>>) -> Seq<char> {
    head + concat(index_steps(tail))
}

/// Puts `name` between double quotes.
pub fn quote(name: &str) -> (code: String)
    ensures
        code@ == quote_text(name@),
{
    let mut code = String::from_str("\"");
    code.append(name);
    code.append("\"");
    code
}

/// Pushes the value that `value` constructs.
pub fn push(value: &str) -> (code: String)
    ensures
        code@ == push_text(value@),
{
    let mut code = String::from_str(MACHINE_NAME);
    code.append(".push(");
    code.append(value);
    code.append(");");
    code
}

/// Loads the value bound to the name that `identifier` pushes.
pub fn load(identifier: &str) -> (code: String)
    ensures
        code@ == load_text(identifier@),
{
    let mut code = String::from_str(identifier);
    code.append(MACHINE_NAME);
    code.append(".load();");
    code
}

/// Constructs the number written `text`.
pub fn number(text: &str) -> (code: String)
    ensures
        code@ == number_text(text@),
{
    let mut code = String::from_str("Value::number(");
    code.append(text);
    code.append(")");
    code
}

/// Constructs the string that `text` denotes.
pub fn string(text: &str) -> (code: String)
    ensures
        code@ == string_text(text@),
{
    let mut code = String::from_str("Value::string(");
    code.append(text);
    code.append(")");
    code
}

/// Binds the value below the top of the stack to the name on top, both
/// pushed by `value`.
pub fn store(value: &str) -> (code: String)
    ensures
        code@ == store_text(value@),
{
    let mut code = String::from_str(value);
    code.append(MACHINE_NAME);
    code.append(".store();");
    code
}

/// Duplicates the value that `value` pushes.
pub fn copy(value: &str) -> (code: String)
    ensures
        code@ == copy_text(value@),
{
    let mut code = String::from_str(value);
    code.append(MACHINE_NAME);
    code.append(".copy();");
    code
}

/// Constructs a closure with the body `body` that captures the bindings in
/// force where it is pushed.
pub fn func(body: &str) -> (code: String)
    ensures
        code@ == func_text(body@),
{
    let mut code = String::from_str("Value::function(|");
    code.append(MACHINE_NAME);
    code.append(": &mut Machine| {");
    code.append(body);
    code.append("}, &");
    code.append(MACHINE_NAME);
    code.append(")");
    code
}

/// Constructs a closure that runs the host's primitive `name`.
pub fn foreign_func(name: &str) -> (code: String)
    ensures
        code@ == foreign_func_text(name@),
{
    let mut code = String::from_str("Value::function(");
    code.append(name);
    code.append(", &");
    code.append(MACHINE_NAME);
    code.append(")");
    code
}

/// Runs `body` for as long as `condition` yields a true value.
pub fn while_loop(condition: &str, body: &str) -> (code: String)
    ensures
        code@ == while_loop_text(condition@, body@),
{
    let mut code = push(func(body).as_str());
    code.append(push(func(condition).as_str()).as_str());
    code.append(MACHINE_NAME);
    code.append(".while_loop();");
    code
}

/// Runs `body` once for each element of the list, with the element and a
/// counter bound to the names that `element` and `counter` push.
pub fn for_loop(counter: &str, element: &str, list: &str, body: &str) -> (code: String)
    ensures
        code@ == for_loop_text(counter@, element@, list@, body@),
{
    let mut code = push(func(body).as_str());
    code.append(list);
    code.append(element);
    code.append(counter);
    code.append(MACHINE_NAME);
    code.append(".for_loop();");
    code
}

/// Runs `then_fn` if `condition` yields a true value, `else_fn` otherwise.
pub fn if_then_else(condition: &str, then_fn: &str, else_fn: &str) -> (code: String)
    ensures
        code@ == if_then_else_text(condition@, then_fn@, else_fn@),
{
    let mut code = push(func(else_fn).as_str());
    code.append(push(func(then_fn).as_str()).as_str());
    code.append(push(func(condition).as_str()).as_str());
    code.append(MACHINE_NAME);
    code.append(".if_then_else();");
    code
}

/// Calls the function that `callee` pushes.
pub fn call(callee: &str) -> (code: String)
    ensures
        code@ == call_text(callee@),
{
    let mut code = String::from_str(callee);
    code.append(MACHINE_NAME);
    code.append(".call();");
    code
}

/// Sends the message that `method_name` constructs to the receiver on the stack.
pub fn method_call(method_name: &str) -> (code: String)
    ensures
        code@ == method_call_text(method_name@),
{
    let mut code = push(method_name);
    code.append(MACHINE_NAME);
    code.append(".method_call();");
    code
}

/// Writes a value through the destination that `pointer_value` pushes above it.
pub fn assign(pointer_value: &str) -> (code: String)
    ensures
        code@ == assign_text(pointer_value@),
{
    let mut code = String::from_str(pointer_value);
    code.append(MACHINE_NAME);
    code.append(".assign();");
    code
}

/// Follows the attributes `tail`, left to right, from the value that `head` pushes.
pub fn dotname(head: &str, tail: &[Identifier]) -> (code: String)
    ensures
        code@ == dotname_text(head@, idents_view(tail@)),
{
    let mut code = String::from_str(head);
    let ghost steps = attribute_steps(idents_view(tail@));
    let mut i: usize = 0;
    while i < tail.len()
        invariant
            i <= tail.len(),
            steps == attribute_steps(idents_view(tail@)),
            code@ == head@ + concat(steps.take(i as int)),
        decreases tail.len() - i,
    {
        let step = push(string(quote(tail[i].0.as_str()).as_str()).as_str());
        code.append(step.as_str());
        code.append(MACHINE_NAME);
        code.append(".index();");
        proof {
            lemma_concat_take(steps, i as int);
        }
        i += 1;
    }
    assert(steps.take(tail.len() as int) =~= steps);
    code
}

/// Follows the keys that the texts of `tail` compute, left to right, from the
/// value that `head` pushes.
pub fn indexname(head: &str, tail: &[String]) -> (code: String)
    ensures
        code@ == indexname_text(head@, views(tail@)),
{
    let mut code = String::from_str(head);
    let ghost steps = index_steps(views(tail@));
    let mut i: usize = 0;
    while i < tail.len()
        invariant
            i <= tail.len(),
            steps == index_steps(views(tail@)),
            code@ == head@ + concat(steps.take(i as int)),
        decreases tail.len() - i,
    {
        code.append(tail[i].as_str());
        code.append(MACHINE_NAME);
        code.append(".index();");
        proof {
            lemma_concat_take(steps, i as int);
        }
        i += 1;
    }
    assert(steps.take(tail.len() as int) =~= steps);
    code
}

} // verus!
