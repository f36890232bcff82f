//! The contract between the compiler and a backend profile.

use vstd::prelude::*;
use vstd::string::*;
use crate::backend::quote_text;
use crate::text::views;
use crate::token::{idents_view, Identifier};

verus! {

/// The identifier under which emitted code refers to the machine.
pub const MACHINE_NAME: &'static str = "xasm";

/// Why a tree cannot be compiled.
#[derive(Debug, PartialEq, Eq, PartialOrd, Ord, Clone, Copy)]
pub enum Error {
    /// A function is called or defined under a name that cannot name one.
    InvalidFunctionName,
}

impl Error {
    /// The name of the error.
    pub open spec fn name_text(self) -> Seq<char> {
        "InvalidFunctionName"@
    }

    /// The name of the error, as a string.
    pub fn name(&self) -> (name: String)
        ensures
            name@ == self.name_text(),
    {
        String::from_str("InvalidFunctionName")
    }
}

/// The operations of the stack machine, as a backend profile renders them.
///
/// Each operation has a text, given by a spec function, and a function that
/// produces that text. An operation that works on values already computed
/// takes the text that computes them. The compiler decides the order of the
/// operations; a profile decides only how each one is written.
pub trait Target {
    /// The text that pushes the value that `value` constructs.
    spec fn spec_push(value: Seq<char>) -> Seq<char>;

    /// The text that replaces the name pushed by `name` by the value bound to it.
    spec fn spec_load(name: Seq<char>) -> Seq<char>;

    /// The text that binds a value to a name, both pushed by `value`.
    spec fn spec_store(value: Seq<char>) -> Seq<char>;

    /// The text that constructs the number written `text`.
    spec fn spec_number(text: Seq<char>) -> Seq<char>;

    /// The text that constructs the string that `text` denotes.
    spec fn spec_string(text: Seq<char>) -> Seq<char>;

    /// The text that duplicates the value that `value` pushes.
    spec fn spec_copy(value: Seq<char>) -> Seq<char>;

    /// The text that constructs a closure whose body is `body`.
    spec fn spec_func(body: Seq<char>) -> Seq<char>;

    /// The text that constructs a closure over the host's primitive `name`.
    spec fn spec_foreign_func(name: Seq<char>) -> Seq<char>;

    /// The text of a loop that runs `body` while `condition` yields true.
    spec fn spec_while_loop(condition: Seq<char>, body: Seq<char>) -> Seq<char>;

    /// The text of a loop that runs `body` for each element of `list`.
    spec fn spec_for_loop(
        counter: Seq<char>,
        element: Seq<char>,
        list: Seq<char>,
        body: Seq<char>,
    ) -> Seq<char>;

    /// The text that runs one of `then_fn` and `else_fn`, as `condition` decides.
    spec fn spec_if_then_else(
        condition: Seq<char>,
        then_fn: Seq<char>,
        else_fn: Seq<char>,
    ) -> Seq<char>;

    /// The text that calls the function that `callee` pushes.
    spec fn spec_call(callee: Seq<char>) -> Seq<char>;

    /// The text that sends the message that `method_name` constructs.
    spec fn spec_method_call(method_name: Seq<char>) -> Seq<char>;

    /// The text that writes through the destination that `pointer_value` pushes.
    spec fn spec_assign(pointer_value: Seq<char>) -> Seq<char>;

    /// The text that follows the attributes `tail` from the value of `head`.
    spec fn spec_dotname(head: Seq<char>, tail: Seq<Seq<char>>) -> Seq<char>;

    /// The text that follows the keys computed by `tail` from the value of `head`.
    spec fn spec_indexname(head: Seq<char>, tail: Seq<Seq<char>>) -> Seq<char>;

    /// Puts `name` between double quotes.
    fn quote(name: &str) -> (code: String)
        ensures
            code@ == quote_text(name@),
    {
        crate::backend::quote(name)
    }

    /// Pushes the value that `value` constructs onto the stack.
    fn push(value: &str) -> (code: String)
        ensures
            code@ == Self::spec_push(value@),
    ;

    /// Pops the name that `name` pushes and pushes the value bound to it in
    /// the innermost scope that defines it.
    fn load(name: &str) -> (code: String)
        ensures
            code@ == Self::spec_load(name@),
    ;

    /// Pops a name, then a value, both pushed by `value`, and binds the value
    /// to the name in the current scope.
    fn store(value: &str) -> (code: String)
        ensures
            code@ == Self::spec_store(value@),
    ;

    /// Constructs the number written `text`.
    fn number(text: &str) -> (code: String)
        ensures
            code@ == Self::spec_number(text@),
    ;

    /// Constructs the string that `text` denotes.
    fn string(text: &str) -> (code: String)
        ensures
            code@ == Self::spec_string(text@),
    ;

    /// Duplicates the value that `value` leaves on top of the stack.
    fn copy(value: &str) -> (code: String)
        ensures
            code@ == Self::spec_copy(value@),
    ;

    /// Constructs a closure with the body `body` that captures the bindings in
    /// force where it is pushed; the body does not run.
    fn func(body: &str) -> (code: String)
        ensures
            code@ == Self::spec_func(body@),
    ;

    /// Constructs a closure that runs the host's primitive `name`.
    fn foreign_func(name: &str) -> (code: String)
        ensures
            code@ == Self::spec_foreign_func(name@),
    ;

    /// Runs the closure of `body` for as long as that of `condition` yields
    /// a true value.
    fn while_loop(condition: &str, body: &str) -> (code: String)
        ensures
            code@ == Self::spec_while_loop(condition@, body@),
    ;

    /// Runs the closure of `body` once for each element of the list that
    /// `list` pushes, with the element and a counter bound to the names that
    /// `element` and `counter` push.
    fn for_loop(counter: &str, element: &str, list: &str, body: &str) -> (code: String)
        ensures
            code@ == Self::spec_for_loop(counter@, element@, list@, body@),
    ;

    /// Runs the closure of `condition`, then that of `then_fn` if it yielded
    /// a true value and that of `else_fn` otherwise.
    fn if_then_else(condition: &str, then_fn: &str, else_fn: &str) -> (code: String)
        ensures
            code@ == Self::spec_if_then_else(condition@, then_fn@, else_fn@),
    ;

    /// Pops the function that `callee` pushes and calls it on the arguments
    /// below it.
    fn call(callee: &str) -> (code: String)
        ensures
            code@ == Self::spec_call(callee@),
    ;

    /// Looks the message that `method_name` constructs up in the receiver on
    /// the stack and calls the member, with the receiver as first argument.
    fn method_call(method_name: &str) -> (code: String)
        ensures
            code@ == Self::spec_method_call(method_name@),
    ;

    /// Pops the destination and the value that `pointer_value` pushes and
    /// writes the value to the destination.
    fn assign(pointer_value: &str) -> (code: String)
        ensures
            code@ == Self::spec_assign(pointer_value@),
    ;

    /// Follows the attributes `tail`, left to right, from the value that
    /// `head` pushes.
    fn dotname(head: &str, tail: &[Identifier]) -> (code: String)
        ensures
            code@ == Self::spec_dotname(head@, idents_view(tail@)),
    ;

    /// Follows the keys that the texts of `tail` compute, left to right, from
    /// the value that `head` pushes.
    fn indexname(head: &str, tail: &[String]) -> (code: String)
        ensures
            code@ == Self::spec_indexname(head@, views(tail@)),
    ;
}

/// What a compilation returns: the text `code` where the tree compiles, the
/// error otherwise.
pub open spec fn lowered(result: Result<String, Error>, compiles: bool, code: Seq<char>) -> bool {
    match result {
        Ok(text) => compiles && text@ == code,
        Err(e) => !compiles && e == Error::InvalidFunctionName,
    }
}

/// A node of the syntax tree that compiles to instruction text of the
/// profile `T`.
pub trait Compile<T: Target> {
    /// Whether the node can be compiled. This does not depend on the profile.
    spec fn compiles(&self) -> bool;

    /// The instruction text of the node.
    spec fn code(&self) -> Seq<char>;

    /// Compiles the node: its instruction text where it can be compiled,
    /// `InvalidFunctionName` where it cannot.
    ///
    /// Compiling goes as deep into the node as the node is deep and sets no
    /// limit of its own. A tree that was read is within the depth it was
    /// read within; for a tree that was built by hand, `deeper_than` tells
    /// beforehand whether it is within a limit.
    fn compile(self) -> (result: Result<String, Error>)
        ensures
            lowered(result, self.compiles(), self.code()),
    ;
}

} // verus!
