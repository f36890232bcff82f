//! The backend profile that writes Rust.

use vstd::prelude::*;
use crate::backend;
use crate::target::Target;
use crate::token::Identifier;

verus! {

/// The profile whose instruction text is Rust source.
pub struct Rust;

impl Target for Rust {
    open spec fn spec_push(value: Seq<char>) -> Seq<char> {
        backend::push_text(value)
    }

    open spec fn spec_load(name: Seq<char>) -> Seq<char> {
        backend::load_text(name)
    }

    open spec fn spec_store(value: Seq<char>) -> Seq<char> {
        backend::store_text(value)
    }

    open spec fn spec_number(text: Seq<char>) -> Seq<char> {
        backend::number_text(text)
    }

    open spec fn spec_string(text: Seq<char>) -> Seq<char> {
        backend::string_text(text)
    }

    open spec fn spec_copy(value: Seq<char>) -> Seq<char> {
        backend::copy_text(value)
    }

    open spec fn spec_func(body: Seq<char>) -> Seq<char> {
        backend::func_text(body)
    }

    open spec fn spec_foreign_func(name: Seq<char>) -> Seq<char> {
        backend::foreign_func_text(name)
    }

    open spec fn spec_while_loop(condition: Seq<char>, body: Seq<char>) -> Seq<char> {
        backend::while_loop_text(condition, body)
    }

    open spec fn spec_for_loop(
        counter: Seq<char>,
        element: Seq<char>,
        list: Seq<char>,
        body: Seq<char>,
    ) -> Seq<char> {
        backend::for_loop_text(counter, element, list, body)
    }

    open spec fn spec_if_then_else(
        condition: Seq<char>,
        then_fn: Seq<char>,
        else_fn: Seq<char>,
    ) -> Seq<char> {
        backend::if_then_else_text(condition, then_fn, else_fn)
    }

    open spec fn spec_call(callee: Seq<char>) -> Seq<char> {
        backend::call_text(callee)
    }

    open spec fn spec_method_call(method_name: Seq<char>) -> Seq<char> {
        backend::method_call_text(method_name)
    }

    open spec fn spec_assign(pointer_value: Seq<char>) -> Seq<char> {
        backend::assign_text(pointer_value)
    }

    open spec fn spec_dotname(head: Seq<char>, tail: Seq<Seq<char>>) -> Seq<char> {
        backend::dotname_text(head, tail)
    }

    open spec fn spec_indexname(head: Seq<char>, tail: Seq<Seq<char>>) -> Seq<char> {
        backend::indexname_text(head, tail)
    }

    fn push(value: &str) -> (code: String) {
        backend::push(value)
    }

    fn load(name: &str) -> (code: String) {
        backend::load(name)
    }

    fn store(value: &str) -> (code: String) {
        backend::store(value)
    }

    fn number(text: &str) -> (code: String) {
        backend::number(text)
    }

    fn string(text: &str) -> (code: String) {
        backend::string(text)
    }

    fn copy(value: &str) -> (code: String) {
        backend::copy(value)
    }

    fn func(body: &str) -> (code: String) {
        backend::func(body)
    }

    fn foreign_func(name: &str) -> (code: String) {
        backend::foreign_func(name)
    }

    fn while_loop(condition: &str, body: &str) -> (code: String) {
        backend::while_loop(condition, body)
    }

    fn for_loop(counter: &str, element: &str, list: &str, body: &str) -> (code: String) {
        backend::for_loop(counter, element, list, body)
    }

    fn if_then_else(condition: &str, then_fn: &str, else_fn: &str) -> (code: String) {
        backend::if_then_else(condition, then_fn, else_fn)
    }

    fn call(callee: &str) -> (code: String) {
        backend::call(callee)
    }

    fn method_call(method_name: &str) -> (code: String) {
        backend::method_call(method_name)
    }

    fn assign(pointer_value: &str) -> (code: String) {
        backend::assign(pointer_value)
    }

    fn dotname(head: &str, tail: &[Identifier]) -> (code: String) {
        backend::dotname(head, tail)
    }

    fn indexname(head: &str, tail: &[String]) -> (code: String) {
        backend::indexname(head, tail)
    }
}

} // verus!
