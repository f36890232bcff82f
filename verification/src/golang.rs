//! The backend profile that writes Go.

use vstd::prelude::*;
use vstd::string::*;
use crate::backend::{quote, quote_text};
use crate::target::{Target, MACHINE_NAME};
use crate::text::{concat, lemma_concat_take, views};
use crate::token::{idents_view, Identifier};

verus! {

/// The profile whose instruction text is Go source.
pub struct Golang;

/// The instruction that replaces the value on top of the stack by its member
/// under the key that was pushed above it.
pub open spec fn go_index_text() -> Seq<char> {
    MACHINE_NAME@ + ".Index()\n"@
}

/// The steps to the attributes `names`, one after the other.
pub open spec fn go_attribute_steps(names: Seq<Seq<char>>) -> Seq<Seq<char>> {
    Seq::new(
        names.len(),
        |i: int|
            Golang::spec_push(Golang::spec_string(quote_text(names[i]))) + go_index_text(),
    )
}

/// The steps to the members under the keys that `keys` compute.
pub open spec fn go_index_steps(keys: Seq<Seq<char>>) -> Seq<Seq<char>> {
    Seq::new(keys.len(), |i: int| keys[i] + go_index_text())
}

impl Target for Golang {
    open spec fn spec_push(value: Seq<char>) -> Seq<char> {
        MACHINE_NAME@ + ".Push("@ + value + ")\n"@
    }

    open spec fn spec_load(name: Seq<char>) -> Seq<char> {
        name + MACHINE_NAME@ + ".Load()\n"@
    }

    open spec fn spec_store(value: Seq<char>) -> Seq<char> {
        value + MACHINE_NAME@ + ".Store()\n"@
    }

    open spec fn spec_number(text: Seq<char>) -> Seq<char> {
        "NewNumber("@ + text + ")"@
    }

    open spec fn spec_string(text: Seq<char>) -> Seq<char> {
        "NewString("@ + text + ")"@
    }

    open spec fn spec_copy(value: Seq<char>) -> Seq<char> {
        value + MACHINE_NAME@ + ".Copy()\n"@
    }

    open spec fn spec_func(body: Seq<char>) -> Seq<char> {
        "NewFunction(func("@ + MACHINE_NAME@ + " *Machine) {"@ + body + "}, "@ + MACHINE_NAME@
            + ".Duplicate())"@
    }

    open spec fn spec_foreign_func(name: Seq<char>) -> Seq<char> {
        "NewFunction("@ + name + ", "@ + MACHINE_NAME@ + ".Duplicate())"@
    }

    open spec fn spec_while_loop(condition: Seq<char>, body: Seq<char>) -> Seq<char> {
        Self::spec_push(Self::spec_func(body)) + Self::spec_push(Self::spec_func(condition))
            + MACHINE_NAME@ + ".WhileLoop()\n"@
    }

    open spec fn spec_for_loop(
        counter: Seq<char>,
        element: Seq<char>,
        list: Seq<char>,
        body: Seq<char>,
    ) -> Seq<char> {
        Self::spec_push(Self::spec_func(body)) + list + element + counter + MACHINE_NAME@
            + ".ForLoop()\n"@
    }

    open spec fn spec_if_then_else(
        condition: Seq<char>,
        then_fn: Seq<char>,
        else_fn: Seq<char>,
    ) -> Seq<char> {
        Self::spec_push(Self::spec_func(else_fn)) + Self::spec_push(Self::spec_func(then_fn))
            + Self::spec_push(Self::spec_func(condition)) + MACHINE_NAME@ + ".IfThenElse()\n"@
    }

    open spec fn spec_call(callee: Seq<char>) -> Seq<char> {
        callee + MACHINE_NAME@ + ".Call()\n"@
    }

    open spec fn spec_method_call(method_name: Seq<char>) -> Seq<char> {
        Self::spec_push(method_name) + MACHINE_NAME@ + ".MethodCall()\n"@
    }

    open spec fn spec_assign(pointer_value: Seq<char>) -> Seq<char> {
        pointer_value + MACHINE_NAME@ + ".Assign()\n"@
    }

    open spec fn spec_dotname(head: Seq<char>, tail: Seq<Seq<char>>) -> Seq<char> {
        head + concat(go_attribute_steps(tail))
    }

    open spec fn spec_indexname(head: Seq<char>, tail: Seq<Seq<char>>) -> Seq<char> {
        head + concat(go_index_steps(tail))
    }

    fn push(value: &str) -> (code: String) {
        let mut code = String::from_str(MACHINE_NAME);
        code.append(".Push(");
        code.append(value);
        code.append(")\n");
        code
    }

    fn load(name: &str) -> (code: String) {
        let mut code = String::from_str(name);
        code.append(MACHINE_NAME);
        code.append(".Load()\n");
        code
    }

    fn store(value: &str) -> (code: String) {
        let mut code = String::from_str(value);
        code.append(MACHINE_NAME);
        code.append(".Store()\n");
        code
    }

    fn number(text: &str) -> (code: String) {
        let mut code = String::from_str("NewNumber(");
        code.append(text);
        code.append(")");
        code
    }

    fn string(text: &str) -> (code: String) {
        let mut code = String::from_str("NewString(");
        code.append(text);
        code.append(")");
        code
    }

    fn copy(value: &str) -> (code: String) {
        let mut code = String::from_str(value);
        code.append(MACHINE_NAME);
        code.append(".Copy()\n");
        code
    }

    fn func(body: &str) -> (code: String) {
        let mut code = String::from_str("NewFunction(func(");
        code.append(MACHINE_NAME);
        code.append(" *Machine) {");
        code.append(body);
        code.append("}, ");
        code.append(MACHINE_NAME);
        code.append(".Duplicate())");
        code
    }

    fn foreign_func(name: &str) -> (code: String) {
        let mut code = String::from_str("NewFunction(");
        code.append(name);
        code.append(", ");
        code.append(MACHINE_NAME);
        code.append(".Duplicate())");
        code
    }

    fn while_loop(condition: &str, body: &str) -> (code: String) {
        let mut code = Self::push(Self::func(body).as_str());
        code.append(Self::push(Self::func(condition).as_str()).as_str());
        code.append(MACHINE_NAME);
        code.append(".WhileLoop()\n");
        code
    }

    fn for_loop(counter: &str, element: &str, list: &str, body: &str) -> (code: String) {
        let mut code = Self::push(Self::func(body).as_str());
        code.append(list);
        code.append(element);
        code.append(counter);
        code.append(MACHINE_NAME);
        code.append(".ForLoop()\n");
        code
    }

    fn if_then_else(condition: &str, then_fn: &str, else_fn: &str) -> (code: String) {
        let mut code = Self::push(Self::func(else_fn).as_str());
        code.append(Self::push(Self::func(then_fn).as_str()).as_str());
        code.append(Self::push(Self::func(condition).as_str()).as_str());
        code.append(MACHINE_NAME);
        code.append(".IfThenElse()\n");
        code
    }

    fn call(callee: &str) -> (code: String) {
        let mut code = String::from_str(callee);
        code.append(MACHINE_NAME);
        code.append(".Call()\n");
        code
    }

    fn method_call(method_name: &str) -> (code: String) {
        let mut code = Self::push(method_name);
        code.append(MACHINE_NAME);
        code.append(".MethodCall()\n");
        code
    }

    fn assign(pointer_value: &str) -> (code: String) {
        let mut code = String::from_str(pointer_value);
        code.append(MACHINE_NAME);
        code.append(".Assign()\n");
        code
    }

    fn dotname(head: &str, tail: &[Identifier]) -> (code: String) {
        let mut code = String::from_str(head);
        let ghost steps = go_attribute_steps(idents_view(tail@));
        let mut i: usize = 0;
        while i < tail.len()
            invariant
                i <= tail.len(),
                steps == go_attribute_steps(idents_view(tail@)),
                code@ == head@ + concat(steps.take(i as int)),
            decreases tail.len() - i,
        {
            let name = quote(tail[i].0.as_str());
            let step = Self::push(Self::string(name.as_str()).as_str());
            code.append(step.as_str());
            code.append(MACHINE_NAME);
            code.append(".Index()\n");
            proof {
                lemma_concat_take(steps, i as int);
            }
            i += 1;
        }
        assert(steps.take(tail.len() as int) =~= steps);
        code
    }

    fn indexname(head: &str, tail: &[String]) -> (code: String) {
        let mut code = String::from_str(head);
        let ghost steps = go_index_steps(views(tail@));
        let mut i: usize = 0;
        while i < tail.len()
            invariant
                i <= tail.len(),
                steps == go_index_steps(views(tail@)),
                code@ == head@ + concat(steps.take(i as int)),
            decreases tail.len() - i,
        {
            code.append(tail[i].as_str());
            code.append(MACHINE_NAME);
            code.append(".Index()\n");
            proof {
                lemma_concat_take(steps, i as int);
            }
            i += 1;
        }
        assert(steps.take(tail.len() as int) =~= steps);
        code
    }
}

} // verus!
