//! The entry point: from source text to instruction text.

use vstd::prelude::*;
use crate::depth::suite_depth;
use crate::depth_laws::lemma_program_is_within_depth;
use crate::emit::compile_suite;
use crate::grammar::{spec_program, Parsed};
use crate::grammar_laws::lemma_program_reads_well;
use crate::laws::{lemma_well_formed_compiles, suite_names_methods};
use crate::layout::{laid_out, lay_out};
use crate::lower::{suite_code, suite_compiles};
use crate::parser::{parse_within, MAX_DEPTH};
use crate::report::message_text;
use crate::target::{Error, Target};

verus! {

/// What compiling `script` yields in the profile `T`.
///
/// A script that cannot be read yields the message for the place at which
/// reading stopped. A script that reads as a tree that cannot be compiled
/// yields the name of the error. Any other script yields the instruction
/// text of its statements, laid out: a line break stands behind each
/// semicolon that ends a statement, and every string is as the script has it.
pub open spec fn compile_outcome<T: Target>(script: Seq<char>, depth: nat) -> Result<
    Seq<char>,
    Seq<char>,
> {
    match spec_program(script, depth) {
        Parsed::Failed(at, expected) => Err(message_text(at, expected)),
        Parsed::Done(statements, _) => if suite_compiles(statements) {
            Ok(laid_out(suite_code::<T>(statements)))
        } else {
            Err(Error::InvalidFunctionName.name_text())
        },
    }
}

/// Whether `result` is `outcome`, text for text.
pub open spec fn yields(result: Result<String, String>, outcome: Result<Seq<char>, Seq<char>>)
    -> bool {
    match result {
        Ok(code) => outcome == Ok::<Seq<char>, Seq<char>>(code@),
        Err(message) => outcome == Err::<Seq<char>, Seq<char>>(message@),
    }
}

/// Compiles a script within `depth`, as the grammar counts it, to the
/// instruction text of the profile `T`. A script that nests deeper, in
/// brackets or in a chain of calls, is refused before anything is lowered;
/// the tree that is lowered is no deeper than `depth + 2`.
pub fn compile_within<T: Target>(script: &str, depth: usize) -> (result: Result<String, String>)
    ensures
        yields(result, compile_outcome::<T>(script@, depth as nat)),
{
    match parse_within(script, depth) {
        Ok(tree) => match compile_suite::<T>(&tree) {
            Ok(code) => Ok(lay_out(code.as_str())),
            Err(error) => Err(error.name()),
        },
        Err(message) => Err(message),
    }
}

/// Compiles a script to the instruction text of the profile `T`.
pub fn compile<T: Target>(script: &str) -> (result: Result<String, String>)
    ensures
        yields(result, compile_outcome::<T>(script@, MAX_DEPTH as nat)),
{
    compile_within::<T>(script, MAX_DEPTH)
}

/// Compiling is deterministic: whatever two compilations of one script in
/// one profile return, both succeed with the same text or both fail with
/// the same message.
pub proof fn lemma_compile_is_deterministic<T: Target>(
    script: Seq<char>,
    depth: nat,
    first: Result<String, String>,
    second: Result<String, String>,
)
    requires
        yields(first, compile_outcome::<T>(script, depth)),
        yields(second, compile_outcome::<T>(script, depth)),
    ensures
        match (first, second) {
            (Ok(a), Ok(b)) => a@ == b@,
            (Err(a), Err(b)) => a@ == b@,
            _ => false,
        },
{
}

/// Whether a script can be compiled does not depend on the profile, and
/// neither does the message where it cannot.
pub proof fn lemma_profiles_accept_the_same<A: Target, B: Target>(script: Seq<char>, depth: nat)
    ensures
        compile_outcome::<A>(script, depth) is Ok == compile_outcome::<B>(script, depth) is Ok,
        compile_outcome::<A>(script, depth) matches Err(message) ==> compile_outcome::<B>(
            script,
            depth,
        ) == Err::<Seq<char>, Seq<char>>(message),
{
}

/// A script that can be read compiles, in every profile, unless a class in
/// it has a method under an indexed path: nothing else keeps a tree that
/// was read from compiling.
pub proof fn lemma_readable_script_compiles<T: Target>(script: Seq<char>, depth: nat)
    ensures
        spec_program(script, depth) matches Parsed::Done(tree, _) ==> (compile_outcome::<T>(
            script,
            depth,
        ) is Ok == suite_names_methods(tree)),
{
    lemma_program_reads_well(script, depth);
    if let Parsed::Done(tree, _) = spec_program(script, depth) {
        lemma_well_formed_compiles(tree);
    }
}

/// Compiling fails fast on deep nesting: a script compiles only where it
/// reads as a tree no deeper than `depth + 2`. A script that nests deeper,
/// in brackets or in a chain of calls, yields a message and no text.
pub proof fn lemma_compiled_script_is_within_depth<T: Target>(script: Seq<char>, depth: nat)
    ensures
        compile_outcome::<T>(script, depth) is Ok ==> (spec_program(
            script,
            depth,
        ) matches Parsed::Done(tree, _) && suite_depth(tree) <= depth + 2),
{
    lemma_program_is_within_depth(script, depth);
}

} // verus!
