//! The grammar of the language, as functions from a source text and a
//! position to the tree that is read there.
//!
//! Every function reads one construct at a position and yields either its
//! model and the position behind it, or the position at which the text stops
//! being that construct and what was expected there. Blank space and
//! comments may stand before every token. The choice between constructs is
//! made on the next token alone, so a text has at most one reading.
//!
//! ```text
//! program    = { statement } end-of-source
//! statement  = "class" name "{" { "fn" definition } "}"
//!            | "fn" definition
//!            | "while" value block
//!            | "for" identifier "," identifier "in" value block
//!            | "if" value block [ "else" block ]
//!            | name "=" value [ ";" ]
//!            | value [ ";" ]
//! definition = name function
//! function   = "(" [ identifier { "," identifier } [ "," ] ] ")" block
//! block      = "{" { statement } "}"
//! value      = "fn" function
//!            | operand { "(" [ value { "," value } [ "," ] ] ")" }
//! operand    = atom [ "." identifier { "." identifier } ]
//!            | atom [ "[" value "]" { "[" value "]" } ]
//! atom       = "(" value ")" | identifier | literal
//! literal    = string | number | "@" word
//! ```
//!
//! A statement that begins with `fn` and an opening bracket is a value, the
//! function literal. A literal that stands alone is not called: a bracket
//! behind it begins the next statement. A name is an operand that is an
//! identifier or a path.
//!
//! `depth` bounds how far constructs stand inside one another, so that
//! reading and everything that walks the tree afterwards come to an end
//! within a known number of steps into it:
//!
//! - The round brackets of a bracketed value, the square brackets of a key
//!   and the braces of a block or of a class each take one from the depth
//!   for what stands between them, and are refused at depth 0.
//! - The round brackets of a call take one for the arguments between them;
//!   empty, they hold nothing that needs any. A call is refused where its
//!   callee is deeper than the depth, so each call of a chain takes one.
//! - The round brackets around the parameters of a function take none:
//!   nothing stands inside a parameter.
//!
//! A value that is read within `depth` is no deeper than `depth + 2`, and
//! neither is a statement.

use vstd::prelude::*;
use crate::depth::value_depth;
use crate::lexer::{
    char_at, number_len, number_starts, remaining, spec_is_letter, string_len, token_start,
    word_len,
};
use crate::token::{
    ExprView, FunctionDefView, FunctionView, LiteralView, NameView, StructDefView, ValueView,
};

verus! {

/// What the text should have held where it could not be read.
#[derive(Debug, PartialEq, Eq, Clone, Copy)]
pub enum Expected {
    /// A value: a name, a literal, a call, a function or a bracketed value.
    Value,
    /// An identifier that is no keyword.
    Identifier,
    /// A name: an identifier, a dotted path or an indexed path.
    Name,
    /// The given punctuation character.
    Symbol(char),
    /// The keyword `in`.
    In,
    /// The quote that closes a string.
    ClosingQuote,
    /// The end of the source.
    EndOfInput,
    /// Less nesting than the depth allows: fewer brackets inside one
    /// another, or a shorter chain of calls.
    ShallowerNesting,
}

/// The outcome of reading a construct.
pub enum Parsed<T> {
    /// The construct, and the position behind it.
    Done(T, int),
    /// The position at which reading stopped, and what was expected there.
    Failed(int, Expected),
}

/// What stands at the head of a value.
pub enum OperandView {
    /// A name, as written.
    Name(NameView),
    /// A value between round brackets.
    Group(ValueView),
    /// A literal.
    Literal(LiteralView),
}

impl OperandView {
    /// The operand as a value.
    pub open spec fn value(self) -> ValueView {
        match self {
            OperandView::Name(name) => ValueView::Name(name),
            OperandView::Group(value) => value,
            OperandView::Literal(literal) => ValueView::Literal(literal),
        }
    }
}

/// A reserved word. No identifier is spelled like one.
#[derive(Debug, PartialEq, Eq, Clone, Copy)]
pub enum Keyword {
    /// `fn`, before a function.
    Fn,
    /// `class`, before a class.
    Class,
    /// `while`, before a loop on a condition.
    While,
    /// `if`, before a conditional.
    If,
    /// `else`, before the second block of a conditional.
    Else,
    /// `for`, before a loop over a list.
    For,
    /// `in`, before the list of such a loop.
    In,
}

impl Keyword {
    /// The characters of the keyword.
    pub open spec fn text(self) -> Seq<char> {
        match self {
            Keyword::Fn => seq!['f', 'n'],
            Keyword::Class => seq!['c', 'l', 'a', 's', 's'],
            Keyword::While => seq!['w', 'h', 'i', 'l', 'e'],
            Keyword::If => seq!['i', 'f'],
            Keyword::Else => seq!['e', 'l', 's', 'e'],
            Keyword::For => seq!['f', 'o', 'r'],
            Keyword::In => seq!['i', 'n'],
        }
    }
}

/// The keyword that `word` is, if it is one.
#[verifier::opaque]
pub open spec fn keyword_of(word: Seq<char>) -> Option<Keyword> {
    if word == Keyword::Fn.text() {
        Some(Keyword::Fn)
    } else if word == Keyword::Class.text() {
        Some(Keyword::Class)
    } else if word == Keyword::While.text() {
        Some(Keyword::While)
    } else if word == Keyword::If.text() {
        Some(Keyword::If)
    } else if word == Keyword::Else.text() {
        Some(Keyword::Else)
    } else if word == Keyword::For.text() {
        Some(Keyword::For)
    } else if word == Keyword::In.text() {
        Some(Keyword::In)
    } else {
        None
    }
}

/// The keyword that the token that follows `pos` is, if it is one.
pub open spec fn keyword_at(s: Seq<char>, pos: int) -> Option<Keyword> {
    keyword_of(word_at(s, pos))
}

/// The word of the token that follows `pos`; empty where that token is no word.
pub open spec fn word_at(s: Seq<char>, pos: int) -> Seq<char> {
    let start = token_start(s, pos);
    s.subrange(start, start + word_len(s, start))
}

/// The position behind the word of the token that follows `pos`.
pub open spec fn after_word(s: Seq<char>, pos: int) -> int {
    let start = token_start(s, pos);
    start + word_len(s, start)
}

/// Whether the token that follows `pos` is the character `c`.
pub open spec fn symbol_at(s: Seq<char>, pos: int, c: char) -> bool {
    char_at(s, token_start(s, pos)) == Some(c)
}

/// The position behind the one-character token that follows `pos`.
pub open spec fn after_symbol(s: Seq<char>, pos: int) -> int {
    token_start(s, pos) + 1
}

/// The position behind an optional semicolon.
pub open spec fn after_semicolon(s: Seq<char>, pos: int) -> int {
    if symbol_at(s, pos, ';') {
        after_symbol(s, pos)
    } else {
        pos
    }
}

/// Whether `end` lies further along the source than `pos`. Every construct
/// that is read ends further along than it began; a repetition asks for it,
/// so that it is plain that it comes to an end.
pub open spec fn advances(s: Seq<char>, pos: int, end: int) -> bool {
    remaining(s, end) < remaining(s, pos)
}

/// `rest` with `first` put before its items.
pub open spec fn prepend<T>(first: T, rest: Parsed<Seq<T>>) -> Parsed<Seq<T>> {
    match rest {
        Parsed::Done(items, end) => Parsed::Done(seq![first] + items, end),
        Parsed::Failed(at, expected) => Parsed::Failed(at, expected),
    }
}

/// An identifier: a word that is not reserved.
pub open spec fn spec_ident(s: Seq<char>, pos: int) -> Parsed<Seq<char>> {
    let word = word_at(s, pos);
    if word_len(s, token_start(s, pos)) > 0 && keyword_of(word) is None {
        Parsed::Done(word, after_word(s, pos))
    } else {
        Parsed::Failed(token_start(s, pos), Expected::Identifier)
    }
}

/// A string literal: the characters between two double quotes, as written.
pub open spec fn spec_string_literal(s: Seq<char>, pos: int) -> Parsed<LiteralView> {
    let start = token_start(s, pos);
    if char_at(s, start) == Some('"') {
        match string_len(s, start + 1) {
            Some(n) => Parsed::Done(
                LiteralView::String(s.subrange(start + 1, start + 1 + n)),
                start + n + 2,
            ),
            None => Parsed::Failed(s.len() as int, Expected::ClosingQuote),
        }
    } else {
        Parsed::Failed(start, Expected::Value)
    }
}

/// A number literal: the characters of the number, as written.
pub open spec fn spec_number_literal(s: Seq<char>, pos: int) -> Parsed<LiteralView> {
    let start = token_start(s, pos);
    if number_starts(s, start) {
        Parsed::Done(
            LiteralView::Number(s.subrange(start, start + number_len(s, start))),
            start + number_len(s, start),
        )
    } else {
        Parsed::Failed(start, Expected::Value)
    }
}

/// A foreign function literal: an at sign and, directly behind it, a word.
pub open spec fn spec_foreign_function_literal(s: Seq<char>, pos: int) -> Parsed<LiteralView> {
    let start = token_start(s, pos);
    if char_at(s, start) == Some('@') {
        if word_len(s, start + 1) > 0 {
            Parsed::Done(
                LiteralView::ForeignFunction(
                    s.subrange(start + 1, start + 1 + word_len(s, start + 1)),
                ),
                start + 1 + word_len(s, start + 1),
            )
        } else {
            Parsed::Failed(start + 1, Expected::Identifier)
        }
    } else {
        Parsed::Failed(start, Expected::Value)
    }
}

/// A literal: a foreign function, a string or a number.
pub open spec fn spec_literal(s: Seq<char>, pos: int) -> Parsed<LiteralView> {
    let start = token_start(s, pos);
    if char_at(s, start) == Some('@') {
        spec_foreign_function_literal(s, pos)
    } else if char_at(s, start) == Some('"') {
        spec_string_literal(s, pos)
    } else {
        spec_number_literal(s, pos)
    }
}

/// The segments of a dotted path: for each point that follows, the
/// identifier behind it.
pub open spec fn spec_dot_ident(s: Seq<char>, pos: int) -> Parsed<Seq<Seq<char>>>
    decreases remaining(s, pos),
{
    if symbol_at(s, pos, '.') {
        match spec_ident(s, after_symbol(s, pos)) {
            Parsed::Done(segment, end) => prepend(segment, spec_dot_ident(s, end)),
            Parsed::Failed(at, expected) => Parsed::Failed(at, expected),
        }
    } else {
        Parsed::Done(Seq::empty(), pos)
    }
}

/// The parameters of a function, behind the opening bracket: identifiers
/// with a comma between them, up to the closing bracket. A comma may stand
/// before the closing bracket.
pub open spec fn spec_args(s: Seq<char>, pos: int) -> Parsed<Seq<Seq<char>>>
    decreases remaining(s, pos),
{
    if symbol_at(s, pos, ')') {
        Parsed::Done(Seq::empty(), after_symbol(s, pos))
    } else {
        match spec_ident(s, pos) {
            Parsed::Done(parameter, end) => if symbol_at(s, end, ',') {
                prepend(parameter, spec_args(s, after_symbol(s, end)))
            } else if symbol_at(s, end, ')') {
                Parsed::Done(seq![parameter], after_symbol(s, end))
            } else {
                Parsed::Failed(token_start(s, end), Expected::Symbol(')'))
            },
            Parsed::Failed(at, expected) => Parsed::Failed(at, expected),
        }
    }
}

/// A value between round brackets.
pub open spec fn spec_group(s: Seq<char>, pos: int, depth: nat) -> Parsed<ValueView>
    decreases depth, 1nat, remaining(s, pos),
{
    if !symbol_at(s, pos, '(') {
        Parsed::Failed(token_start(s, pos), Expected::Symbol('('))
    } else if depth == 0 {
        Parsed::Failed(token_start(s, pos), Expected::ShallowerNesting)
    } else {
        match spec_value(s, after_symbol(s, pos), (depth - 1) as nat) {
            Parsed::Done(value, end) => if symbol_at(s, end, ')') {
                Parsed::Done(value, after_symbol(s, end))
            } else {
                Parsed::Failed(token_start(s, end), Expected::Symbol(')'))
            },
            Parsed::Failed(at, expected) => Parsed::Failed(at, expected),
        }
    }
}

/// The head of a value: a bracketed value, an identifier or a literal.
pub open spec fn spec_atom(s: Seq<char>, pos: int, depth: nat) -> Parsed<OperandView>
    decreases depth, 2nat, remaining(s, pos),
{
    let start = token_start(s, pos);
    if symbol_at(s, pos, '(') {
        match spec_group(s, pos, depth) {
            Parsed::Done(value, end) => Parsed::Done(OperandView::Group(value), end),
            Parsed::Failed(at, expected) => Parsed::Failed(at, expected),
        }
    } else if start < s.len() && spec_is_letter(s[start]) {
        match spec_ident(s, pos) {
            Parsed::Done(word, end) => Parsed::Done(
                OperandView::Name(NameView::Name(word)),
                end,
            ),
            Parsed::Failed(at, expected) => Parsed::Failed(at, Expected::Value),
        }
    } else {
        match spec_literal(s, pos) {
            Parsed::Done(literal, end) => Parsed::Done(OperandView::Literal(literal), end),
            Parsed::Failed(at, expected) => Parsed::Failed(at, expected),
        }
    }
}

/// The keys of an indexed path: for each opening square bracket that
/// follows, the value up to the closing one.
pub open spec fn spec_index_name(s: Seq<char>, pos: int, depth: nat) -> Parsed<Seq<ValueView>>
    decreases depth, 3nat, remaining(s, pos),
{
    if !symbol_at(s, pos, '[') {
        Parsed::Done(Seq::empty(), pos)
    } else if depth == 0 {
        Parsed::Failed(token_start(s, pos), Expected::ShallowerNesting)
    } else {
        match spec_value(s, after_symbol(s, pos), (depth - 1) as nat) {
            Parsed::Done(key, end) => if !symbol_at(s, end, ']') {
                Parsed::Failed(token_start(s, end), Expected::Symbol(']'))
            } else if advances(s, pos, after_symbol(s, end)) {
                prepend(key, spec_index_name(s, after_symbol(s, end), depth))
            } else {
                Parsed::Failed(pos, Expected::Value)
            },
            Parsed::Failed(at, expected) => Parsed::Failed(at, expected),
        }
    }
}

/// An operand: an atom, and the path that follows it. Points make a dotted
/// path of it, square brackets an indexed path; the two do not mix.
pub open spec fn spec_operand(s: Seq<char>, pos: int, depth: nat) -> Parsed<OperandView>
    decreases depth, 4nat, remaining(s, pos),
{
    match spec_atom(s, pos, depth) {
        Parsed::Done(atom, end) => if symbol_at(s, end, '.') {
            match spec_dot_ident(s, end) {
                Parsed::Done(segments, end) => Parsed::Done(
                    OperandView::Name(NameView::DotName(Box::new(atom.value()), segments)),
                    end,
                ),
                Parsed::Failed(at, expected) => Parsed::Failed(at, expected),
            }
        } else if symbol_at(s, end, '[') {
            match spec_index_name(s, end, depth) {
                Parsed::Done(keys, end) => Parsed::Done(
                    OperandView::Name(NameView::IndexName(Box::new(atom.value()), keys)),
                    end,
                ),
                Parsed::Failed(at, expected) => Parsed::Failed(at, expected),
            }
        } else {
            Parsed::Done(atom, end)
        },
        Parsed::Failed(at, expected) => Parsed::Failed(at, expected),
    }
}

/// A name: an operand that is an identifier or a path.
pub open spec fn spec_name(s: Seq<char>, pos: int, depth: nat) -> Parsed<NameView>
    decreases depth, 5nat, remaining(s, pos),
{
    match spec_operand(s, pos, depth) {
        Parsed::Done(OperandView::Name(name), end) => Parsed::Done(name, end),
        Parsed::Done(_, end) => Parsed::Failed(token_start(s, pos), Expected::Name),
        Parsed::Failed(at, expected) => Parsed::Failed(at, expected),
    }
}

/// The arguments of a call, behind the opening bracket: values with a comma
/// between them, up to the closing bracket. A comma may stand before the
/// closing bracket.
pub open spec fn spec_call_args(s: Seq<char>, pos: int, depth: nat) -> Parsed<Seq<ValueView>>
    decreases depth, 5nat, remaining(s, pos),
{
    if symbol_at(s, pos, ')') {
        Parsed::Done(Seq::empty(), after_symbol(s, pos))
    } else if depth == 0 {
        Parsed::Failed(token_start(s, pos), Expected::ShallowerNesting)
    } else {
        match spec_value(s, pos, (depth - 1) as nat) {
            Parsed::Done(argument, end) => if symbol_at(s, end, ',') {
                if advances(s, pos, after_symbol(s, end)) {
                    prepend(argument, spec_call_args(s, after_symbol(s, end), depth))
                } else {
                    Parsed::Failed(pos, Expected::Value)
                }
            } else if symbol_at(s, end, ')') {
                Parsed::Done(seq![argument], after_symbol(s, end))
            } else {
                Parsed::Failed(token_start(s, end), Expected::Symbol(')'))
            },
            Parsed::Failed(at, expected) => Parsed::Failed(at, expected),
        }
    }
}

/// The calls that the text behind a callee makes of it: for each opening
/// bracket that follows, a call of what was read so far with the arguments
/// up to the closing bracket. So `f(a)(b)` calls what `f(a)` yields.
///
/// A callee that is deeper than `depth` is not called: a call is one deeper
/// than its callee, so each call of a chain takes one from the depth, and
/// a chain comes to an end like brackets inside one another do.
pub open spec fn spec_calls(s: Seq<char>, callee: ValueView, pos: int, depth: nat) -> Parsed<
    ValueView,
>
    decreases depth, 6nat, remaining(s, pos),
{
    if !symbol_at(s, pos, '(') {
        Parsed::Done(callee, pos)
    } else if value_depth(callee) > depth {
        Parsed::Failed(token_start(s, pos), Expected::ShallowerNesting)
    } else {
        match spec_call_args(s, after_symbol(s, pos), depth) {
            Parsed::Done(arguments, end) => if advances(s, pos, end) {
                spec_calls(s, ValueView::FnCall(Box::new(callee), arguments), end, depth)
            } else {
                Parsed::Failed(pos, Expected::Value)
            },
            Parsed::Failed(at, expected) => Parsed::Failed(at, expected),
        }
    }
}

/// What an operand and the text behind it make: the calls of it where the
/// operand is a name or a bracketed value, the operand itself where it is a
/// literal.
pub open spec fn spec_fncall(s: Seq<char>, operand: OperandView, pos: int, depth: nat) -> Parsed<
    ValueView,
>
    decreases depth, 7nat, remaining(s, pos),
{
    if operand is Literal {
        Parsed::Done(operand.value(), pos)
    } else {
        spec_calls(s, operand.value(), pos, depth)
    }
}

/// A block: statements between braces.
pub open spec fn spec_suite(s: Seq<char>, pos: int, depth: nat) -> Parsed<Seq<ExprView>>
    decreases depth, 6nat, remaining(s, pos),
{
    if !symbol_at(s, pos, '{') {
        Parsed::Failed(token_start(s, pos), Expected::Symbol('{'))
    } else if depth == 0 {
        Parsed::Failed(token_start(s, pos), Expected::ShallowerNesting)
    } else {
        match spec_exprs(s, after_symbol(s, pos), (depth - 1) as nat) {
            Parsed::Done(statements, end) => if symbol_at(s, end, '}') {
                Parsed::Done(statements, after_symbol(s, end))
            } else {
                Parsed::Failed(token_start(s, end), Expected::Symbol('}'))
            },
            Parsed::Failed(at, expected) => Parsed::Failed(at, expected),
        }
    }
}

/// A function behind its keyword, and behind its name where it has one: the
/// parameters between round brackets, then the body.
pub open spec fn spec_function(s: Seq<char>, pos: int, depth: nat) -> Parsed<FunctionView>
    decreases depth, 7nat, remaining(s, pos),
{
    if !symbol_at(s, pos, '(') {
        Parsed::Failed(token_start(s, pos), Expected::Symbol('('))
    } else {
        match spec_args(s, after_symbol(s, pos)) {
            Parsed::Done(params, end) => match spec_suite(s, end, depth) {
                Parsed::Done(body, end) => Parsed::Done(FunctionView { params, body }, end),
                Parsed::Failed(at, expected) => Parsed::Failed(at, expected),
            },
            Parsed::Failed(at, expected) => Parsed::Failed(at, expected),
        }
    }
}

/// A value: a function literal where the keyword `fn` stands, an operand or
/// a call of one otherwise.
pub open spec fn spec_value(s: Seq<char>, pos: int, depth: nat) -> Parsed<ValueView>
    decreases depth, 8nat, remaining(s, pos),
{
    if keyword_at(s, pos) == Some(Keyword::Fn) {
        match spec_function(s, after_word(s, pos), depth) {
            Parsed::Done(function, end) => Parsed::Done(ValueView::Function(function), end),
            Parsed::Failed(at, expected) => Parsed::Failed(at, expected),
        }
    } else {
        match spec_operand(s, pos, depth) {
            Parsed::Done(operand, end) => spec_fncall(s, operand, end, depth),
            Parsed::Failed(at, expected) => Parsed::Failed(at, expected),
        }
    }
}

/// A named function behind its keyword: the name, the parameters and the body.
pub open spec fn spec_function_def(s: Seq<char>, pos: int, depth: nat) -> Parsed<FunctionDefView>
    decreases depth, 9nat, remaining(s, pos),
{
    match spec_name(s, pos, depth) {
        Parsed::Done(name, end) => match spec_function(s, end, depth) {
            Parsed::Done(function, end) => Parsed::Done(FunctionDefView { name, function }, end),
            Parsed::Failed(at, expected) => Parsed::Failed(at, expected),
        },
        Parsed::Failed(at, expected) => Parsed::Failed(at, expected),
    }
}

/// The methods of a class: a named function for each keyword `fn` that follows.
pub open spec fn spec_methods(s: Seq<char>, pos: int, depth: nat) -> Parsed<Seq<FunctionDefView>>
    decreases depth, 10nat, remaining(s, pos),
{
    if keyword_at(s, pos) == Some(Keyword::Fn) {
        match spec_function_def(s, after_word(s, pos), depth) {
            Parsed::Done(method, end) => if advances(s, pos, end) {
                prepend(method, spec_methods(s, end, depth))
            } else {
                Parsed::Failed(pos, Expected::Value)
            },
            Parsed::Failed(at, expected) => Parsed::Failed(at, expected),
        }
    } else {
        Parsed::Done(Seq::empty(), pos)
    }
}

/// A class behind its keyword: the name, then the methods between braces.
pub open spec fn spec_struct_def(s: Seq<char>, pos: int, depth: nat) -> Parsed<StructDefView>
    decreases depth, 11nat, remaining(s, pos),
{
    match spec_name(s, pos, depth) {
        Parsed::Done(name, end) => if !symbol_at(s, end, '{') {
            Parsed::Failed(token_start(s, end), Expected::Symbol('{'))
        } else if depth == 0 {
            Parsed::Failed(token_start(s, end), Expected::ShallowerNesting)
        } else {
            match spec_methods(s, after_symbol(s, end), (depth - 1) as nat) {
                Parsed::Done(methods, end) => if symbol_at(s, end, '}') {
                    Parsed::Done(StructDefView { name, methods }, after_symbol(s, end))
                } else {
                    Parsed::Failed(token_start(s, end), Expected::Symbol('}'))
                },
                Parsed::Failed(at, expected) => Parsed::Failed(at, expected),
            }
        },
        Parsed::Failed(at, expected) => Parsed::Failed(at, expected),
    }
}

/// A while loop behind its keyword: the condition, then the body.
pub open spec fn spec_while_loop(s: Seq<char>, pos: int, depth: nat) -> Parsed<ExprView>
    decreases depth, 11nat, remaining(s, pos),
{
    match spec_value(s, pos, depth) {
        Parsed::Done(condition, end) => match spec_suite(s, end, depth) {
            Parsed::Done(body, end) => Parsed::Done(ExprView::WhileLoop(condition, body), end),
            Parsed::Failed(at, expected) => Parsed::Failed(at, expected),
        },
        Parsed::Failed(at, expected) => Parsed::Failed(at, expected),
    }
}

/// A for loop behind its keyword: the counter, a comma, the element, the
/// keyword `in`, the list, then the body.
pub open spec fn spec_for_loop(s: Seq<char>, pos: int, depth: nat) -> Parsed<ExprView>
    decreases depth, 11nat, remaining(s, pos),
{
    match spec_ident(s, pos) {
        Parsed::Done(counter, end) => if !symbol_at(s, end, ',') {
            Parsed::Failed(token_start(s, end), Expected::Symbol(','))
        } else {
            match spec_ident(s, after_symbol(s, end)) {
                Parsed::Done(element, end) => if keyword_at(s, end) != Some(Keyword::In) {
                    Parsed::Failed(token_start(s, end), Expected::In)
                } else {
                    match spec_value(s, after_word(s, end), depth) {
                        Parsed::Done(list, end) => match spec_suite(s, end, depth) {
                            Parsed::Done(body, end) => Parsed::Done(
                                ExprView::ForLoop { counter, element, list, body },
                                end,
                            ),
                            Parsed::Failed(at, expected) => Parsed::Failed(at, expected),
                        },
                        Parsed::Failed(at, expected) => Parsed::Failed(at, expected),
                    }
                },
                Parsed::Failed(at, expected) => Parsed::Failed(at, expected),
            }
        },
        Parsed::Failed(at, expected) => Parsed::Failed(at, expected),
    }
}

/// A conditional behind its keyword: the condition, the block to run where
/// it holds and, behind the keyword `else`, the block to run where it does
/// not. Without that keyword the second block is empty.
pub open spec fn spec_if_then_else(s: Seq<char>, pos: int, depth: nat) -> Parsed<ExprView>
    decreases depth, 11nat, remaining(s, pos),
{
    match spec_value(s, pos, depth) {
        Parsed::Done(condition, end) => match spec_suite(s, end, depth) {
            Parsed::Done(then_body, end) => if keyword_at(s, end) == Some(Keyword::Else) {
                match spec_suite(s, after_word(s, end), depth) {
                    Parsed::Done(else_body, end) => Parsed::Done(
                        ExprView::IfThenElse(condition, then_body, else_body),
                        end,
                    ),
                    Parsed::Failed(at, expected) => Parsed::Failed(at, expected),
                }
            } else {
                Parsed::Done(ExprView::IfThenElse(condition, then_body, Seq::empty()), end)
            },
            Parsed::Failed(at, expected) => Parsed::Failed(at, expected),
        },
        Parsed::Failed(at, expected) => Parsed::Failed(at, expected),
    }
}

/// An assignment behind its name and its equals sign: the value, and an
/// optional semicolon.
pub open spec fn spec_assignment(s: Seq<char>, name: NameView, pos: int, depth: nat) -> Parsed<
    ExprView,
>
    decreases depth, 11nat, remaining(s, pos),
{
    match spec_value(s, pos, depth) {
        Parsed::Done(value, end) => Parsed::Done(
            ExprView::Assignment(name, value),
            after_semicolon(s, end),
        ),
        Parsed::Failed(at, expected) => Parsed::Failed(at, expected),
    }
}

/// A statement. A keyword decides which: `class`, `fn` with a name behind
/// it, `while`, `for` or `if`. Without one, a name with an equals sign
/// behind it is assigned to, and anything else is a value; behind either an
/// optional semicolon.
pub open spec fn spec_expr(s: Seq<char>, pos: int, depth: nat) -> Parsed<ExprView>
    decreases depth, 12nat, remaining(s, pos),
{
    let word = keyword_at(s, pos);
    let behind = after_word(s, pos);
    if word == Some(Keyword::Class) {
        match spec_struct_def(s, behind, depth) {
            Parsed::Done(def, end) => Parsed::Done(ExprView::StructDef(def), end),
            Parsed::Failed(at, expected) => Parsed::Failed(at, expected),
        }
    } else if word == Some(Keyword::Fn) && !symbol_at(s, behind, '(') {
        match spec_function_def(s, behind, depth) {
            Parsed::Done(def, end) => Parsed::Done(ExprView::FunctionDef(def), end),
            Parsed::Failed(at, expected) => Parsed::Failed(at, expected),
        }
    } else if word == Some(Keyword::While) {
        spec_while_loop(s, behind, depth)
    } else if word == Some(Keyword::For) {
        spec_for_loop(s, behind, depth)
    } else if word == Some(Keyword::If) {
        spec_if_then_else(s, behind, depth)
    } else if word == Some(Keyword::Fn) {
        match spec_value(s, pos, depth) {
            Parsed::Done(value, end) => Parsed::Done(
                ExprView::Value(value),
                after_semicolon(s, end),
            ),
            Parsed::Failed(at, expected) => Parsed::Failed(at, expected),
        }
    } else {
        match spec_operand(s, pos, depth) {
            Parsed::Done(OperandView::Name(name), end) if symbol_at(s, end, '=') => spec_assignment(
                s,
                name,
                after_symbol(s, end),
                depth,
            ),
            Parsed::Done(operand, end) => match spec_fncall(s, operand, end, depth) {
                Parsed::Done(value, end) => Parsed::Done(
                    ExprView::Value(value),
                    after_semicolon(s, end),
                ),
                Parsed::Failed(at, expected) => Parsed::Failed(at, expected),
            },
            Parsed::Failed(at, expected) => Parsed::Failed(at, expected),
        }
    }
}

/// Whether the statements of a block or of a program end at `pos`: at a
/// closing brace or at the end of the source.
pub open spec fn statements_end(s: Seq<char>, pos: int) -> bool {
    token_start(s, pos) >= s.len() || symbol_at(s, pos, '}')
}

/// Statements, one after the other, up to a closing brace or the end of the
/// source.
pub open spec fn spec_exprs(s: Seq<char>, pos: int, depth: nat) -> Parsed<Seq<ExprView>>
    decreases depth, 13nat, remaining(s, pos),
{
    if statements_end(s, pos) {
        Parsed::Done(Seq::empty(), pos)
    } else {
        match spec_expr(s, pos, depth) {
            Parsed::Done(statement, end) => if advances(s, pos, end) {
                prepend(statement, spec_exprs(s, end, depth))
            } else {
                Parsed::Failed(pos, Expected::Value)
            },
            Parsed::Failed(at, expected) => Parsed::Failed(at, expected),
        }
    }
}

/// A program: statements up to the end of the source.
pub open spec fn spec_program(s: Seq<char>, depth: nat) -> Parsed<Seq<ExprView>> {
    match spec_exprs(s, 0, depth) {
        Parsed::Done(statements, end) => if token_start(s, end) >= s.len() {
            Parsed::Done(statements, s.len() as int)
        } else {
            Parsed::Failed(token_start(s, end), Expected::EndOfInput)
        },
        Parsed::Failed(at, expected) => Parsed::Failed(at, expected),
    }
}

} // verus!
