//! The parser: functions that read the constructs of the grammar from the
//! characters of a source text and build the syntax tree.
//!
//! Each function reads what the function of the same name in the grammar
//! defines, and returns the tree and the position behind it, or the position
//! and the expectation at which the text cannot be read.

use vstd::prelude::*;
use crate::depth::{suite_depth, value_deeper_than};
use crate::depth_laws::lemma_program_is_within_depth;
use crate::grammar::{
    after_semicolon, after_symbol, after_word, keyword_at, keyword_of, prepend, spec_args,
    spec_assignment, spec_atom, spec_call_args, spec_calls, spec_dot_ident, spec_expr, spec_exprs,
    spec_fncall, spec_for_loop, spec_foreign_function_literal, spec_function, spec_function_def,
    spec_group, spec_ident, spec_if_then_else, spec_index_name, spec_literal, spec_methods,
    spec_name, spec_number_literal, spec_operand, spec_program, spec_string_literal,
    spec_struct_def, spec_suite, spec_value, spec_while_loop, symbol_at, Expected, Keyword,
    OperandView, Parsed,
};
use crate::grammar_laws::lemma_program_reads_well;
use crate::lexer::{
    characters, is_letter, number_end, skip, starts_number, string_end, text, token_start, word_end,
};
use crate::report::{done, failed, message_text, ParseError};
use crate::token::{
    exprs_view, function_defs_view, idents_view, suite_well_formed, values_view, Expr, ExprView,
    FnCall, Function, FunctionDef, FunctionDefView, Identifier, Literal, Name, StructDef, Suite,
    Value, ValueView,
};

verus! {

/// `rest` with the items of `prefix` put before its own.
pub open spec fn with_prefix<T>(prefix: Seq<T>, rest: Parsed<Seq<T>>) -> Parsed<Seq<T>> {
    match rest {
        Parsed::Done(items, end) => Parsed::Done(prefix + items, end),
        Parsed::Failed(at, expected) => Parsed::Failed(at, expected),
    }
}

/// Putting `prefix` and then `item` before a list is putting `prefix` with
/// `item` at its end before it.
pub proof fn lemma_with_prefix_push<T>(prefix: Seq<T>, item: T, rest: Parsed<Seq<T>>)
    ensures
        with_prefix(prefix, prepend(item, rest)) == with_prefix(prefix.push(item), rest),
{
    match rest {
        Parsed::Done(items, end) => {
            assert(prefix + (seq![item] + items) =~= prefix.push(item) + items);
        },
        Parsed::Failed(at, expected) => {},
    }
}

/// Reads the character `c` as the next token: the position behind it, or
/// `None` where the next token is not `c`.
pub fn symbol(source: &[char], pos: usize, c: char) -> (behind: Option<usize>)
    requires
        pos <= source.len(),
    ensures
        behind is Some == symbol_at(source@, pos as int, c),
        behind matches Some(end) ==> end == after_symbol(source@, pos as int) && pos < end
            <= source.len(),
{
    let start = skip(source, pos);
    if start < source.len() && source[start] == c {
        Some(start + 1)
    } else {
        None
    }
}

/// Tells which keyword the characters from `from` up to `to` are, if any.
pub fn keyword(source: &[char], from: usize, to: usize) -> (word: Option<Keyword>)
    requires
        from <= to <= source.len(),
    ensures
        word == keyword_of(source@.subrange(from as int, to as int)),
{
    let ghost w = source@.subrange(from as int, to as int);
    let n = to - from;
    proof {
        reveal(keyword_of);
    }
    if n == 2 && source[from] == 'f' && source[from + 1] == 'n' {
        assert(w =~= Keyword::Fn.text());
        Some(Keyword::Fn)
    } else if n == 5 && source[from] == 'c' && source[from + 1] == 'l' && source[from + 2] == 'a'
        && source[from + 3] == 's' && source[from + 4] == 's' {
        assert(w =~= Keyword::Class.text());
        Some(Keyword::Class)
    } else if n == 5 && source[from] == 'w' && source[from + 1] == 'h' && source[from + 2] == 'i'
        && source[from + 3] == 'l' && source[from + 4] == 'e' {
        assert(w =~= Keyword::While.text());
        Some(Keyword::While)
    } else if n == 2 && source[from] == 'i' && source[from + 1] == 'f' {
        assert(w =~= Keyword::If.text());
        Some(Keyword::If)
    } else if n == 4 && source[from] == 'e' && source[from + 1] == 'l' && source[from + 2] == 's'
        && source[from + 3] == 'e' {
        assert(w =~= Keyword::Else.text());
        Some(Keyword::Else)
    } else if n == 3 && source[from] == 'f' && source[from + 1] == 'o' && source[from + 2] == 'r' {
        assert(w =~= Keyword::For.text());
        Some(Keyword::For)
    } else if n == 2 && source[from] == 'i' && source[from + 1] == 'n' {
        assert(w =~= Keyword::In.text());
        Some(Keyword::In)
    } else {
        assert(w.len() == n);
        assert(forall|i: int| 0 <= i < n ==> w[i] == source@[from + i]);
        assert(w != Keyword::Fn.text()) by {
            let t = Keyword::Fn.text();
            assert(t.len() == 2 && t[0] == 'f' && t[1] == 'n');
        }
        assert(w != Keyword::Class.text()) by {
            let t = Keyword::Class.text();
            assert(t.len() == 5 && t[0] == 'c' && t[1] == 'l' && t[2] == 'a' && t[3] == 's'
                && t[4] == 's');
        }
        assert(w != Keyword::While.text()) by {
            let t = Keyword::While.text();
            assert(t.len() == 5 && t[0] == 'w' && t[1] == 'h' && t[2] == 'i' && t[3] == 'l'
                && t[4] == 'e');
        }
        assert(w != Keyword::If.text()) by {
            let t = Keyword::If.text();
            assert(t.len() == 2 && t[0] == 'i' && t[1] == 'f');
        }
        assert(w != Keyword::Else.text()) by {
            let t = Keyword::Else.text();
            assert(t.len() == 4 && t[0] == 'e' && t[1] == 'l' && t[2] == 's' && t[3] == 'e');
        }
        assert(w != Keyword::For.text()) by {
            let t = Keyword::For.text();
            assert(t.len() == 3 && t[0] == 'f' && t[1] == 'o' && t[2] == 'r');
        }
        assert(w != Keyword::In.text()) by {
            let t = Keyword::In.text();
            assert(t.len() == 2 && t[0] == 'i' && t[1] == 'n');
        }
        None
    }
}

/// Looks at the token that follows `pos` as a word: the keyword that it is,
/// if it is one, and the position behind the word.
pub fn keyword_ahead(source: &[char], pos: usize) -> (ahead: (Option<Keyword>, usize))
    requires
        pos <= source.len(),
    ensures
        ahead.0 == keyword_at(source@, pos as int),
        ahead.1 == after_word(source@, pos as int),
        pos <= ahead.1 <= source.len(),
        ahead.0 is Some ==> pos < ahead.1,
{
    let start = skip(source, pos);
    let end = word_end(source, start);
    let word = keyword(source, start, end);
    proof {
        reveal(keyword_of);
        if word is Some {
            assert(word->0.text().len() > 0);
        }
    }
    (word, end)
}

/// Reads an identifier: a word that is not reserved.
pub fn ident(source: &[char], pos: usize) -> (result: Result<(Identifier, usize), ParseError>)
    requires
        pos <= source.len(),
    ensures
        match result {
            Ok((identifier, end)) => done(spec_ident(source@, pos as int), identifier@, end)
                && pos < end <= source.len(),
            Err(error) => failed(spec_ident(source@, pos as int), error),
        },
{
    let start = skip(source, pos);
    let end = word_end(source, start);
    if end > start && keyword(source, start, end).is_none() {
        Ok((Identifier(text(source, start, end)), end))
    } else {
        Err(ParseError { position: start, expected: Expected::Identifier })
    }
}

/// Reads a string literal: the characters between two double quotes, as
/// written.
pub fn string_literal(source: &[char], pos: usize) -> (result: Result<
    (Literal, usize),
    ParseError,
>)
    requires
        pos <= source.len(),
    ensures
        match result {
            Ok((literal, end)) => done(spec_string_literal(source@, pos as int), literal@, end)
                && pos < end <= source.len(),
            Err(error) => failed(spec_string_literal(source@, pos as int), error),
        },
{
    let start = skip(source, pos);
    if start < source.len() && source[start] == '"' {
        match string_end(source, start + 1) {
            Some(quote) => Ok((Literal::String(text(source, start + 1, quote)), quote + 1)),
            None => Err(ParseError { position: source.len(), expected: Expected::ClosingQuote }),
        }
    } else {
        Err(ParseError { position: start, expected: Expected::Value })
    }
}

/// Reads a number literal: the characters of the number, as written.
pub fn number_literal(source: &[char], pos: usize) -> (result: Result<
    (Literal, usize),
    ParseError,
>)
    requires
        pos <= source.len(),
    ensures
        match result {
            Ok((literal, end)) => done(spec_number_literal(source@, pos as int), literal@, end)
                && pos < end <= source.len(),
            Err(error) => failed(spec_number_literal(source@, pos as int), error),
        },
{
    let start = skip(source, pos);
    if starts_number(source, start) {
        let end = number_end(source, start);
        Ok((Literal::Number(text(source, start, end)), end))
    } else {
        Err(ParseError { position: start, expected: Expected::Value })
    }
}

/// Reads a foreign function literal: an at sign and, directly behind it, the
/// name of the host's primitive.
pub fn foreign_function_literal(source: &[char], pos: usize) -> (result: Result<
    (Literal, usize),
    ParseError,
>)
    requires
        pos <= source.len(),
    ensures
        match result {
            Ok((literal, end)) => done(
                spec_foreign_function_literal(source@, pos as int),
                literal@,
                end,
            ) && pos < end <= source.len(),
            Err(error) => failed(spec_foreign_function_literal(source@, pos as int), error),
        },
{
    let start = skip(source, pos);
    if start < source.len() && source[start] == '@' {
        let end = word_end(source, start + 1);
        if end > start + 1 {
            Ok((Literal::ForeignFunction(text(source, start + 1, end)), end))
        } else {
            Err(ParseError { position: start + 1, expected: Expected::Identifier })
        }
    } else {
        Err(ParseError { position: start, expected: Expected::Value })
    }
}

/// Reads a literal: a foreign function, a string or a number.
pub fn literal(source: &[char], pos: usize) -> (result: Result<(Literal, usize), ParseError>)
    requires
        pos <= source.len(),
    ensures
        match result {
            Ok((literal, end)) => done(spec_literal(source@, pos as int), literal@, end) && pos
                < end <= source.len(),
            Err(error) => failed(spec_literal(source@, pos as int), error),
        },
{
    let start = skip(source, pos);
    if start < source.len() && source[start] == '@' {
        foreign_function_literal(source, pos)
    } else if start < source.len() && source[start] == '"' {
        string_literal(source, pos)
    } else {
        number_literal(source, pos)
    }
}

/// Reads the segments of a dotted path: the identifier behind each point
/// that follows.
pub fn dot_ident(source: &[char], pos: usize) -> (result: Result<
    (Vec<Identifier>, usize),
    ParseError,
>)
    requires
        pos <= source.len(),
    ensures
        match result {
            Ok((segments, end)) => done(
                spec_dot_ident(source@, pos as int),
                idents_view(segments@),
                end,
            ) && pos <= end <= source.len() && (symbol_at(source@, pos as int, '.') ==> pos
                < end),
            Err(error) => failed(spec_dot_ident(source@, pos as int), error),
        },
{
    let mut segments: Vec<Identifier> = Vec::new();
    let mut at = pos;
    loop
        invariant
            pos <= at <= source.len(),
            symbol_at(source@, pos as int, '.') && segments.len() == 0 ==> at == pos,
            segments.len() > 0 ==> pos < at,
            spec_dot_ident(source@, pos as int) == with_prefix(
                idents_view(segments@),
                spec_dot_ident(source@, at as int),
            ),
        decreases source.len() - at,
    {
        match symbol(source, at, '.') {
            Some(behind) => {
                let (segment, end) = match ident(source, behind) {
                    Ok(read) => read,
                    Err(error) => {
                        return Err(error);
                    },
                };
                proof {
                    lemma_with_prefix_push(
                        idents_view(segments@),
                        segment@,
                        spec_dot_ident(source@, end as int),
                    );
                    assert(idents_view(segments@.push(segment)) =~= idents_view(segments@).push(
                        segment@,
                    ));
                }
                segments.push(segment);
                at = end;
            },
            None => {
                proof {
                    assert(idents_view(segments@) + Seq::<Seq<char>>::empty() =~= idents_view(
                        segments@,
                    ));
                }
                return Ok((segments, at));
            },
        }
    }
}

/// Reads the parameters of a function, behind the opening bracket:
/// identifiers with a comma between them, up to the closing bracket.
pub fn args(source: &[char], pos: usize) -> (result: Result<(Vec<Identifier>, usize), ParseError>)
    requires
        pos <= source.len(),
    ensures
        match result {
            Ok((params, end)) => done(spec_args(source@, pos as int), idents_view(params@), end)
                && pos < end <= source.len(),
            Err(error) => failed(spec_args(source@, pos as int), error),
        },
{
    let mut params: Vec<Identifier> = Vec::new();
    let mut at = pos;
    loop
        invariant
            pos <= at <= source.len(),
            spec_args(source@, pos as int) == with_prefix(
                idents_view(params@),
                spec_args(source@, at as int),
            ),
        decreases source.len() - at,
    {
        if let Some(behind) = symbol(source, at, ')') {
            proof {
                assert(idents_view(params@) + Seq::<Seq<char>>::empty() =~= idents_view(params@));
            }
            return Ok((params, behind));
        }
        let (parameter, end) = match ident(source, at) {
            Ok(read) => read,
            Err(error) => {
                return Err(error);
            },
        };
        proof {
            lemma_with_prefix_push(
                idents_view(params@),
                parameter@,
                spec_args(source@, after_symbol(source@, end as int)),
            );
            assert(idents_view(params@.push(parameter)) =~= idents_view(params@).push(parameter@));
            assert(idents_view(params@) + seq![parameter@] =~= idents_view(params@).push(
                parameter@,
            ));
        }
        params.push(parameter);
        if let Some(behind) = symbol(source, end, ',') {
            at = behind;
        } else if let Some(behind) = symbol(source, end, ')') {
            return Ok((params, behind));
        } else {
            return Err(
                ParseError { position: skip(source, end), expected: Expected::Symbol(')') },
            );
        }
    }
}

/// What stands at the head of a value.
#[derive(Debug, PartialEq, Eq)]
pub enum Operand {
    /// A name, as written.
    Name(Name),
    /// A value between round brackets.
    Group(Value),
    /// A literal.
    Literal(Literal),
}

impl View for Operand {
    type V = OperandView;

    open spec fn view(&self) -> OperandView {
        match self {
            Operand::Name(name) => OperandView::Name(name@),
            Operand::Group(value) => OperandView::Group(value@),
            Operand::Literal(literal) => OperandView::Literal(literal@),
        }
    }
}

impl Operand {
    /// The operand as a value.
    pub fn into_value(self) -> (value: Value)
        ensures
            value@ == self@.value(),
    {
        match self {
            Operand::Name(name) => Value::Name(name),
            Operand::Group(value) => value,
            Operand::Literal(literal) => Value::Literal(literal),
        }
    }
}

/// The failure to find `expected` in the token that follows `pos`.
fn unexpected(source: &[char], pos: usize, expected: Expected) -> (error: ParseError)
    requires
        pos <= source.len(),
    ensures
        error.position == token_start(source@, pos as int),
        error.expected == expected,
{
    ParseError { position: skip(source, pos), expected }
}

/// Reads a value between round brackets.
pub fn group(source: &[char], pos: usize, depth: usize) -> (result: Result<
    (Value, usize),
    ParseError,
>)
    requires
        pos <= source.len(),
    ensures
        match result {
            Ok((value, end)) => done(spec_group(source@, pos as int, depth as nat), value@, end)
                && pos < end <= source.len(),
            Err(error) => failed(spec_group(source@, pos as int, depth as nat), error),
        },
    decreases depth, 1nat, source.len() - pos,
{
    let behind = match symbol(source, pos, '(') {
        Some(behind) => behind,
        None => {
            return Err(unexpected(source, pos, Expected::Symbol('(')));
        },
    };
    if depth == 0 {
        return Err(unexpected(source, pos, Expected::ShallowerNesting));
    }
    let (value, end) = value(source, behind, depth - 1)?;
    match symbol(source, end, ')') {
        Some(behind) => Ok((value, behind)),
        None => Err(unexpected(source, end, Expected::Symbol(')'))),
    }
}

/// Reads the head of a value: a bracketed value, an identifier or a literal.
pub fn atom(source: &[char], pos: usize, depth: usize) -> (result: Result<
    (Operand, usize),
    ParseError,
>)
    requires
        pos <= source.len(),
    ensures
        match result {
            Ok((operand, end)) => done(
                spec_atom(source@, pos as int, depth as nat),
                operand@,
                end,
            ) && pos < end <= source.len(),
            Err(error) => failed(spec_atom(source@, pos as int, depth as nat), error),
        },
    decreases depth, 2nat, source.len() - pos,
{
    let start = skip(source, pos);
    if start < source.len() && source[start] == '(' {
        let (value, end) = group(source, pos, depth)?;
        Ok((Operand::Group(value), end))
    } else if start < source.len() && is_letter(source[start]) {
        match ident(source, pos) {
            Ok((identifier, end)) => Ok((Operand::Name(Name::Name(identifier)), end)),
            Err(error) => Err(ParseError { position: error.position, expected: Expected::Value }),
        }
    } else {
        let (literal, end) = literal(source, pos)?;
        Ok((Operand::Literal(literal), end))
    }
}

/// Reads the keys of an indexed path: for each opening square bracket that
/// follows, the value up to the closing one.
pub fn index_name(source: &[char], pos: usize, depth: usize) -> (result: Result<
    (Vec<Value>, usize),
    ParseError,
>)
    requires
        pos <= source.len(),
    ensures
        match result {
            Ok((keys, end)) => done(
                spec_index_name(source@, pos as int, depth as nat),
                values_view(keys@),
                end,
            ) && pos <= end <= source.len(),
            Err(error) => failed(spec_index_name(source@, pos as int, depth as nat), error),
        },
    decreases depth, 3nat, source.len() - pos,
{
    let mut keys: Vec<Value> = Vec::new();
    let mut at = pos;
    loop
        invariant
            pos <= at <= source.len(),
            spec_index_name(source@, pos as int, depth as nat) == with_prefix(
                values_view(keys@),
                spec_index_name(source@, at as int, depth as nat),
            ),
        decreases source.len() - at,
    {
        let behind = match symbol(source, at, '[') {
            Some(behind) => behind,
            None => {
                proof {
                    assert(values_view(keys@) + Seq::<ValueView>::empty()
                        =~= values_view(keys@));
                }
                return Ok((keys, at));
            },
        };
        if depth == 0 {
            return Err(unexpected(source, at, Expected::ShallowerNesting));
        }
        let (key, end) = value(source, behind, depth - 1)?;
        let next = match symbol(source, end, ']') {
            Some(next) => next,
            None => {
                return Err(unexpected(source, end, Expected::Symbol(']')));
            },
        };
        proof {
            lemma_with_prefix_push(
                values_view(keys@),
                key@,
                spec_index_name(source@, next as int, depth as nat),
            );
            assert(values_view(keys@.push(key)) =~= values_view(keys@).push(key@));
        }
        keys.push(key);
        at = next;
    }
}

/// Reads an operand: an atom, and the dotted or indexed path that follows it.
pub fn operand(source: &[char], pos: usize, depth: usize) -> (result: Result<
    (Operand, usize),
    ParseError,
>)
    requires
        pos <= source.len(),
    ensures
        match result {
            Ok((operand, end)) => done(
                spec_operand(source@, pos as int, depth as nat),
                operand@,
                end,
            ) && pos < end <= source.len(),
            Err(error) => failed(spec_operand(source@, pos as int, depth as nat), error),
        },
    decreases depth, 4nat, source.len() - pos,
{
    let (head, end) = atom(source, pos, depth)?;
    if symbol(source, end, '.').is_some() {
        let (segments, end) = dot_ident(source, end)?;
        Ok((Operand::Name(Name::DotName(Box::new(head.into_value()), segments)), end))
    } else if symbol(source, end, '[').is_some() {
        let (keys, end) = index_name(source, end, depth)?;
        Ok((Operand::Name(Name::IndexName(Box::new(head.into_value()), keys)), end))
    } else {
        Ok((head, end))
    }
}

/// Reads a name: an identifier, a dotted path or an indexed path.
pub fn name(source: &[char], pos: usize, depth: usize) -> (result: Result<
    (Name, usize),
    ParseError,
>)
    requires
        pos <= source.len(),
    ensures
        match result {
            Ok((name, end)) => done(spec_name(source@, pos as int, depth as nat), name@, end)
                && pos < end <= source.len(),
            Err(error) => failed(spec_name(source@, pos as int, depth as nat), error),
        },
    decreases depth, 5nat, source.len() - pos,
{
    match operand(source, pos, depth)? {
        (Operand::Name(name), end) => Ok((name, end)),
        _ => Err(unexpected(source, pos, Expected::Name)),
    }
}

/// Reads the arguments of a call, behind the opening bracket: values with a
/// comma between them, up to the closing bracket.
pub fn call_args(source: &[char], pos: usize, depth: usize) -> (result: Result<
    (Vec<Value>, usize),
    ParseError,
>)
    requires
        pos <= source.len(),
    ensures
        match result {
            Ok((arguments, end)) => done(
                spec_call_args(source@, pos as int, depth as nat),
                values_view(arguments@),
                end,
            ) && pos < end <= source.len(),
            Err(error) => failed(spec_call_args(source@, pos as int, depth as nat), error),
        },
    decreases depth, 5nat, source.len() - pos,
{
    let mut arguments: Vec<Value> = Vec::new();
    let mut at = pos;
    loop
        invariant
            pos <= at <= source.len(),
            spec_call_args(source@, pos as int, depth as nat) == with_prefix(
                values_view(arguments@),
                spec_call_args(source@, at as int, depth as nat),
            ),
        decreases source.len() - at,
    {
        if let Some(behind) = symbol(source, at, ')') {
            proof {
                assert(values_view(arguments@) + Seq::<ValueView>::empty()
                    =~= values_view(arguments@));
            }
            return Ok((arguments, behind));
        }
        if depth == 0 {
            return Err(unexpected(source, at, Expected::ShallowerNesting));
        }
        let (argument, end) = value(source, at, depth - 1)?;
        proof {
            lemma_with_prefix_push(
                values_view(arguments@),
                argument@,
                spec_call_args(source@, after_symbol(source@, end as int), depth as nat),
            );
            assert(values_view(arguments@.push(argument)) =~= values_view(arguments@).push(
                argument@,
            ));
            assert(values_view(arguments@) + seq![argument@] =~= values_view(arguments@).push(
                argument@,
            ));
        }
        arguments.push(argument);
        if let Some(behind) = symbol(source, end, ',') {
            at = behind;
        } else if let Some(behind) = symbol(source, end, ')') {
            return Ok((arguments, behind));
        } else {
            return Err(unexpected(source, end, Expected::Symbol(')')));
        }
    }
}

/// Reads what follows an operand: for each opening bracket behind a name, a
/// bracketed value or a call, the arguments of a call of it. Behind a
/// literal nothing is read. A callee deeper than `depth` is not called, so
/// a chain of calls is no longer than `depth`.
pub fn fncall(source: &[char], operand: Operand, pos: usize, depth: usize) -> (result: Result<
    (Value, usize),
    ParseError,
>)
    requires
        pos <= source.len(),
    ensures
        match result {
            Ok((value, end)) => done(
                spec_fncall(source@, operand@, pos as int, depth as nat),
                value@,
                end,
            ) && pos <= end <= source.len(),
            Err(error) => failed(spec_fncall(source@, operand@, pos as int, depth as nat), error),
        },
    decreases depth, 7nat, source.len() - pos,
{
    let callable = match &operand {
        Operand::Literal(_) => false,
        _ => true,
    };
    let ghost callee = operand@.value();
    let mut value = operand.into_value();
    if !callable {
        return Ok((value, pos));
    }
    let mut at = pos;
    loop
        invariant
            pos <= at <= source.len(),
            !(operand@ is Literal),
            callee == operand@.value(),
            spec_calls(source@, callee, pos as int, depth as nat) == spec_calls(
                source@,
                value@,
                at as int,
                depth as nat,
            ),
        decreases source.len() - at,
    {
        let behind = match symbol(source, at, '(') {
            Some(behind) => behind,
            None => {
                return Ok((value, at));
            },
        };
        if value_deeper_than(&value, depth) {
            return Err(unexpected(source, at, Expected::ShallowerNesting));
        }
        let (arguments, end) = call_args(source, behind, depth)?;
        value = Value::FnCall(FnCall(Box::new(value), arguments));
        at = end;
    }
}

/// Reads a block: statements between braces.
pub fn suite(source: &[char], pos: usize, depth: usize) -> (result: Result<
    (Suite, usize),
    ParseError,
>)
    requires
        pos <= source.len(),
    ensures
        match result {
            Ok((block, end)) => done(spec_suite(source@, pos as int, depth as nat), block@, end)
                && pos < end <= source.len(),
            Err(error) => failed(spec_suite(source@, pos as int, depth as nat), error),
        },
    decreases depth, 6nat, source.len() - pos,
{
    let behind = match symbol(source, pos, '{') {
        Some(behind) => behind,
        None => {
            return Err(unexpected(source, pos, Expected::Symbol('{')));
        },
    };
    if depth == 0 {
        return Err(unexpected(source, pos, Expected::ShallowerNesting));
    }
    let (statements, end) = exprs(source, behind, depth - 1)?;
    match symbol(source, end, '}') {
        Some(behind) => Ok((Suite(statements), behind)),
        None => Err(unexpected(source, end, Expected::Symbol('}'))),
    }
}

/// Reads a function behind its keyword, and behind its name where it has
/// one: the parameters between round brackets, then the body.
pub fn function(source: &[char], pos: usize, depth: usize) -> (result: Result<
    (Function, usize),
    ParseError,
>)
    requires
        pos <= source.len(),
    ensures
        match result {
            Ok((function, end)) => done(
                spec_function(source@, pos as int, depth as nat),
                function@,
                end,
            ) && pos < end <= source.len(),
            Err(error) => failed(spec_function(source@, pos as int, depth as nat), error),
        },
    decreases depth, 7nat, source.len() - pos,
{
    let behind = match symbol(source, pos, '(') {
        Some(behind) => behind,
        None => {
            return Err(unexpected(source, pos, Expected::Symbol('(')));
        },
    };
    let (params, end) = args(source, behind)?;
    let (body, end) = suite(source, end, depth)?;
    Ok((Function(params, body), end))
}

/// Reads a value: a function literal where the keyword `fn` stands, an
/// operand or a call of one otherwise.
pub fn value(source: &[char], pos: usize, depth: usize) -> (result: Result<
    (Value, usize),
    ParseError,
>)
    requires
        pos <= source.len(),
    ensures
        match result {
            Ok((value, end)) => done(spec_value(source@, pos as int, depth as nat), value@, end)
                && pos < end <= source.len(),
            Err(error) => failed(spec_value(source@, pos as int, depth as nat), error),
        },
    decreases depth, 8nat, source.len() - pos,
{
    match keyword_ahead(source, pos) {
        (Some(Keyword::Fn), behind) => {
            let (function, end) = function(source, behind, depth)?;
            Ok((Value::Function(function), end))
        },
        _ => {
            let (head, end) = operand(source, pos, depth)?;
            fncall(source, head, end, depth)
        },
    }
}

/// Reads a named function behind its keyword: the name, the parameters and
/// the body.
pub fn function_def(source: &[char], pos: usize, depth: usize) -> (result: Result<
    (FunctionDef, usize),
    ParseError,
>)
    requires
        pos <= source.len(),
    ensures
        match result {
            Ok((def, end)) => done(
                spec_function_def(source@, pos as int, depth as nat),
                def@,
                end,
            ) && pos < end <= source.len(),
            Err(error) => failed(spec_function_def(source@, pos as int, depth as nat), error),
        },
    decreases depth, 9nat, source.len() - pos,
{
    let (name, end) = name(source, pos, depth)?;
    let (function, end) = function(source, end, depth)?;
    Ok((FunctionDef(name, function), end))
}

/// Reads the methods of a class: a named function for each keyword `fn`
/// that follows.
pub fn methods(source: &[char], pos: usize, depth: usize) -> (result: Result<
    (Vec<FunctionDef>, usize),
    ParseError,
>)
    requires
        pos <= source.len(),
    ensures
        match result {
            Ok((methods, end)) => done(
                spec_methods(source@, pos as int, depth as nat),
                function_defs_view(methods@),
                end,
            ) && pos <= end <= source.len(),
            Err(error) => failed(spec_methods(source@, pos as int, depth as nat), error),
        },
    decreases depth, 10nat, source.len() - pos,
{
    let mut methods: Vec<FunctionDef> = Vec::new();
    let mut at = pos;
    loop
        invariant
            pos <= at <= source.len(),
            spec_methods(source@, pos as int, depth as nat) == with_prefix(
                function_defs_view(methods@),
                spec_methods(source@, at as int, depth as nat),
            ),
        decreases source.len() - at,
    {
        let behind = match keyword_ahead(source, at) {
            (Some(Keyword::Fn), behind) => behind,
            _ => {
                proof {
                    assert(function_defs_view(methods@) + Seq::<
                        FunctionDefView,
                    >::empty() =~= function_defs_view(methods@));
                }
                return Ok((methods, at));
            },
        };
        let (method, end) = function_def(source, behind, depth)?;
        proof {
            lemma_with_prefix_push(
                function_defs_view(methods@),
                method@,
                spec_methods(source@, end as int, depth as nat),
            );
            assert(function_defs_view(methods@.push(method)) =~= function_defs_view(
                methods@,
            ).push(method@));
        }
        methods.push(method);
        at = end;
    }
}

/// Reads a class behind its keyword: the name, then the methods between
/// braces.
pub fn struct_def(source: &[char], pos: usize, depth: usize) -> (result: Result<
    (StructDef, usize),
    ParseError,
>)
    requires
        pos <= source.len(),
    ensures
        match result {
            Ok((def, end)) => done(spec_struct_def(source@, pos as int, depth as nat), def@, end)
                && pos < end <= source.len(),
            Err(error) => failed(spec_struct_def(source@, pos as int, depth as nat), error),
        },
    decreases depth, 11nat, source.len() - pos,
{
    let (name, end) = name(source, pos, depth)?;
    let behind = match symbol(source, end, '{') {
        Some(behind) => behind,
        None => {
            return Err(unexpected(source, end, Expected::Symbol('{')));
        },
    };
    if depth == 0 {
        return Err(unexpected(source, end, Expected::ShallowerNesting));
    }
    let (methods, end) = methods(source, behind, depth - 1)?;
    match symbol(source, end, '}') {
        Some(behind) => Ok((StructDef(name, methods), behind)),
        None => Err(unexpected(source, end, Expected::Symbol('}'))),
    }
}

/// Reads a while loop behind its keyword: the condition, then the body.
pub fn while_loop(source: &[char], pos: usize, depth: usize) -> (result: Result<
    (Expr, usize),
    ParseError,
>)
    requires
        pos <= source.len(),
    ensures
        match result {
            Ok((statement, end)) => done(
                spec_while_loop(source@, pos as int, depth as nat),
                statement@,
                end,
            ) && pos < end <= source.len(),
            Err(error) => failed(spec_while_loop(source@, pos as int, depth as nat), error),
        },
    decreases depth, 11nat, source.len() - pos,
{
    let (condition, end) = value(source, pos, depth)?;
    let (body, end) = suite(source, end, depth)?;
    Ok((Expr::WhileLoop(condition, body), end))
}

/// Reads a for loop behind its keyword: the counter, a comma, the element,
/// the keyword `in`, the list, then the body.
pub fn for_loop(source: &[char], pos: usize, depth: usize) -> (result: Result<
    (Expr, usize),
    ParseError,
>)
    requires
        pos <= source.len(),
    ensures
        match result {
            Ok((statement, end)) => done(
                spec_for_loop(source@, pos as int, depth as nat),
                statement@,
                end,
            ) && pos < end <= source.len(),
            Err(error) => failed(spec_for_loop(source@, pos as int, depth as nat), error),
        },
    decreases depth, 11nat, source.len() - pos,
{
    let (counter, end) = ident(source, pos)?;
    let behind = match symbol(source, end, ',') {
        Some(behind) => behind,
        None => {
            return Err(unexpected(source, end, Expected::Symbol(',')));
        },
    };
    let (element, end) = ident(source, behind)?;
    let behind = match keyword_ahead(source, end) {
        (Some(Keyword::In), behind) => behind,
        _ => {
            return Err(unexpected(source, end, Expected::In));
        },
    };
    let (list, end) = value(source, behind, depth)?;
    let (body, end) = suite(source, end, depth)?;
    Ok((Expr::ForLoop { counter, element, list, body }, end))
}

/// Reads a conditional behind its keyword: the condition, the block to run
/// where it holds and, behind the keyword `else`, the block to run where it
/// does not. Without that keyword the second block is empty.
pub fn if_then_else(source: &[char], pos: usize, depth: usize) -> (result: Result<
    (Expr, usize),
    ParseError,
>)
    requires
        pos <= source.len(),
    ensures
        match result {
            Ok((statement, end)) => done(
                spec_if_then_else(source@, pos as int, depth as nat),
                statement@,
                end,
            ) && pos < end <= source.len(),
            Err(error) => failed(spec_if_then_else(source@, pos as int, depth as nat), error),
        },
    decreases depth, 11nat, source.len() - pos,
{
    let (condition, end) = value(source, pos, depth)?;
    let (then_body, end) = suite(source, end, depth)?;
    match keyword_ahead(source, end) {
        (Some(Keyword::Else), behind) => {
            let (else_body, end) = suite(source, behind, depth)?;
            Ok((Expr::IfThenElse(condition, then_body, else_body), end))
        },
        _ => {
            let else_body = Suite(Vec::new());
            assert(else_body@ =~= Seq::<ExprView>::empty());
            Ok((Expr::IfThenElse(condition, then_body, else_body), end))
        },
    }
}

/// The position behind an optional semicolon.
fn semicolon(source: &[char], pos: usize) -> (end: usize)
    requires
        pos <= source.len(),
    ensures
        end == after_semicolon(source@, pos as int),
        pos <= end <= source.len(),
{
    match symbol(source, pos, ';') {
        Some(behind) => behind,
        None => pos,
    }
}

/// Reads an assignment behind its name and its equals sign: the value, and
/// an optional semicolon.
pub fn assignment(source: &[char], name: Name, pos: usize, depth: usize) -> (result: Result<
    (Expr, usize),
    ParseError,
>)
    requires
        pos <= source.len(),
    ensures
        match result {
            Ok((statement, end)) => done(
                spec_assignment(source@, name@, pos as int, depth as nat),
                statement@,
                end,
            ) && pos < end <= source.len(),
            Err(error) => failed(
                spec_assignment(source@, name@, pos as int, depth as nat),
                error,
            ),
        },
    decreases depth, 11nat, source.len() - pos,
{
    let (value, end) = value(source, pos, depth)?;
    Ok((Expr::Assignment(name, value), semicolon(source, end)))
}

/// Reads a statement.
pub fn expr(source: &[char], pos: usize, depth: usize) -> (result: Result<
    (Expr, usize),
    ParseError,
>)
    requires
        pos <= source.len(),
    ensures
        match result {
            Ok((statement, end)) => done(
                spec_expr(source@, pos as int, depth as nat),
                statement@,
                end,
            ) && pos < end <= source.len(),
            Err(error) => failed(spec_expr(source@, pos as int, depth as nat), error),
        },
    decreases depth, 12nat, source.len() - pos,
{
    let (word, behind) = keyword_ahead(source, pos);
    match word {
        Some(Keyword::Class) => {
            let (def, end) = struct_def(source, behind, depth)?;
            Ok((Expr::StructDef(def), end))
        },
        Some(Keyword::Fn) => {
            if symbol(source, behind, '(').is_some() {
                let (value, end) = value(source, pos, depth)?;
                Ok((Expr::Value(value), semicolon(source, end)))
            } else {
                let (def, end) = function_def(source, behind, depth)?;
                Ok((Expr::FunctionDef(def), end))
            }
        },
        Some(Keyword::While) => while_loop(source, behind, depth),
        Some(Keyword::For) => for_loop(source, behind, depth),
        Some(Keyword::If) => if_then_else(source, behind, depth),
        _ => {
            let (head, end) = operand(source, pos, depth)?;
            match head {
                Operand::Name(name) => {
                    if let Some(behind) = symbol(source, end, '=') {
                        assignment(source, name, behind, depth)
                    } else {
                        let (value, end) = fncall(source, Operand::Name(name), end, depth)?;
                        Ok((Expr::Value(value), semicolon(source, end)))
                    }
                },
                _ => {
                    let (value, end) = fncall(source, head, end, depth)?;
                    Ok((Expr::Value(value), semicolon(source, end)))
                },
            }
        },
    }
}

/// Reads statements, one after the other, up to a closing brace or the end
/// of the source.
pub fn exprs(source: &[char], pos: usize, depth: usize) -> (result: Result<
    (Vec<Expr>, usize),
    ParseError,
>)
    requires
        pos <= source.len(),
    ensures
        match result {
            Ok((statements, end)) => done(
                spec_exprs(source@, pos as int, depth as nat),
                exprs_view(statements@),
                end,
            ) && pos <= end <= source.len(),
            Err(error) => failed(spec_exprs(source@, pos as int, depth as nat), error),
        },
    decreases depth, 13nat, source.len() - pos,
{
    let mut statements: Vec<Expr> = Vec::new();
    let mut at = pos;
    loop
        invariant
            pos <= at <= source.len(),
            spec_exprs(source@, pos as int, depth as nat) == with_prefix(
                exprs_view(statements@),
                spec_exprs(source@, at as int, depth as nat),
            ),
        decreases source.len() - at,
    {
        let start = skip(source, at);
        if start >= source.len() || source[start] == '}' {
            proof {
                assert(exprs_view(statements@) + Seq::<ExprView>::empty()
                    =~= exprs_view(statements@));
            }
            return Ok((statements, at));
        }
        let (statement, end) = expr(source, at, depth)?;
        proof {
            lemma_with_prefix_push(
                exprs_view(statements@),
                statement@,
                spec_exprs(source@, end as int, depth as nat),
            );
            assert(exprs_view(statements@.push(statement)) =~= exprs_view(statements@).push(
                statement@,
            ));
        }
        statements.push(statement);
        at = end;
    }
}

/// Reads a program: statements up to the end of the source, within `depth`.
/// The tree is no deeper than `depth + 2`.
pub fn program(source: &[char], depth: usize) -> (result: Result<Suite, ParseError>)
    ensures
        match result {
            Ok(block) => spec_program(source@, depth as nat) == Parsed::Done(
                block@,
                source.len() as int,
            ) && suite_well_formed(block@) && suite_depth(block@) <= depth + 2,
            Err(error) => failed(spec_program(source@, depth as nat), error) && error.position
                <= source.len(),
        },
{
    proof {
        lemma_program_reads_well(source@, depth as nat);
        lemma_program_is_within_depth(source@, depth as nat);
    }
    let (statements, end) = exprs(source, 0, depth)?;
    let start = skip(source, end);
    if start >= source.len() {
        Ok(Suite(statements))
    } else {
        Err(ParseError { position: start, expected: Expected::EndOfInput })
    }
}

/// The depth within which `parse` reads, as the grammar counts it. The
/// tree is no deeper than two more.
pub const MAX_DEPTH: usize = 128;

/// What reading a program yields: its statements, or the message for the
/// place at which it cannot be read.
pub open spec fn parse_outcome(script: Seq<char>, depth: nat) -> Result<
    Seq<ExprView>,
    Seq<char>,
> {
    match spec_program(script, depth) {
        Parsed::Done(statements, _) => Ok(statements),
        Parsed::Failed(at, expected) => Err(message_text(at, expected)),
    }
}

/// Parses a program within `depth`, as the grammar counts it: the brackets
/// around a value, a key, arguments or a block each take one for what
/// stands between them, each call of a chain takes one, and the brackets
/// around parameters take none. A program that needs more is refused. The
/// tree is no deeper than `depth + 2`.
pub fn parse_within(input: &str, depth: usize) -> (result: Result<Suite, String>)
    ensures
        match result {
            Ok(block) => parse_outcome(input@, depth as nat) == Ok::<_, Seq<char>>(block@)
                && suite_well_formed(block@) && suite_depth(block@) <= depth + 2,
            Err(message) => parse_outcome(input@, depth as nat) == Err::<
                Seq<ExprView>,
                _,
            >(message@),
        },
{
    let source = characters(input);
    match program(source.as_slice(), depth) {
        Ok(block) => Ok(block),
        Err(error) => Err(error.message()),
    }
}

/// Parses a program.
pub fn parse(input: &str) -> (result: Result<Suite, String>)
    ensures
        match result {
            Ok(block) => parse_outcome(input@, MAX_DEPTH as nat) == Ok::<_, Seq<char>>(block@)
                && suite_well_formed(block@) && suite_depth(block@) <= MAX_DEPTH + 2,
            Err(message) => parse_outcome(input@, MAX_DEPTH as nat) == Err::<
                Seq<ExprView>,
                _,
            >(message@),
        },
{
    parse_within(input, MAX_DEPTH)
}

} // verus!
