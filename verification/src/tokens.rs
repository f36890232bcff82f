//! Blank space and comments between tokens are transparent: two sources
//! with the same tokens read alike.
//!
//! The tokens of a source are what is left of it without its blank space
//! and its comments: strings, words, numbers, names of primitives behind
//! their at sign, and single characters. Reading goes from token to token,
//! so two sources with the same tokens are read in step, whatever stands
//! between their tokens.

use vstd::prelude::*;
use crate::compile::compile_outcome;
use crate::grammar::{
    after_semicolon, after_symbol, after_word, keyword_at, spec_args, spec_assignment, spec_atom,
    spec_call_args, spec_calls, spec_dot_ident, spec_expr, spec_exprs, spec_fncall, spec_for_loop,
    spec_function, spec_function_def, spec_group, spec_ident, spec_if_then_else, spec_index_name,
    spec_literal, spec_methods, spec_name, spec_operand, spec_program, spec_struct_def, spec_suite,
    spec_value, spec_while_loop, statements_end, symbol_at, word_at, Keyword, OperandView, Parsed,
};
use crate::grammar_laws::{
    lemma_call_args_reads_well, lemma_expr_reads_well, lemma_function_def_reads_well,
    lemma_ident_moves_on, lemma_value_reads_well, lemma_word_within,
};
use crate::lexer::{
    char_at, digits_len, is_letter, lemma_digits_len_bound, lemma_digits_len_of_suffix,
    lemma_number_len_bound, lemma_skip_len_of_suffix, lemma_string_len_bound,
    lemma_string_len_local, lemma_string_len_of_suffix, lemma_token_start_bound,
    lemma_token_start_is_fixed, lemma_word_len_bound, lemma_word_rest_len_of_suffix, number_end,
    number_len, number_starts, remaining, skip, spec_is_digit, spec_is_letter, starts_number,
    string_end, string_len, text, token_start, word_end, word_len,
};
use crate::target::Target;
use crate::token::{NameView, ValueView};

verus! {

/// The length of the token that starts at `pos`: a string with its quotes,
/// or to the end of the source where it is not closed; a word; a number; an
/// at sign with the word behind it; any other character by itself.
pub open spec fn token_len(s: Seq<char>, pos: int) -> nat {
    if pos < 0 || pos >= s.len() {
        0
    } else if s[pos] == '"' {
        match string_len(s, pos + 1) {
            Some(n) => n + 2,
            None => (s.len() - pos) as nat,
        }
    } else if spec_is_letter(s[pos]) {
        word_len(s, pos)
    } else if number_starts(s, pos) {
        number_len(s, pos)
    } else if s[pos] == '@' {
        1 + word_len(s, pos + 1)
    } else {
        1
    }
}

/// The tokens of the source from `pos` on, without the blank space and the
/// comments before and between them.
pub open spec fn tokens_from(s: Seq<char>, pos: int) -> Seq<Seq<char>>
    decreases remaining(s, pos),
{
    let start = token_start(s, pos);
    let len = token_len(s, start);
    if pos < 0 || start >= s.len() || len == 0 {
        Seq::empty()
    } else {
        seq![s.subrange(start, start + len)] + tokens_from(s, start + len)
    }
}

/// The tokens of a source.
pub open spec fn tokens(s: Seq<char>) -> Seq<Seq<char>> {
    tokens_from(s, 0)
}

/// Whether the position `p` in `s` and the position `q` in `u` are in step:
/// the same tokens follow them.
pub open spec fn in_step(s: Seq<char>, u: Seq<char>, p: int, q: int) -> bool {
    &&& 0 <= p <= s.len()
    &&& 0 <= q <= u.len()
    &&& tokens_from(s, p) == tokens_from(u, q)
}

/// Whether `c` is a token by itself wherever it stands.
pub open spec fn is_punctuation(c: char) -> bool {
    !spec_is_letter(c) && !spec_is_digit(c) && c != '"' && c != '@' && c != '-'
}

/// A token has at least one character and ends within the source.
pub proof fn lemma_token_len_bound(s: Seq<char>, pos: int)
    requires
        0 <= pos < s.len(),
    ensures
        1 <= token_len(s, pos),
        pos + token_len(s, pos) <= s.len(),
{
    lemma_string_len_bound(s, pos + 1);
    lemma_word_len_bound(s, pos);
    lemma_word_len_bound(s, pos + 1);
    if number_starts(s, pos) {
        lemma_number_len_bound(s, pos);
    }
}

/// The tokens that follow a position are those that follow the start of
/// the next token.
proof fn lemma_tokens_from_start(s: Seq<char>, pos: int)
    requires
        0 <= pos <= s.len(),
    ensures
        tokens_from(s, token_start(s, pos)) == tokens_from(s, pos),
        pos <= token_start(s, pos) <= s.len(),
{
    lemma_token_start_bound(s, pos);
    lemma_token_start_is_fixed(s, pos);
}

/// Two positions in step have the same token before them, and are in step
/// again behind it; or both have no token before them.
proof fn lemma_first_tokens(s: Seq<char>, u: Seq<char>, p: int, q: int)
    requires
        in_step(s, u, p, q),
    ensures
        p <= token_start(s, p) <= s.len(),
        q <= token_start(u, q) <= u.len(),
        in_step(s, u, token_start(s, p), token_start(u, q)),
        (token_start(s, p) >= s.len()) == (token_start(u, q) >= u.len()),
        token_start(s, p) < s.len() ==> {
            let ps = token_start(s, p);
            let qs = token_start(u, q);
            let n = token_len(s, ps);
            &&& token_len(u, qs) == n
            &&& 1 <= n
            &&& ps + n <= s.len()
            &&& qs + n <= u.len()
            &&& s.subrange(ps, ps + n) == u.subrange(qs, qs + n)
            &&& s[ps] == u[qs]
            &&& in_step(s, u, ps + n, qs + n)
        },
{
    lemma_tokens_from_start(s, p);
    lemma_tokens_from_start(u, q);
    let ps = token_start(s, p);
    let qs = token_start(u, q);
    if ps < s.len() {
        lemma_token_len_bound(s, ps);
    }
    if qs < u.len() {
        lemma_token_len_bound(u, qs);
    }
    let a = tokens_from(s, p);
    let b = tokens_from(u, q);
    if ps < s.len() {
        let n = token_len(s, ps);
        let first = s.subrange(ps, ps + n);
        assert(a == seq![first] + tokens_from(s, ps + n));
        assert(a.len() > 0);
        assert(b.len() > 0);
        assert(qs < u.len());
        let m = token_len(u, qs);
        let other = u.subrange(qs, qs + m);
        assert(b == seq![other] + tokens_from(u, qs + m));
        assert(a[0] == first && b[0] == other);
        assert(first.len() == n && other.len() == m);
        assert(a.skip(1) =~= tokens_from(s, ps + n));
        assert(b.skip(1) =~= tokens_from(u, qs + m));
        assert(first[0] == s[ps] && other[0] == u[qs]);
    } else if qs < u.len() {
        let m = token_len(u, qs);
        assert(b == seq![u.subrange(qs, qs + m)] + tokens_from(u, qs + m));
        assert(b.len() > 0);
        assert(a.len() == 0);
    }
}

/// The tokens that follow two positions in step start at positions in step,
/// with the same character.
pub proof fn lemma_token_starts_in_step(s: Seq<char>, u: Seq<char>, p: int, q: int)
    requires
        in_step(s, u, p, q),
    ensures
        in_step(s, u, token_start(s, p), token_start(u, q)),
        char_at(u, token_start(u, q)) == char_at(s, token_start(s, p)),
        p <= token_start(s, p) <= s.len(),
        q <= token_start(u, q) <= u.len(),
{
    lemma_first_tokens(s, u, p, q);
}

/// The characters of the same token are the same, one by one.
proof fn lemma_same_token_chars(s: Seq<char>, u: Seq<char>, p: int, q: int, n: int, i: int)
    requires
        0 <= p,
        0 <= q,
        p + n <= s.len(),
        q + n <= u.len(),
        s.subrange(p, p + n) == u.subrange(q, q + n),
        0 <= i < n,
    ensures
        s[p + i] == u[q + i],
{
    assert(s.subrange(p, p + n)[i] == s[p + i]);
    assert(u.subrange(q, q + n)[i] == u[q + i]);
}

/// Part of the same token is the same text.
proof fn lemma_same_token_part(
    s: Seq<char>,
    u: Seq<char>,
    p: int,
    q: int,
    n: int,
    from: int,
    to: int,
)
    requires
        0 <= p,
        0 <= q,
        p + n <= s.len(),
        q + n <= u.len(),
        s.subrange(p, p + n) == u.subrange(q, q + n),
        0 <= from <= to <= n,
    ensures
        s.subrange(p + from, p + to) == u.subrange(q + from, q + to),
{
    let a = s.subrange(p + from, p + to);
    let b = u.subrange(q + from, q + to);
    assert(a =~= b) by {
        assert forall|i: int| 0 <= i < to - from implies #[trigger] a[i] == b[i] by {
            lemma_same_token_chars(s, u, p, q, n, from + i);
        }
    }
}

/// A number that begins with a minus sign has a digit too.
proof fn lemma_signed_number_len(s: Seq<char>, pos: int)
    requires
        0 <= pos < s.len(),
        number_starts(s, pos),
        s[pos] == '-',
    ensures
        number_len(s, pos) >= 2,
{
    assert(digits_len(s, pos + 1) >= 1);
}

/// The rest of a text from a place on, moved on by `k`, is the rest from
/// the place that is `k` further on.
proof fn lemma_rests_move_on(s: Seq<char>, u: Seq<char>, p: int, q: int, k: int)
    requires
        0 <= p,
        0 <= q,
        0 <= k,
        p + k <= s.len(),
        q + k <= u.len(),
        s.skip(p) == u.skip(q),
    ensures
        s.skip(p + k) == u.skip(q + k),
        s.subrange(p, p + k) == u.subrange(q, q + k),
        k < s.len() - p ==> s[p + k] == u[q + k],
{
    assert(s.skip(p + k) =~= s.skip(p).skip(k));
    assert(u.skip(q + k) =~= u.skip(q).skip(k));
    assert(s.subrange(p, p + k) =~= s.skip(p).subrange(0, k));
    assert(u.subrange(q, q + k) =~= u.skip(q).subrange(0, k));
    if k < s.len() - p {
        assert(s[p + k] == s.skip(p)[k]);
        assert(u.skip(q).len() == u.len() - q);
        assert(u[q + k] == u.skip(q)[k]);
    }
}

/// The length of a token depends on nothing but the text from its first
/// character on.
proof fn lemma_token_len_of_rest(s: Seq<char>, u: Seq<char>, p: int, q: int)
    requires
        0 <= p <= s.len(),
        0 <= q <= u.len(),
        s.skip(p) == u.skip(q),
    ensures
        token_len(s, p) == token_len(u, q),
{
    assert(s.skip(p).len() == s.len() - p);
    assert(u.skip(q).len() == u.len() - q);
    if p < s.len() {
        lemma_rests_move_on(s, u, p, q, 0);
        lemma_rests_move_on(s, u, p, q, 1);
        lemma_string_len_of_suffix(s, u, p + 1, q + 1);
        lemma_word_rest_len_of_suffix(s, u, p + 1, q + 1);
        if p + 2 <= s.len() {
            lemma_rests_move_on(s, u, p, q, 2);
            lemma_word_rest_len_of_suffix(s, u, p + 2, q + 2);
            lemma_digits_len_of_suffix(s, u, p + 2, q + 2);
        }
        lemma_digits_len_of_suffix(s, u, p, q);
        lemma_digits_len_of_suffix(s, u, p + 1, q + 1);
        if number_starts(s, p) {
            let sign: int = if s[p] == '-' {
                1
            } else {
                0
            };
            lemma_digits_len_bound(s, p + sign);
            let whole = digits_len(s, p + sign);
            let k = sign + whole;
            lemma_rests_move_on(s, u, p, q, k);
            if p + k < s.len() {
                lemma_rests_move_on(s, u, p, q, k + 1);
                lemma_digits_len_of_suffix(s, u, p + k + 1, q + k + 1);
            }
        }
    }
}

/// The tokens that follow a place depend on nothing but the text from that
/// place on.
pub proof fn lemma_tokens_of_rest(s: Seq<char>, u: Seq<char>, p: int, q: int)
    requires
        0 <= p <= s.len(),
        0 <= q <= u.len(),
        s.skip(p) == u.skip(q),
    ensures
        tokens_from(s, p) == tokens_from(u, q),
    decreases remaining(s, p),
{
    assert(s.skip(p).len() == s.len() - p);
    assert(u.skip(q).len() == u.len() - q);
    lemma_skip_len_of_suffix(s, u, p, q);
    lemma_token_start_bound(s, p);
    lemma_token_start_bound(u, q);
    let gap = token_start(s, p) - p;
    lemma_rests_move_on(s, u, p, q, gap);
    let ps = p + gap;
    let qs = q + gap;
    if ps < s.len() {
        lemma_token_len_of_rest(s, u, ps, qs);
        lemma_token_len_bound(s, ps);
        let n = token_len(s, ps) as int;
        lemma_rests_move_on(s, u, ps, qs, n);
        lemma_tokens_of_rest(s, u, ps + n, qs + n);
    }
}

/// Whether reading `u` went as reading `s` did: both gave the same tree,
/// and ended at positions in step, or both failed for want of the same
/// thing.
pub open spec fn read_alike<T>(of_source: Parsed<T>, of_rest: Parsed<T>, s: Seq<char>, u: Seq<char>)
    -> bool {
    match of_source {
        Parsed::Done(tree, source_end) => of_rest matches Parsed::Done(rest_tree, end)
            && rest_tree == tree && in_step(s, u, source_end, end),
        Parsed::Failed(_, expected) => of_rest matches Parsed::Failed(_, rest_expected)
            && rest_expected == expected,
    }
}

/// The same character is the next token at two positions in step, and the
/// positions behind it are in step.
proof fn lemma_symbol_in_step(s: Seq<char>, u: Seq<char>, p: int, q: int, c: char)
    requires
        in_step(s, u, p, q),
    ensures
        symbol_at(u, q, c) == symbol_at(s, p, c),
        char_at(u, token_start(u, q)) == char_at(s, token_start(s, p)),
        in_step(s, u, token_start(s, p), token_start(u, q)),
        p <= token_start(s, p) <= s.len(),
        q <= token_start(u, q) <= u.len(),
        symbol_at(s, p, c) && is_punctuation(c) ==> in_step(
            s,
            u,
            after_symbol(s, p),
            after_symbol(u, q),
        ),
{
    lemma_first_tokens(s, u, p, q);
}

/// The same word is the next token at two positions in step, and the
/// positions behind it are in step.
proof fn lemma_word_at_in_step(s: Seq<char>, u: Seq<char>, p: int, q: int)
    requires
        in_step(s, u, p, q),
    ensures
        word_at(u, q) == word_at(s, p),
        keyword_at(u, q) == keyword_at(s, p),
        word_len(u, token_start(u, q)) == word_len(s, token_start(s, p)),
        in_step(s, u, token_start(s, p), token_start(u, q)),
        in_step(s, u, after_word(s, p), after_word(u, q)),
{
    lemma_first_tokens(s, u, p, q);
    let ps = token_start(s, p);
    let qs = token_start(u, q);
    if ps < s.len() && spec_is_letter(s[ps]) {
    } else {
        assert(s.subrange(ps, ps) =~= u.subrange(qs, qs));
    }
}

/// The positions behind an optional semicolon are in step.
proof fn lemma_semicolon_in_step(s: Seq<char>, u: Seq<char>, p: int, q: int)
    requires
        in_step(s, u, p, q),
    ensures
        in_step(s, u, after_semicolon(s, p), after_semicolon(u, q)),
{
    lemma_symbol_in_step(s, u, p, q, ';');
}

/// Two positions in step have a token before them, or both have none.
proof fn lemma_step_ends_together(s: Seq<char>, u: Seq<char>, p: int, q: int)
    requires
        in_step(s, u, p, q),
    ensures
        (token_start(s, p) >= s.len()) == (token_start(u, q) >= u.len()),
{
    lemma_first_tokens(s, u, p, q);
}

proof fn lemma_ident_in_step(s: Seq<char>, u: Seq<char>, p: int, q: int)
    requires
        in_step(s, u, p, q),
    ensures
        read_alike(spec_ident(s, p), spec_ident(u, q), s, u),
{
    lemma_word_at_in_step(s, u, p, q);
}

proof fn lemma_literal_in_step(s: Seq<char>, u: Seq<char>, p: int, q: int)
    requires
        in_step(s, u, p, q),
    ensures
        read_alike(spec_literal(s, p), spec_literal(u, q), s, u),
{
    lemma_first_tokens(s, u, p, q);
    let ps = token_start(s, p);
    let qs = token_start(u, q);
    if ps < s.len() {
        let n = token_len(s, ps) as int;
        if s[ps] == '@' {
            lemma_same_token_part(s, u, ps, qs, n, 1, n);
        } else if s[ps] == '"' {
            lemma_string_len_bound(s, ps + 1);
            lemma_string_len_bound(u, qs + 1);
            match (string_len(s, ps + 1), string_len(u, qs + 1)) {
                (Some(a), Some(b)) => {
                    lemma_same_token_part(s, u, ps, qs, n, 1, n - 1);
                },
                (Some(a), None) => {
                    lemma_same_token_part(s, u, ps, qs, n, 1, n);
                    lemma_string_len_local(s, u, ps + 1, qs + 1, a);
                },
                (None, Some(b)) => {
                    lemma_same_token_part(s, u, ps, qs, n, 1, n);
                    lemma_string_len_local(u, s, qs + 1, ps + 1, b);
                },
                (None, None) => {},
            }
        } else if spec_is_letter(s[ps]) {
        } else {
            if number_starts(s, ps) {
                lemma_number_len_bound(s, ps);
                if s[ps] == '-' {
                    lemma_signed_number_len(s, ps);
                }
            }
            if number_starts(u, qs) {
                lemma_number_len_bound(u, qs);
                if u[qs] == '-' {
                    lemma_signed_number_len(u, qs);
                }
            }
        }
    }
}

proof fn lemma_dot_ident_in_step(s: Seq<char>, u: Seq<char>, p: int, q: int)
    requires
        in_step(s, u, p, q),
    ensures
        read_alike(spec_dot_ident(s, p), spec_dot_ident(u, q), s, u),
    decreases remaining(s, p),
{
    lemma_symbol_in_step(s, u, p, q, '.');
    if symbol_at(s, p, '.') {
        lemma_ident_in_step(s, u, after_symbol(s, p), after_symbol(u, q));
        if let Parsed::Done(segment, source_end) = spec_ident(s, after_symbol(s, p)) {
            let end = spec_ident(u, after_symbol(u, q))->Done_1;
            lemma_ident_moves_on(s, after_symbol(s, p));
            lemma_dot_ident_in_step(s, u, source_end, end);
        }
    }
}

proof fn lemma_args_in_step(s: Seq<char>, u: Seq<char>, p: int, q: int)
    requires
        in_step(s, u, p, q),
    ensures
        read_alike(spec_args(s, p), spec_args(u, q), s, u),
    decreases remaining(s, p),
{
    lemma_symbol_in_step(s, u, p, q, ')');
    if !symbol_at(s, p, ')') {
        lemma_ident_in_step(s, u, p, q);
        if let Parsed::Done(parameter, source_end) = spec_ident(s, p) {
            let end = spec_ident(u, q)->Done_1;
            lemma_ident_moves_on(s, p);
            lemma_symbol_in_step(s, u, source_end, end, ',');
            lemma_symbol_in_step(s, u, source_end, end, ')');
            if symbol_at(s, source_end, ',') {
                lemma_args_in_step(s, u, after_symbol(s, source_end), after_symbol(u, end));
            }
        }
    }
}

proof fn lemma_group_in_step(s: Seq<char>, u: Seq<char>, p: int, q: int, depth: nat)
    requires
        in_step(s, u, p, q),
    ensures
        read_alike(spec_group(s, p, depth), spec_group(u, q, depth), s, u),
    decreases depth, 1nat, remaining(s, p),
{
    lemma_symbol_in_step(s, u, p, q, '(');
    if symbol_at(s, p, '(') && depth > 0 {
        let inner = (depth - 1) as nat;
        lemma_value_in_step(s, u, after_symbol(s, p), after_symbol(u, q), inner);
        if let Parsed::Done(value, source_end) = spec_value(s, after_symbol(s, p), inner) {
            let end = spec_value(u, after_symbol(u, q), inner)->Done_1;
            lemma_symbol_in_step(s, u, source_end, end, ')');
        }
    }
}

proof fn lemma_atom_in_step(s: Seq<char>, u: Seq<char>, p: int, q: int, depth: nat)
    requires
        in_step(s, u, p, q),
    ensures
        read_alike(spec_atom(s, p, depth), spec_atom(u, q, depth), s, u),
    decreases depth, 2nat, remaining(s, p),
{
    lemma_symbol_in_step(s, u, p, q, '(');
    let ps = token_start(s, p);
    if symbol_at(s, p, '(') {
        lemma_group_in_step(s, u, p, q, depth);
    } else if ps < s.len() && spec_is_letter(s[ps]) {
        lemma_ident_in_step(s, u, p, q);
    } else {
        lemma_literal_in_step(s, u, p, q);
    }
}

proof fn lemma_index_name_in_step(s: Seq<char>, u: Seq<char>, p: int, q: int, depth: nat)
    requires
        in_step(s, u, p, q),
    ensures
        read_alike(spec_index_name(s, p, depth), spec_index_name(u, q, depth), s, u),
    decreases depth, 3nat, remaining(s, p),
{
    lemma_symbol_in_step(s, u, p, q, '[');
    if symbol_at(s, p, '[') && depth > 0 {
        let inner = (depth - 1) as nat;
        lemma_value_in_step(s, u, after_symbol(s, p), after_symbol(u, q), inner);
        if let Parsed::Done(key, source_end) = spec_value(s, after_symbol(s, p), inner) {
            let end = spec_value(u, after_symbol(u, q), inner)->Done_1;
            lemma_symbol_in_step(s, u, source_end, end, ']');
            lemma_value_reads_well(s, after_symbol(s, p), inner);
            lemma_value_reads_well(u, after_symbol(u, q), inner);
            if symbol_at(s, source_end, ']') {
                lemma_index_name_in_step(
                    s,
                    u,
                    after_symbol(s, source_end),
                    after_symbol(u, end),
                    depth,
                );
            }
        }
    }
}

proof fn lemma_operand_in_step(s: Seq<char>, u: Seq<char>, p: int, q: int, depth: nat)
    requires
        in_step(s, u, p, q),
    ensures
        read_alike(spec_operand(s, p, depth), spec_operand(u, q, depth), s, u),
    decreases depth, 4nat, remaining(s, p),
{
    lemma_atom_in_step(s, u, p, q, depth);
    if let Parsed::Done(atom, source_end) = spec_atom(s, p, depth) {
        let end = spec_atom(u, q, depth)->Done_1;
        lemma_symbol_in_step(s, u, source_end, end, '.');
        lemma_symbol_in_step(s, u, source_end, end, '[');
        if symbol_at(s, source_end, '.') {
            lemma_dot_ident_in_step(s, u, source_end, end);
        } else if symbol_at(s, source_end, '[') {
            lemma_index_name_in_step(s, u, source_end, end, depth);
        }
    }
}

proof fn lemma_name_in_step(s: Seq<char>, u: Seq<char>, p: int, q: int, depth: nat)
    requires
        in_step(s, u, p, q),
    ensures
        read_alike(spec_name(s, p, depth), spec_name(u, q, depth), s, u),
    decreases depth, 5nat, remaining(s, p),
{
    lemma_operand_in_step(s, u, p, q, depth);
}

proof fn lemma_call_args_in_step(s: Seq<char>, u: Seq<char>, p: int, q: int, depth: nat)
    requires
        in_step(s, u, p, q),
    ensures
        read_alike(spec_call_args(s, p, depth), spec_call_args(u, q, depth), s, u),
    decreases depth, 5nat, remaining(s, p),
{
    lemma_symbol_in_step(s, u, p, q, ')');
    if !symbol_at(s, p, ')') && depth > 0 {
        let inner = (depth - 1) as nat;
        lemma_value_in_step(s, u, p, q, inner);
        if let Parsed::Done(argument, source_end) = spec_value(s, p, inner) {
            let end = spec_value(u, q, inner)->Done_1;
            lemma_symbol_in_step(s, u, source_end, end, ',');
            lemma_symbol_in_step(s, u, source_end, end, ')');
            lemma_value_reads_well(s, p, inner);
            lemma_value_reads_well(u, q, inner);
            if symbol_at(s, source_end, ',') {
                lemma_call_args_in_step(
                    s,
                    u,
                    after_symbol(s, source_end),
                    after_symbol(u, end),
                    depth,
                );
            }
        }
    }
}

proof fn lemma_calls_in_step(
    s: Seq<char>,
    u: Seq<char>,
    callee: ValueView,
    p: int,
    q: int,
    depth: nat,
)
    requires
        in_step(s, u, p, q),
    ensures
        read_alike(spec_calls(s, callee, p, depth), spec_calls(u, callee, q, depth), s, u),
    decreases depth, 6nat, remaining(s, p),
{
    lemma_symbol_in_step(s, u, p, q, '(');
    if symbol_at(s, p, '(') {
        lemma_call_args_in_step(s, u, after_symbol(s, p), after_symbol(u, q), depth);
        if let Parsed::Done(arguments, source_end) = spec_call_args(s, after_symbol(s, p), depth) {
            let end = spec_call_args(u, after_symbol(u, q), depth)->Done_1;
            lemma_call_args_reads_well(s, after_symbol(s, p), depth);
            lemma_call_args_reads_well(u, after_symbol(u, q), depth);
            lemma_calls_in_step(
                s,
                u,
                ValueView::FnCall(Box::new(callee), arguments),
                source_end,
                end,
                depth,
            );
        }
    }
}

proof fn lemma_fncall_in_step(
    s: Seq<char>,
    u: Seq<char>,
    operand: OperandView,
    p: int,
    q: int,
    depth: nat,
)
    requires
        in_step(s, u, p, q),
    ensures
        read_alike(spec_fncall(s, operand, p, depth), spec_fncall(u, operand, q, depth), s, u),
    decreases depth, 7nat, remaining(s, p),
{
    if !(operand is Literal) {
        lemma_calls_in_step(s, u, operand.value(), p, q, depth);
    }
}

proof fn lemma_suite_in_step(s: Seq<char>, u: Seq<char>, p: int, q: int, depth: nat)
    requires
        in_step(s, u, p, q),
    ensures
        read_alike(spec_suite(s, p, depth), spec_suite(u, q, depth), s, u),
    decreases depth, 6nat, remaining(s, p),
{
    lemma_symbol_in_step(s, u, p, q, '{');
    if symbol_at(s, p, '{') && depth > 0 {
        let inner = (depth - 1) as nat;
        lemma_exprs_in_step(s, u, after_symbol(s, p), after_symbol(u, q), inner);
        if let Parsed::Done(body, source_end) = spec_exprs(s, after_symbol(s, p), inner) {
            let end = spec_exprs(u, after_symbol(u, q), inner)->Done_1;
            lemma_symbol_in_step(s, u, source_end, end, '}');
        }
    }
}

proof fn lemma_function_in_step(s: Seq<char>, u: Seq<char>, p: int, q: int, depth: nat)
    requires
        in_step(s, u, p, q),
    ensures
        read_alike(spec_function(s, p, depth), spec_function(u, q, depth), s, u),
    decreases depth, 7nat, remaining(s, p),
{
    lemma_symbol_in_step(s, u, p, q, '(');
    if symbol_at(s, p, '(') {
        lemma_args_in_step(s, u, after_symbol(s, p), after_symbol(u, q));
        if let Parsed::Done(params, source_end) = spec_args(s, after_symbol(s, p)) {
            let end = spec_args(u, after_symbol(u, q))->Done_1;
            lemma_suite_in_step(s, u, source_end, end, depth);
        }
    }
}

proof fn lemma_value_in_step(s: Seq<char>, u: Seq<char>, p: int, q: int, depth: nat)
    requires
        in_step(s, u, p, q),
    ensures
        read_alike(spec_value(s, p, depth), spec_value(u, q, depth), s, u),
    decreases depth, 8nat, remaining(s, p),
{
    lemma_word_at_in_step(s, u, p, q);
    if keyword_at(s, p) == Some(Keyword::Fn) {
        lemma_function_in_step(s, u, after_word(s, p), after_word(u, q), depth);
    } else {
        lemma_operand_in_step(s, u, p, q, depth);
        if let Parsed::Done(operand, source_end) = spec_operand(s, p, depth) {
            let end = spec_operand(u, q, depth)->Done_1;
            lemma_fncall_in_step(s, u, operand, source_end, end, depth);
        }
    }
}

proof fn lemma_function_def_in_step(s: Seq<char>, u: Seq<char>, p: int, q: int, depth: nat)
    requires
        in_step(s, u, p, q),
    ensures
        read_alike(spec_function_def(s, p, depth), spec_function_def(u, q, depth), s, u),
    decreases depth, 9nat, remaining(s, p),
{
    lemma_name_in_step(s, u, p, q, depth);
    if let Parsed::Done(name, source_end) = spec_name(s, p, depth) {
        let end = spec_name(u, q, depth)->Done_1;
        lemma_function_in_step(s, u, source_end, end, depth);
    }
}

proof fn lemma_methods_in_step(s: Seq<char>, u: Seq<char>, p: int, q: int, depth: nat)
    requires
        in_step(s, u, p, q),
    ensures
        read_alike(spec_methods(s, p, depth), spec_methods(u, q, depth), s, u),
    decreases depth, 10nat, remaining(s, p),
{
    lemma_word_at_in_step(s, u, p, q);
    if keyword_at(s, p) == Some(Keyword::Fn) {
        lemma_function_def_in_step(s, u, after_word(s, p), after_word(u, q), depth);
        if let Parsed::Done(method, source_end) = spec_function_def(s, after_word(s, p), depth) {
            let end = spec_function_def(u, after_word(u, q), depth)->Done_1;
            lemma_word_within(s, p);
            lemma_word_within(u, q);
            lemma_function_def_reads_well(s, after_word(s, p), depth);
            lemma_function_def_reads_well(u, after_word(u, q), depth);
            lemma_methods_in_step(s, u, source_end, end, depth);
        }
    }
}

proof fn lemma_struct_def_in_step(s: Seq<char>, u: Seq<char>, p: int, q: int, depth: nat)
    requires
        in_step(s, u, p, q),
    ensures
        read_alike(spec_struct_def(s, p, depth), spec_struct_def(u, q, depth), s, u),
    decreases depth, 11nat, remaining(s, p),
{
    lemma_name_in_step(s, u, p, q, depth);
    if let Parsed::Done(name, source_end) = spec_name(s, p, depth) {
        let end = spec_name(u, q, depth)->Done_1;
        lemma_symbol_in_step(s, u, source_end, end, '{');
        if symbol_at(s, source_end, '{') && depth > 0 {
            let inner = (depth - 1) as nat;
            lemma_methods_in_step(
                s,
                u,
                after_symbol(s, source_end),
                after_symbol(u, end),
                inner,
            );
            if let Parsed::Done(methods, source_body) = spec_methods(
                s,
                after_symbol(s, source_end),
                inner,
            ) {
                let body = spec_methods(u, after_symbol(u, end), inner)->Done_1;
                lemma_symbol_in_step(s, u, source_body, body, '}');
            }
        }
    }
}

proof fn lemma_while_loop_in_step(s: Seq<char>, u: Seq<char>, p: int, q: int, depth: nat)
    requires
        in_step(s, u, p, q),
    ensures
        read_alike(spec_while_loop(s, p, depth), spec_while_loop(u, q, depth), s, u),
    decreases depth, 11nat, remaining(s, p),
{
    lemma_value_in_step(s, u, p, q, depth);
    if let Parsed::Done(condition, source_end) = spec_value(s, p, depth) {
        let end = spec_value(u, q, depth)->Done_1;
        lemma_suite_in_step(s, u, source_end, end, depth);
    }
}

proof fn lemma_for_loop_in_step(s: Seq<char>, u: Seq<char>, p: int, q: int, depth: nat)
    requires
        in_step(s, u, p, q),
    ensures
        read_alike(spec_for_loop(s, p, depth), spec_for_loop(u, q, depth), s, u),
    decreases depth, 11nat, remaining(s, p),
{
    lemma_ident_in_step(s, u, p, q);
    if let Parsed::Done(counter, source_counter) = spec_ident(s, p) {
        let counter_end = spec_ident(u, q)->Done_1;
        lemma_symbol_in_step(s, u, source_counter, counter_end, ',');
        if symbol_at(s, source_counter, ',') {
            lemma_ident_in_step(
                s,
                u,
                after_symbol(s, source_counter),
                after_symbol(u, counter_end),
            );
            if let Parsed::Done(element, source_element) = spec_ident(
                s,
                after_symbol(s, source_counter),
            ) {
                let element_end = spec_ident(u, after_symbol(u, counter_end))->Done_1;
                lemma_word_at_in_step(s, u, source_element, element_end);
                if keyword_at(s, source_element) == Some(Keyword::In) {
                    lemma_value_in_step(
                        s,
                        u,
                        after_word(s, source_element),
                        after_word(u, element_end),
                        depth,
                    );
                    if let Parsed::Done(list, source_list) = spec_value(
                        s,
                        after_word(s, source_element),
                        depth,
                    ) {
                        let list_end = spec_value(u, after_word(u, element_end), depth)->Done_1;
                        lemma_suite_in_step(s, u, source_list, list_end, depth);
                    }
                }
            }
        }
    }
}

proof fn lemma_if_then_else_in_step(s: Seq<char>, u: Seq<char>, p: int, q: int, depth: nat)
    requires
        in_step(s, u, p, q),
    ensures
        read_alike(spec_if_then_else(s, p, depth), spec_if_then_else(u, q, depth), s, u),
    decreases depth, 11nat, remaining(s, p),
{
    lemma_value_in_step(s, u, p, q, depth);
    if let Parsed::Done(condition, source_condition) = spec_value(s, p, depth) {
        let condition_end = spec_value(u, q, depth)->Done_1;
        lemma_suite_in_step(s, u, source_condition, condition_end, depth);
        if let Parsed::Done(then_body, source_then) = spec_suite(s, source_condition, depth) {
            let then_end = spec_suite(u, condition_end, depth)->Done_1;
            lemma_word_at_in_step(s, u, source_then, then_end);
            if keyword_at(s, source_then) == Some(Keyword::Else) {
                lemma_suite_in_step(
                    s,
                    u,
                    after_word(s, source_then),
                    after_word(u, then_end),
                    depth,
                );
            }
        }
    }
}

proof fn lemma_assignment_in_step(
    s: Seq<char>,
    u: Seq<char>,
    name: NameView,
    p: int,
    q: int,
    depth: nat,
)
    requires
        in_step(s, u, p, q),
    ensures
        read_alike(spec_assignment(s, name, p, depth), spec_assignment(u, name, q, depth), s, u),
    decreases depth, 11nat, remaining(s, p),
{
    lemma_value_in_step(s, u, p, q, depth);
    if let Parsed::Done(value, source_end) = spec_value(s, p, depth) {
        let end = spec_value(u, q, depth)->Done_1;
        lemma_semicolon_in_step(s, u, source_end, end);
    }
}

proof fn lemma_expr_in_step(s: Seq<char>, u: Seq<char>, p: int, q: int, depth: nat)
    requires
        in_step(s, u, p, q),
    ensures
        read_alike(spec_expr(s, p, depth), spec_expr(u, q, depth), s, u),
    decreases depth, 12nat, remaining(s, p),
{
    lemma_word_at_in_step(s, u, p, q);
    let word = keyword_at(s, p);
    let behind = after_word(s, p);
    let rest_behind = after_word(u, q);
    lemma_symbol_in_step(s, u, behind, rest_behind, '(');
    if word == Some(Keyword::Class) {
        lemma_struct_def_in_step(s, u, behind, rest_behind, depth);
    } else if word == Some(Keyword::Fn) && !symbol_at(s, behind, '(') {
        lemma_function_def_in_step(s, u, behind, rest_behind, depth);
    } else if word == Some(Keyword::While) {
        lemma_while_loop_in_step(s, u, behind, rest_behind, depth);
    } else if word == Some(Keyword::For) {
        lemma_for_loop_in_step(s, u, behind, rest_behind, depth);
    } else if word == Some(Keyword::If) {
        lemma_if_then_else_in_step(s, u, behind, rest_behind, depth);
    } else if word == Some(Keyword::Fn) {
        lemma_value_in_step(s, u, p, q, depth);
        if let Parsed::Done(value, source_end) = spec_value(s, p, depth) {
            let end = spec_value(u, q, depth)->Done_1;
            lemma_semicolon_in_step(s, u, source_end, end);
        }
    } else {
        lemma_operand_in_step(s, u, p, q, depth);
        if let Parsed::Done(operand, source_end) = spec_operand(s, p, depth) {
            let end = spec_operand(u, q, depth)->Done_1;
            lemma_symbol_in_step(s, u, source_end, end, '=');
            if operand is Name && symbol_at(s, source_end, '=') {
                lemma_assignment_in_step(
                    s,
                    u,
                    operand->Name_0,
                    after_symbol(s, source_end),
                    after_symbol(u, end),
                    depth,
                );
            } else {
                lemma_fncall_in_step(s, u, operand, source_end, end, depth);
                if let Parsed::Done(value, source_value) = spec_fncall(
                    s,
                    operand,
                    source_end,
                    depth,
                ) {
                    let value_end = spec_fncall(u, operand, end, depth)->Done_1;
                    lemma_semicolon_in_step(s, u, source_value, value_end);
                }
            }
        }
    }
}

proof fn lemma_exprs_in_step(s: Seq<char>, u: Seq<char>, p: int, q: int, depth: nat)
    requires
        in_step(s, u, p, q),
    ensures
        read_alike(spec_exprs(s, p, depth), spec_exprs(u, q, depth), s, u),
    decreases depth, 13nat, remaining(s, p),
{
    lemma_symbol_in_step(s, u, p, q, '}');
    lemma_step_ends_together(s, u, p, q);
    if !statements_end(s, p) {
        lemma_expr_in_step(s, u, p, q, depth);
        if let Parsed::Done(statement, source_end) = spec_expr(s, p, depth) {
            let end = spec_expr(u, q, depth)->Done_1;
            lemma_expr_reads_well(s, p, depth);
            lemma_expr_reads_well(u, q, depth);
            lemma_exprs_in_step(s, u, source_end, end, depth);
        }
    }
}


/// Whether two readings of programs went alike: both gave the same tree, or
/// both failed for want of the same thing.
pub open spec fn same_program<T>(first: Parsed<T>, second: Parsed<T>) -> bool {
    match first {
        Parsed::Done(tree, _) => second matches Parsed::Done(other, _) && other == tree,
        Parsed::Failed(_, expected) => second matches Parsed::Failed(_, other) && other
            == expected,
    }
}

/// Two sources with the same tokens read alike, whatever blank space and
/// whatever comments stand between the tokens: both read as the same tree,
/// or neither can be read, for want of the same thing.
pub proof fn lemma_same_tokens_read_alike(first: Seq<char>, second: Seq<char>, depth: nat)
    requires
        tokens(first) == tokens(second),
    ensures
        same_program(spec_program(first, depth), spec_program(second, depth)),
{
    lemma_exprs_in_step(first, second, 0, 0, depth);
    if let Parsed::Done(statements, end) = spec_exprs(first, 0, depth) {
        let other = spec_exprs(second, 0, depth)->Done_1;
        lemma_step_ends_together(first, second, end, other);
    }
}

/// Two sources with the same tokens compile alike in every profile: to the
/// same text, or to the same error of the compiler, or neither can be read.
pub proof fn lemma_same_tokens_compile_alike<T: Target>(
    first: Seq<char>,
    second: Seq<char>,
    depth: nat,
)
    requires
        tokens(first) == tokens(second),
    ensures
        compile_outcome::<T>(first, depth) is Ok == compile_outcome::<T>(second, depth) is Ok,
        spec_program(first, depth) is Done ==> compile_outcome::<T>(first, depth)
            == compile_outcome::<T>(second, depth),
{
    lemma_same_tokens_read_alike(first, second, depth);
}

/// The texts of the strings of `texts`.
pub open spec fn texts_view(texts: Seq<String>) -> Seq<Seq<char>> {
    Seq::new(texts.len(), |i: int| texts[i]@)
}

/// The end of the token that starts at `pos`.
pub fn token_end(source: &[char], pos: usize) -> (end: usize)
    requires
        pos < source.len(),
    ensures
        end == pos + token_len(source@, pos as int),
        pos < end <= source.len(),
{
    proof {
        lemma_token_len_bound(source@, pos as int);
    }
    let c = source[pos];
    if c == '"' {
        match string_end(source, pos + 1) {
            Some(quote) => quote + 1,
            None => source.len(),
        }
    } else if is_letter(c) {
        word_end(source, pos)
    } else if starts_number(source, pos) {
        number_end(source, pos)
    } else if c == '@' {
        word_end(source, pos + 1)
    } else {
        pos + 1
    }
}

/// Splits a source into its tokens, leaving out the blank space and the
/// comments between them.
pub fn tokenize(source: &[char]) -> (list: Vec<String>)
    ensures
        texts_view(list@) == tokens(source@),
{
    let mut list: Vec<String> = Vec::new();
    let mut at: usize = 0;
    loop
        invariant
            at <= source.len(),
            tokens(source@) == texts_view(list@) + tokens_from(source@, at as int),
        decreases source.len() - at,
    {
        let start = skip(source, at);
        if start >= source.len() {
            assert(texts_view(list@) + Seq::<Seq<char>>::empty() =~= texts_view(list@));
            return list;
        }
        let end = token_end(source, start);
        let token = text(source, start, end);
        let ghost before = texts_view(list@);
        list.push(token);
        assert(texts_view(list@) =~= before.push(token@));
        assert(before + (seq![token@] + tokens_from(source@, end as int)) =~= before.push(token@)
            + tokens_from(source@, end as int));
        at = end;
    }
}

} // verus!
