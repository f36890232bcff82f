//! Comments are transparent: a program reads as the same tree with its
//! comments and without them, and a source that cannot be read cannot be
//! read without its comments either.
//!
//! Taking the comments out of a source leaves the line feeds that end them
//! in place and keeps every string whole, two slashes inside it included.
//! What is left has the tokens of the source, and sources with the same
//! tokens read alike. Two sources that leave the same text read alike; a
//! comment added at the end of a line, outside every string, leaves the
//! same text.

use vstd::prelude::*;
use crate::compile::compile_outcome;
use crate::grammar::spec_program;
use crate::lexer::{
    char_at, comment, comment_starts, digits_len, fraction_len, lemma_digits_len_bound,
    lemma_line_len_bound, lemma_line_len_is, lemma_line_len_of_suffix, lemma_string_len_bound,
    lemma_string_len_local, lemma_string_len_of_suffix, lemma_token_start_bound,
    lemma_word_rest_len_bound, line_len, number_len, number_starts, remaining, spec_is_digit,
    spec_is_letter, spec_is_space, spec_is_word_char, string_end, string_len, token_start, word_len,
    word_rest_len,
};
use crate::target::Target;
use crate::tokens::{
    lemma_same_tokens_read_alike, lemma_token_len_bound, lemma_tokens_of_rest, same_program, tokens,
    tokens_from,
};

verus! {

/// The source from `pos` on without its comments. A comment goes up to the
/// line feed that ends it, which stays. A string is kept whole.
pub open spec fn uncommented_from(s: Seq<char>, pos: int) -> Seq<char>
    decreases remaining(s, pos),
{
    if pos < 0 || pos >= s.len() {
        Seq::empty()
    } else if comment_starts(s, pos) {
        uncommented_from(s, pos + 2 + line_len(s, pos + 2))
    } else if s[pos] == '"' {
        match string_len(s, pos + 1) {
            Some(n) => s.subrange(pos, pos + n + 2) + uncommented_from(s, pos + n + 2),
            None => s.subrange(pos, s.len() as int),
        }
    } else {
        seq![s[pos]] + uncommented_from(s, pos + 1)
    }
}

/// The source without its comments.
pub open spec fn uncommented(s: Seq<char>) -> Seq<char> {
    uncommented_from(s, 0)
}

/// Whether the position `p` in `s` and the position `q` in `u` are in step:
/// what follows `q` in `u` is what follows `p` in `s`, without its comments.
pub open spec fn in_step(s: Seq<char>, u: Seq<char>, p: int, q: int) -> bool {
    &&& 0 <= p <= s.len()
    &&& 0 <= q <= u.len()
    &&& u.skip(q) == uncommented_from(s, p)
}

/// The character that is seen at `pos` once comments are taken out: the
/// character behind a comment that starts there, the one at `pos` otherwise.
pub open spec fn visible_char(s: Seq<char>, pos: int) -> Option<char> {
    if comment_starts(s, pos) {
        char_at(s, pos + 2 + line_len(s, pos + 2))
    } else {
        char_at(s, pos)
    }
}

/// A line ends at a line feed or at the end of the source.
proof fn lemma_line_ends_at_feed(s: Seq<char>, pos: int)
    requires
        0 <= pos <= s.len(),
    ensures
        char_at(s, pos + line_len(s, pos)) == Some('\n') || pos + line_len(s, pos) == s.len(),
    decreases remaining(s, pos),
{
    if pos < s.len() && s[pos] != '\n' {
        lemma_line_ends_at_feed(s, pos + 1);
    }
}

/// At the end of the source, the two positions are the two ends.
proof fn lemma_step_at_end(s: Seq<char>, u: Seq<char>, p: int, q: int)
    requires
        in_step(s, u, p, q),
        p == s.len(),
    ensures
        q == u.len(),
{
    assert(u.skip(q).len() == 0);
}

/// Behind a comment, the position in the source is in step with the same
/// position in what is left.
proof fn lemma_step_over_comment(s: Seq<char>, u: Seq<char>, p: int, q: int)
    requires
        in_step(s, u, p, q),
        comment_starts(s, p),
    ensures
        in_step(s, u, p + 2 + line_len(s, p + 2), q),
{
    lemma_line_len_bound(s, p + 2);
}

/// A character that starts neither a comment nor a string is kept, and the
/// positions behind it are in step.
proof fn lemma_step_over_char(s: Seq<char>, u: Seq<char>, p: int, q: int)
    requires
        in_step(s, u, p, q),
        p < s.len(),
        !comment_starts(s, p),
        s[p] != '"',
    ensures
        q < u.len(),
        u[q] == s[p],
        in_step(s, u, p + 1, q + 1),
{
    let rest = uncommented_from(s, p + 1);
    assert(u.skip(q) == seq![s[p]] + rest);
    assert(u.skip(q).len() > 0);
    assert(u.skip(q)[0] == s[p]);
    assert(u.skip(q + 1) =~= u.skip(q).skip(1));
    assert((seq![s[p]] + rest).skip(1) =~= rest);
}

/// A string is kept whole, and the positions behind it are in step.
proof fn lemma_step_over_string(s: Seq<char>, u: Seq<char>, p: int, q: int, n: nat)
    requires
        in_step(s, u, p, q),
        p < s.len(),
        s[p] == '"',
        string_len(s, p + 1) == Some(n),
    ensures
        q + n + 2 <= u.len(),
        u.subrange(q, q + n + 2) == s.subrange(p, p + n + 2),
        in_step(s, u, p + n + 2, q + n + 2),
{
    lemma_string_len_bound(s, p + 1);
    let kept = s.subrange(p, p + n + 2);
    let rest = uncommented_from(s, p + n + 2);
    assert(u.skip(q) == kept + rest);
    assert(u.skip(q).len() >= n + 2);
    assert(u.subrange(q, q + n + 2) =~= u.skip(q).subrange(0, n as int + 2));
    assert((kept + rest).subrange(0, n as int + 2) =~= kept);
    assert(u.skip(q + n + 2) =~= u.skip(q).skip(n as int + 2));
    assert((kept + rest).skip(n as int + 2) =~= rest);
}

/// What is seen at a position in the source is what stands at the position
/// in step with it.
proof fn lemma_visible_char(s: Seq<char>, u: Seq<char>, p: int, q: int)
    requires
        in_step(s, u, p, q),
    ensures
        char_at(u, q) == visible_char(s, p),
{
    if p == s.len() {
        lemma_step_at_end(s, u, p, q);
    } else if comment_starts(s, p) {
        let behind = p + 2 + line_len(s, p + 2);
        lemma_step_over_comment(s, u, p, q);
        lemma_line_ends_at_feed(s, p + 2);
        if behind == s.len() {
            lemma_step_at_end(s, u, behind, q);
        } else {
            assert(s[behind] == '\n');
            assert(!comment_starts(s, behind));
            lemma_step_over_char(s, u, behind, q);
        }
    } else if s[p] == '"' {
        assert(u.skip(q).len() > 0 && u.skip(q)[0] == '"') by {
            match string_len(s, p + 1) {
                Some(n) => {
                    lemma_string_len_bound(s, p + 1);
                    assert(s.subrange(p, p + n + 2)[0] == '"');
                },
                None => {
                    assert(s.subrange(p, s.len() as int)[0] == '"');
                },
            }
        }
        assert(u.skip(q)[0] == u[q]);
    } else {
        lemma_step_over_char(s, u, p, q);
    }
}

/// Where no comment starts, the character in the source is the character at
/// the position in step with it.
proof fn lemma_same_char(s: Seq<char>, u: Seq<char>, p: int, q: int)
    requires
        in_step(s, u, p, q),
        !comment_starts(s, p),
    ensures
        char_at(u, q) == char_at(s, p),
{
    lemma_visible_char(s, u, p, q);
}

/// What is seen in place of a comment is a line feed or the end.
proof fn lemma_visible_behind_comment(s: Seq<char>, p: int)
    requires
        0 <= p <= s.len(),
        comment_starts(s, p),
    ensures
        visible_char(s, p) == Some('\n') || visible_char(s, p) is None,
{
    lemma_line_ends_at_feed(s, p + 2);
    lemma_line_len_bound(s, p + 2);
}

/// No comment starts where the source, without its comments, goes on from a
/// character that is not a slash, or from a single slash.
proof fn lemma_no_comment_in_step(s: Seq<char>, u: Seq<char>, p: int, q: int)
    requires
        in_step(s, u, p, q),
        !comment_starts(s, p),
    ensures
        !comment_starts(u, q),
{
    lemma_same_char(s, u, p, q);
    if p < s.len() && s[p] == '/' {
        lemma_step_over_char(s, u, p, q);
        lemma_visible_char(s, u, p + 1, q + 1);
        if comment_starts(s, p + 1) {
            lemma_visible_behind_comment(s, p + 1);
        }
    }
}

/// The tokens that follow two positions in step start at positions in step,
/// with the same character.
pub proof fn lemma_token_starts_in_step(s: Seq<char>, u: Seq<char>, p: int, q: int)
    requires
        in_step(s, u, p, q),
    ensures
        in_step(s, u, token_start(s, p), token_start(u, q)),
        char_at(u, token_start(u, q)) == char_at(s, token_start(s, p)),
        !comment_starts(s, token_start(s, p)),
    decreases remaining(s, p),
{
    if p == s.len() {
        lemma_step_at_end(s, u, p, q);
    } else if spec_is_space(s[p]) {
        lemma_step_over_char(s, u, p, q);
        lemma_token_starts_in_step(s, u, p + 1, q + 1);
    } else if comment_starts(s, p) {
        lemma_step_over_comment(s, u, p, q);
        lemma_token_starts_in_step(s, u, p + 2 + line_len(s, p + 2), q);
    } else {
        lemma_same_char(s, u, p, q);
        lemma_no_comment_in_step(s, u, p, q);
    }
}

/// Word characters are read in step.
proof fn lemma_word_rest_in_step(s: Seq<char>, u: Seq<char>, p: int, q: int)
    requires
        in_step(s, u, p, q),
    ensures
        word_rest_len(u, q) == word_rest_len(s, p),
        u.subrange(q, q + word_rest_len(s, p)) == s.subrange(p, p + word_rest_len(s, p)),
        in_step(s, u, p + word_rest_len(s, p), q + word_rest_len(s, p)),
    decreases remaining(s, p),
{
    lemma_visible_char(s, u, p, q);
    if p < s.len() && spec_is_word_char(s[p]) {
        lemma_step_over_char(s, u, p, q);
        lemma_word_rest_in_step(s, u, p + 1, q + 1);
        let n = word_rest_len(s, p + 1);
        lemma_word_rest_len_bound(s, p + 1);
        assert(u.subrange(q, q + 1 + n) =~= seq![u[q]] + u.subrange(q + 1, q + 1 + n));
        assert(s.subrange(p, p + 1 + n) =~= seq![s[p]] + s.subrange(p + 1, p + 1 + n));
    } else {
        if comment_starts(s, p) {
            lemma_visible_behind_comment(s, p);
        }
        assert(u.subrange(q, q) =~= s.subrange(p, p));
    }
}

/// A word is read in step.
pub proof fn lemma_word_in_step(s: Seq<char>, u: Seq<char>, p: int, q: int)
    requires
        in_step(s, u, p, q),
        !comment_starts(s, p),
    ensures
        word_len(u, q) == word_len(s, p),
        u.subrange(q, q + word_len(s, p)) == s.subrange(p, p + word_len(s, p)),
        in_step(s, u, p + word_len(s, p), q + word_len(s, p)),
{
    lemma_same_char(s, u, p, q);
    if p < s.len() && spec_is_letter(s[p]) {
        lemma_step_over_char(s, u, p, q);
        lemma_word_rest_in_step(s, u, p + 1, q + 1);
        let n = word_rest_len(s, p + 1);
        lemma_word_rest_len_bound(s, p + 1);
        assert(u.subrange(q, q + 1 + n) =~= seq![u[q]] + u.subrange(q + 1, q + 1 + n));
        assert(s.subrange(p, p + 1 + n) =~= seq![s[p]] + s.subrange(p + 1, p + 1 + n));
    } else {
        assert(u.subrange(q, q) =~= s.subrange(p, p));
    }
}

/// Digits are read in step.
proof fn lemma_digits_in_step(s: Seq<char>, u: Seq<char>, p: int, q: int)
    requires
        in_step(s, u, p, q),
    ensures
        digits_len(u, q) == digits_len(s, p),
        u.subrange(q, q + digits_len(s, p)) == s.subrange(p, p + digits_len(s, p)),
        in_step(s, u, p + digits_len(s, p), q + digits_len(s, p)),
    decreases remaining(s, p),
{
    lemma_visible_char(s, u, p, q);
    if p < s.len() && spec_is_digit(s[p]) {
        lemma_step_over_char(s, u, p, q);
        lemma_digits_in_step(s, u, p + 1, q + 1);
        let n = digits_len(s, p + 1);
        lemma_digits_len_bound(s, p + 1);
        assert(u.subrange(q, q + 1 + n) =~= seq![u[q]] + u.subrange(q + 1, q + 1 + n));
        assert(s.subrange(p, p + 1 + n) =~= seq![s[p]] + s.subrange(p + 1, p + 1 + n));
    } else {
        if comment_starts(s, p) {
            lemma_visible_behind_comment(s, p);
        }
        assert(u.subrange(q, q) =~= s.subrange(p, p));
    }
}

/// Whether a number starts is the same at two positions in step.
pub proof fn lemma_number_starts_in_step(s: Seq<char>, u: Seq<char>, p: int, q: int)
    requires
        in_step(s, u, p, q),
        !comment_starts(s, p),
    ensures
        number_starts(u, q) == number_starts(s, p),
{
    lemma_same_char(s, u, p, q);
    if p < s.len() && s[p] == '-' {
        lemma_step_over_char(s, u, p, q);
        lemma_visible_char(s, u, p + 1, q + 1);
        if comment_starts(s, p + 1) {
            lemma_visible_behind_comment(s, p + 1);
        }
    }
}

/// A number is read in step.
pub proof fn lemma_number_in_step(s: Seq<char>, u: Seq<char>, p: int, q: int)
    requires
        in_step(s, u, p, q),
        !comment_starts(s, p),
        number_starts(s, p),
    ensures
        number_len(u, q) == number_len(s, p),
        u.subrange(q, q + number_len(s, p)) == s.subrange(p, p + number_len(s, p)),
        in_step(s, u, p + number_len(s, p), q + number_len(s, p)),
{
    lemma_same_char(s, u, p, q);
    let sign: int = if s[p] == '-' {
        1
    } else {
        0
    };
    if sign == 1 {
        lemma_step_over_char(s, u, p, q);
    }
    lemma_digits_in_step(s, u, p + sign, q + sign);
    let whole = digits_len(s, p + sign);
    lemma_digits_len_bound(s, p + sign);
    let ps = p + sign + whole;
    let qs = q + sign + whole;
    lemma_visible_char(s, u, ps, qs);
    if comment_starts(s, ps) {
        lemma_visible_behind_comment(s, ps);
    }
    let mut fraction: int = 0;
    if ps < s.len() && s[ps] == '.' {
        lemma_step_over_char(s, u, ps, qs);
        lemma_digits_in_step(s, u, ps + 1, qs + 1);
        lemma_digits_len_bound(s, ps + 1);
        if digits_len(s, ps + 1) > 0 {
            fraction = 1 + digits_len(s, ps + 1) as int;
        }
    }
    assert(fraction == fraction_len(s, ps));
    assert(fraction == fraction_len(u, qs));
    let n = number_len(s, p);
    assert(n == sign + whole + fraction);
    assert(u.subrange(q, q + n) =~= s.subrange(p, p + n)) by {
        let a = u.subrange(q, q + n);
        let b = s.subrange(p, p + n);
        assert forall|i: int| 0 <= i < n implies #[trigger] a[i] == b[i] by {
            if i < sign {
            } else if i < sign + whole {
                assert(u.subrange(q + sign, q + sign + whole)[i - sign] == s.subrange(
                    p + sign,
                    p + sign + whole,
                )[i - sign]);
            } else if i == sign + whole {
            } else {
                let d = digits_len(s, ps + 1);
                assert(u.subrange(qs + 1, qs + 1 + d)[i - sign - whole - 1] == s.subrange(
                    ps + 1,
                    ps + 1 + d,
                )[i - sign - whole - 1]);
            }
        }
    }
}

/// A string is read in step.
pub proof fn lemma_string_in_step(s: Seq<char>, u: Seq<char>, p: int, q: int, n: nat)
    requires
        in_step(s, u, p, q),
        p < s.len(),
        s[p] == '"',
        string_len(s, p + 1) == Some(n),
    ensures
        string_len(u, q + 1) == Some(n),
        u.subrange(q + 1, q + 1 + n) == s.subrange(p + 1, p + 1 + n),
        in_step(s, u, p + n + 2, q + n + 2),
{
    lemma_step_over_string(s, u, p, q, n);
    lemma_string_len_bound(s, p + 1);
    assert(u.subrange(q + 1, q + n + 2) =~= s.subrange(p + 1, p + n + 2)) by {
        let a = u.subrange(q + 1, q + n + 2);
        let b = s.subrange(p + 1, p + n + 2);
        assert forall|i: int| 0 <= i < n + 1 implies #[trigger] a[i] == b[i] by {
            assert(u.subrange(q, q + n + 2)[1 + i] == s.subrange(p, p + n + 2)[1 + i]);
        }
    }
    lemma_string_len_local(s, u, p + 1, q + 1, n);
    assert(u.subrange(q + 1, q + 1 + n) =~= s.subrange(p + 1, p + 1 + n)) by {
        let a = u.subrange(q + 1, q + 1 + n);
        let b = s.subrange(p + 1, p + 1 + n);
        assert forall|i: int| 0 <= i < n implies #[trigger] a[i] == b[i] by {
            assert(u.subrange(q, q + n + 2)[1 + i] == s.subrange(p, p + n + 2)[1 + i]);
        }
    }
}

/// Positions that are in step, in a source and in what is left of it
/// without its comments, have the same tokens behind them.
proof fn lemma_tokens_in_step(s: Seq<char>, u: Seq<char>, p: int, q: int)
    requires
        in_step(s, u, p, q),
    ensures
        tokens_from(s, p) == tokens_from(u, q),
    decreases remaining(s, p),
{
    lemma_token_starts_in_step(s, u, p, q);
    lemma_token_start_bound(s, p);
    lemma_token_start_bound(u, q);
    let ps = token_start(s, p);
    let qs = token_start(u, q);
    if ps >= s.len() {
        lemma_step_at_end(s, u, ps, qs);
    } else {
        lemma_same_char(s, u, ps, qs);
        lemma_token_len_bound(s, ps);
        lemma_token_len_bound(u, qs);
        let c = s[ps];
        if c == '"' {
            match string_len(s, ps + 1) {
                Some(n) => {
                    lemma_step_over_string(s, u, ps, qs, n);
                    lemma_string_in_step(s, u, ps, qs, n);
                    lemma_tokens_in_step(s, u, ps + n + 2, qs + n + 2);
                },
                None => {
                    assert(u.skip(qs) == s.subrange(ps, s.len() as int));
                    assert(s.subrange(ps, s.len() as int) =~= s.skip(ps));
                    assert(s.skip(ps + 1) =~= s.skip(ps).skip(1));
                    assert(u.skip(qs + 1) =~= u.skip(qs).skip(1));
                    lemma_string_len_of_suffix(s, u, ps + 1, qs + 1);
                    assert(u.skip(qs).len() == u.len() - qs);
                    assert(s.skip(ps).len() == s.len() - ps);
                    assert(u.subrange(qs, u.len() as int) =~= u.skip(qs));
                    assert(tokens_from(s, s.len() as int) =~= Seq::<Seq<char>>::empty());
                    assert(tokens_from(u, u.len() as int) =~= Seq::<Seq<char>>::empty());
                },
            }
        } else if spec_is_letter(c) {
            lemma_word_in_step(s, u, ps, qs);
            lemma_tokens_in_step(s, u, ps + word_len(s, ps), qs + word_len(s, ps));
        } else {
            lemma_number_starts_in_step(s, u, ps, qs);
            if number_starts(s, ps) {
                lemma_number_in_step(s, u, ps, qs);
                lemma_tokens_in_step(s, u, ps + number_len(s, ps), qs + number_len(s, ps));
            } else if c == '@' {
                lemma_step_over_char(s, u, ps, qs);
                lemma_visible_char(s, u, ps + 1, qs + 1);
                let mut n: int = 0;
                if comment_starts(s, ps + 1) {
                    lemma_visible_behind_comment(s, ps + 1);
                    assert(word_len(s, ps + 1) == 0);
                    assert(word_len(u, qs + 1) == 0);
                } else {
                    lemma_word_in_step(s, u, ps + 1, qs + 1);
                    n = word_len(s, ps + 1) as int;
                }
                assert(s.subrange(ps, ps + 1 + n) =~= seq![s[ps]] + s.subrange(
                    ps + 1,
                    ps + 1 + n,
                ));
                assert(u.subrange(qs, qs + 1 + n) =~= seq![u[qs]] + u.subrange(
                    qs + 1,
                    qs + 1 + n,
                ));
                lemma_tokens_in_step(s, u, ps + 1 + n, qs + 1 + n);
            } else {
                lemma_step_over_char(s, u, ps, qs);
                assert(s.subrange(ps, ps + 1) =~= u.subrange(qs, qs + 1));
                lemma_tokens_in_step(s, u, ps + 1, qs + 1);
            }
        }
    }
}

/// Taking the comments out of a source leaves its tokens as they are.
pub proof fn lemma_uncommented_has_the_same_tokens(s: Seq<char>)
    ensures
        tokens(uncommented(s)) == tokens(s),
{
    let u = uncommented(s);
    assert(u.skip(0) =~= u);
    lemma_tokens_in_step(s, u, 0, 0);
}

/// Comments are transparent to reading, one way and the other: a source can
/// be read exactly where what is left of it without its comments can, both
/// read as the same tree, and where they cannot be read it is for want of
/// the same thing.
pub proof fn lemma_comments_are_transparent(s: Seq<char>, depth: nat)
    ensures
        same_program(spec_program(s, depth), spec_program(uncommented(s), depth)),
        same_program(spec_program(uncommented(s), depth), spec_program(s, depth)),
{
    lemma_uncommented_has_the_same_tokens(s);
    lemma_same_tokens_read_alike(s, uncommented(s), depth);
    lemma_same_tokens_read_alike(uncommented(s), s, depth);
}

/// Two sources that differ in their comments alone read alike: both as the
/// same tree, or neither. So a source that reads as a tree still reads as
/// that tree once comments are added to it, and once they are taken out.
pub proof fn lemma_sources_differ_in_comments_only(first: Seq<char>, second: Seq<char>, depth: nat)
    requires
        uncommented(first) == uncommented(second),
    ensures
        same_program(spec_program(first, depth), spec_program(second, depth)),
{
    lemma_uncommented_has_the_same_tokens(first);
    lemma_uncommented_has_the_same_tokens(second);
    lemma_same_tokens_read_alike(first, second, depth);
}

/// Comments are transparent to compiling: in every profile, two sources
/// that differ in their comments alone compile to the same text, or neither
/// compiles; a source that can be read compiles to what it compiles to
/// without its comments.
pub proof fn lemma_comments_do_not_change_the_text<T: Target>(
    first: Seq<char>,
    second: Seq<char>,
    depth: nat,
)
    requires
        uncommented(first) == uncommented(second),
    ensures
        compile_outcome::<T>(first, depth) is Ok == compile_outcome::<T>(second, depth) is Ok,
        spec_program(first, depth) is Done ==> compile_outcome::<T>(first, depth)
            == compile_outcome::<T>(second, depth),
        spec_program(first, depth) is Done ==> compile_outcome::<T>(first, depth)
            == compile_outcome::<T>(uncommented(first), depth),
{
    lemma_sources_differ_in_comments_only(first, second, depth);
    lemma_comments_are_transparent(first, depth);
}

/// Whether the scan that takes comments out, begun at `from`, comes by
/// `pos`: between `from` and `pos` no string and no comment is open.
pub open spec fn scan_reaches(s: Seq<char>, from: int, pos: int) -> bool
    decreases remaining(s, from),
{
    if from == pos {
        0 <= pos <= s.len()
    } else if from < 0 || from > pos || from >= s.len() {
        false
    } else if comment_starts(s, from) {
        scan_reaches(s, from + 2 + line_len(s, from + 2), pos)
    } else if s[from] == '"' {
        match string_len(s, from + 1) {
            Some(n) => scan_reaches(s, from + n + 2, pos),
            None => false,
        }
    } else {
        scan_reaches(s, from + 1, pos)
    }
}

/// Whether a line ends at `pos`: a line feed stands there, or the source ends.
pub open spec fn line_ends(s: Seq<char>, pos: int) -> bool {
    pos == s.len() || (0 <= pos < s.len() && s[pos] == '\n')
}

/// `s` with a comment of the text `text` put in at `pos`.
pub open spec fn with_comment(s: Seq<char>, pos: int, text: Seq<char>) -> Seq<char> {
    s.subrange(0, pos) + seq!['/', '/'] + text + s.subrange(pos, s.len() as int)
}

/// No line feed stands within a line.
proof fn lemma_line_has_no_feed(s: Seq<char>, pos: int, i: int)
    requires
        0 <= pos <= i < pos + line_len(s, pos),
    ensures
        i < s.len(),
        s[i] != '\n',
    decreases remaining(s, pos),
{
    if pos < s.len() && s[pos] != '\n' {
        if i > pos {
            lemma_line_has_no_feed(s, pos + 1, i);
        }
    }
}

/// What is left of a text without its comments depends on nothing but the
/// text itself, wherever it stands.
proof fn lemma_uncommented_of_suffix(s: Seq<char>, u: Seq<char>, p: int, q: int)
    requires
        0 <= p <= s.len(),
        0 <= q <= u.len(),
        s.skip(p) == u.skip(q),
    ensures
        uncommented_from(s, p) == uncommented_from(u, q),
    decreases remaining(s, p),
{
    let a = s.skip(p);
    assert(a.len() == s.len() - p);
    assert(u.skip(q).len() == u.len() - q);
    if p < s.len() {
        assert(s[p] == a[0]);
        assert(u[q] == u.skip(q)[0]);
        if p + 1 < s.len() {
            assert(s[p + 1] == a[1]);
            assert(u[q + 1] == u.skip(q)[1]);
        }
        if comment_starts(s, p) {
            assert(s.skip(p + 2) =~= a.skip(2));
            assert(u.skip(q + 2) =~= u.skip(q).skip(2));
            lemma_line_len_of_suffix(s, u, p + 2, q + 2);
            lemma_line_len_bound(s, p + 2);
            let n = 2 + line_len(s, p + 2);
            assert(s.skip(p + n) =~= a.skip(n as int));
            assert(u.skip(q + n) =~= u.skip(q).skip(n as int));
            lemma_uncommented_of_suffix(s, u, p + n, q + n);
        } else if s[p] == '"' {
            assert(s.skip(p + 1) =~= a.skip(1));
            assert(u.skip(q + 1) =~= u.skip(q).skip(1));
            lemma_string_len_of_suffix(s, u, p + 1, q + 1);
            match string_len(s, p + 1) {
                Some(n) => {
                    lemma_string_len_bound(s, p + 1);
                    let k = n + 2;
                    assert(s.subrange(p, p + k) =~= a.subrange(0, k as int));
                    assert(u.subrange(q, q + k) =~= u.skip(q).subrange(0, k as int));
                    assert(s.skip(p + k) =~= a.skip(k as int));
                    assert(u.skip(q + k) =~= u.skip(q).skip(k as int));
                    lemma_uncommented_of_suffix(s, u, p + k, q + k);
                },
                None => {
                    assert(s.subrange(p, s.len() as int) =~= a);
                    assert(u.subrange(q, u.len() as int) =~= u.skip(q));
                },
            }
        } else {
            assert(s.skip(p + 1) =~= a.skip(1));
            assert(u.skip(q + 1) =~= u.skip(q).skip(1));
            lemma_uncommented_of_suffix(s, u, p + 1, q + 1);
        }
    }
}

/// Up to the place where a comment was put in, and from it on, taking the
/// comments out leaves the same text as before.
proof fn lemma_scan_past_added_comment(s: Seq<char>, from: int, pos: int, text: Seq<char>)
    requires
        0 <= from <= pos,
        scan_reaches(s, from, pos),
        line_ends(s, pos),
        forall|i: int| 0 <= i < text.len() ==> text[i] != '\n',
        pos == 0 || s[pos - 1] != '/',
    ensures
        uncommented_from(with_comment(s, pos, text), from) == uncommented_from(s, from),
    decreases remaining(s, from),
{
    let t = with_comment(s, pos, text);
    let k = 2 + text.len();
    assert(0 <= pos <= s.len()) by {
        lemma_scan_reaches_within(s, from, pos);
    }
    assert(t.len() == s.len() + k);
    assert(forall|i: int| 0 <= i < pos ==> t[i] == s[i]);
    assert(t[pos] == '/' && t[pos + 1] == '/');
    assert(forall|i: int| 0 <= i < text.len() ==> t[pos + 2 + i] == text[i]);
    assert(forall|i: int| pos <= i < s.len() ==> t[i + k] == s[i]);
    assert(t.skip(pos + k) =~= s.skip(pos));
    assert(line_ends(t, pos + k));
    if from == pos {
        assert(comment_starts(t, pos));
        lemma_line_len_is(t, pos + 2, text.len());
        lemma_uncommented_of_suffix(s, t, pos, pos + k);
    } else if comment_starts(s, from) {
        let end = from + 2 + line_len(s, from + 2);
        lemma_scan_reaches_within(s, end, pos);
        lemma_line_len_bound(s, from + 2);
        lemma_line_ends_at_feed(s, from + 2);
        assert forall|i: int| from + 2 <= i < end implies s[i] != '\n' by {
            lemma_line_has_no_feed(s, from + 2, i);
        }
        assert(comment_starts(t, from));
        if end < pos {
            lemma_line_len_is(t, from + 2, line_len(s, from + 2));
            lemma_scan_past_added_comment(s, end, pos, text);
        } else {
            assert forall|i: int| from + 2 <= i < pos + k implies t[i] != '\n' by {
                if i < pos {
                } else if i < pos + 2 {
                } else {
                    assert(t[i] == text[i - pos - 2]);
                }
            }
            lemma_line_len_is(t, from + 2, (pos + k - from - 2) as nat);
            lemma_uncommented_of_suffix(s, t, pos, pos + k);
        }
    } else if s[from] == '"' {
        let n = string_len(s, from + 1)->0;
        lemma_string_len_bound(s, from + 1);
        lemma_scan_reaches_within(s, from + n + 2, pos);
        assert(t.subrange(from + 1, from + n + 2) =~= s.subrange(from + 1, from + n + 2));
        lemma_string_len_local(s, t, from + 1, from + 1, n);
        assert(t.subrange(from, from + n + 2) =~= s.subrange(from, from + n + 2));
        lemma_scan_past_added_comment(s, from + n + 2, pos, text);
    } else {
        lemma_scan_reaches_within(s, from + 1, pos);
        assert(!comment_starts(t, from));
        lemma_scan_past_added_comment(s, from + 1, pos, text);
    }
}

/// The scan comes by places within the source only, none before its start.
proof fn lemma_scan_reaches_within(s: Seq<char>, from: int, pos: int)
    requires
        scan_reaches(s, from, pos),
    ensures
        0 <= from <= pos <= s.len(),
    decreases remaining(s, from),
{
    if from == pos {
    } else if comment_starts(s, from) {
        lemma_scan_reaches_within(s, from + 2 + line_len(s, from + 2), pos);
    } else if s[from] == '"' {
        lemma_scan_reaches_within(s, from + string_len(s, from + 1)->0 + 2, pos);
    } else {
        lemma_scan_reaches_within(s, from + 1, pos);
    }
}

/// A comment that is added at the end of a line, outside every string,
/// is taken out again: what is left of the source is what was left of it
/// before. The place must not stand behind a slash, which would become
/// part of the comment.
pub proof fn lemma_added_comment_is_taken_out(s: Seq<char>, pos: int, text: Seq<char>)
    requires
        scan_reaches(s, 0, pos),
        line_ends(s, pos),
        forall|i: int| 0 <= i < text.len() ==> text[i] != '\n',
        pos == 0 || s[pos - 1] != '/',
    ensures
        uncommented(with_comment(s, pos, text)) == uncommented(s),
{
    lemma_scan_reaches_within(s, 0, pos);
    lemma_scan_past_added_comment(s, 0, pos, text);
}

/// A source that reads as a tree still reads as that tree once a comment is
/// added at the end of one of its lines, outside every string and not
/// behind a slash; and a source that cannot be read cannot be read with the
/// comment either.
pub proof fn lemma_added_comment_reads_alike(
    s: Seq<char>,
    pos: int,
    text: Seq<char>,
    depth: nat,
)
    requires
        scan_reaches(s, 0, pos),
        line_ends(s, pos),
        forall|i: int| 0 <= i < text.len() ==> text[i] != '\n',
        pos == 0 || s[pos - 1] != '/',
    ensures
        same_program(spec_program(s, depth), spec_program(with_comment(s, pos, text), depth)),
{
    lemma_added_comment_is_taken_out(s, pos, text);
    lemma_sources_differ_in_comments_only(s, with_comment(s, pos, text), depth);
}

/// A line of comment before a source adds no token to it.
pub proof fn lemma_comment_line_has_no_tokens(text: Seq<char>, s: Seq<char>)
    requires
        forall|i: int| 0 <= i < text.len() ==> text[i] != '\n',
    ensures
        tokens(seq!['/', '/'] + text + seq!['\n'] + s) == tokens(s),
{
    let line = seq!['/', '/'] + text + seq!['\n'];
    let all = line + s;
    let n = line.len() as int;
    assert(n == text.len() + 3);
    assert(all[0] == '/' && all[1] == '/');
    assert(forall|i: int| 0 <= i < text.len() ==> all[2 + i] == text[i]);
    assert(all[n - 1] == '\n');
    assert(comment_starts(all, 0));
    lemma_line_len_is(all, 2, text.len());
    assert(token_start(all, 0) == token_start(all, n - 1));
    assert(token_start(all, n - 1) == token_start(all, n));
    assert(tokens_from(all, 0) == tokens_from(all, n));
    assert(all.skip(n) =~= s);
    assert(s.skip(0) =~= s);
    lemma_tokens_of_rest(all, s, n, 0);
}

/// A line of comment before a source changes nothing: with it, the source
/// reads as the same tree, or still cannot be read, for want of the same
/// thing.
pub proof fn lemma_comment_line_reads_alike(text: Seq<char>, s: Seq<char>, depth: nat)
    requires
        forall|i: int| 0 <= i < text.len() ==> text[i] != '\n',
    ensures
        same_program(
            spec_program(seq!['/', '/'] + text + seq!['\n'] + s, depth),
            spec_program(s, depth),
        ),
{
    lemma_comment_line_has_no_tokens(text, s);
    lemma_same_tokens_read_alike(seq!['/', '/'] + text + seq!['\n'] + s, s, depth);
}

/// Takes the comments out of a source. The line feed that ends a comment
/// stays, and so does every string, whatever it holds.
pub fn uncomment(source: &[char]) -> (rest: Vec<char>)
    ensures
        rest@ == uncommented(source@),
{
    let mut rest: Vec<char> = Vec::new();
    let mut i: usize = 0;
    while i < source.len()
        invariant
            i <= source.len(),
            uncommented(source@) == rest@ + uncommented_from(source@, i as int),
        decreases source.len() - i,
    {
        let ghost before = rest@;
        if let Some(behind) = comment(source, i) {
            i = behind;
        } else if source[i] == '"' {
            let end = match string_end(source, i + 1) {
                Some(quote) => quote + 1,
                None => source.len(),
            };
            let mut j = i;
            while j < end
                invariant
                    i <= j <= end <= source.len(),
                    rest@ == before + source@.subrange(i as int, j as int),
                decreases end - j,
            {
                rest.push(source[j]);
                assert(source@.subrange(i as int, j + 1) =~= source@.subrange(
                    i as int,
                    j as int,
                ).push(source@[j as int]));
                j += 1;
            }
            assert(uncommented(source@) =~= rest@ + uncommented_from(source@, end as int)) by {
                let kept = source@.subrange(i as int, end as int);
                assert(before + (kept + uncommented_from(source@, end as int)) =~= (before
                    + kept) + uncommented_from(source@, end as int));
                if end == source.len() {
                    assert(uncommented_from(source@, end as int) =~= Seq::<char>::empty());
                    assert(kept + Seq::<char>::empty() =~= kept);
                }
            }
            i = end;
        } else {
            rest.push(source[i]);
            assert(before + (seq![source@[i as int]] + uncommented_from(source@, i + 1))
                =~= before.push(source@[i as int]) + uncommented_from(source@, i + 1));
            i += 1;
        }
    }
    assert(rest@ + Seq::<char>::empty() =~= rest@);
    rest
}

} // verus!
