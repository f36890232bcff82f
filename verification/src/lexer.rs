//! The lexical layer of the language: characters, blank space, comments and
//! the extent of words, numbers and strings in a source text.
//!
//! A position is an index into the characters of the source. Every extent
//! is a number of characters, so that a position moved by one never moves
//! backwards.

use vstd::prelude::*;
use crate::text::push_char;

verus! {

/// Whether `c` is blank space.
pub open spec fn spec_is_space(c: char) -> bool {
    c == ' ' || c == '\t' || c == '\r' || c == '\n'
}

/// Whether `c` is an ASCII letter.
pub open spec fn spec_is_letter(c: char) -> bool {
    ('a' <= c && c <= 'z') || ('A' <= c && c <= 'Z')
}

/// Whether `c` is an ASCII digit.
pub open spec fn spec_is_digit(c: char) -> bool {
    '0' <= c && c <= '9'
}

/// Whether `c` can stand in a word after its first character.
pub open spec fn spec_is_word_char(c: char) -> bool {
    spec_is_letter(c) || spec_is_digit(c) || c == '_'
}

/// Tells whether `c` is blank space.
#[verifier::when_used_as_spec(spec_is_space)]
pub fn is_space(c: char) -> (b: bool)
    ensures
        b == spec_is_space(c),
{
    c == ' ' || c == '\t' || c == '\r' || c == '\n'
}

/// Tells whether `c` is an ASCII letter.
#[verifier::when_used_as_spec(spec_is_letter)]
pub fn is_letter(c: char) -> (b: bool)
    ensures
        b == spec_is_letter(c),
{
    ('a' <= c && c <= 'z') || ('A' <= c && c <= 'Z')
}

/// Tells whether `c` is an ASCII digit.
#[verifier::when_used_as_spec(spec_is_digit)]
pub fn is_digit(c: char) -> (b: bool)
    ensures
        b == spec_is_digit(c),
{
    '0' <= c && c <= '9'
}

/// Tells whether `c` can stand in a word after its first character.
#[verifier::when_used_as_spec(spec_is_word_char)]
pub fn is_word_char(c: char) -> (b: bool)
    ensures
        b == spec_is_word_char(c),
{
    is_letter(c) || is_digit(c) || c == '_'
}

/// The character at `pos`, if the source reaches that far.
pub open spec fn char_at(s: Seq<char>, pos: int) -> Option<char> {
    if 0 <= pos < s.len() {
        Some(s[pos])
    } else {
        None
    }
}

/// The number of characters from `pos` to the end of the source.
pub open spec fn remaining(s: Seq<char>, pos: int) -> nat {
    if pos <= s.len() {
        (s.len() - pos) as nat
    } else {
        0
    }
}

/// Whether a comment starts at `pos`: two slashes.
pub open spec fn comment_starts(s: Seq<char>, pos: int) -> bool {
    0 <= pos && pos + 1 < s.len() && s[pos] == '/' && s[pos + 1] == '/'
}

/// The number of characters from `pos` to the end of its line: up to the
/// next line feed, which is not counted, or to the end of the source.
pub open spec fn line_len(s: Seq<char>, pos: int) -> nat
    decreases remaining(s, pos),
{
    if pos < 0 || pos >= s.len() || s[pos] == '\n' {
        0
    } else {
        1 + line_len(s, pos + 1)
    }
}

/// The number of characters of blank space and comments that begin at `pos`.
pub open spec fn skip_len(s: Seq<char>, pos: int) -> nat
    decreases remaining(s, pos),
{
    if pos < 0 || pos >= s.len() {
        0
    } else if is_space(s[pos]) {
        1 + skip_len(s, pos + 1)
    } else if comment_starts(s, pos) {
        let comment = 2 + line_len(s, pos + 2);
        comment + skip_len(s, pos + comment)
    } else {
        0
    }
}

/// Where the token that follows `pos` starts: behind the blank space and the
/// comments at `pos`.
pub open spec fn token_start(s: Seq<char>, pos: int) -> int {
    pos + skip_len(s, pos)
}

/// The number of word characters that begin at `pos`.
pub open spec fn word_rest_len(s: Seq<char>, pos: int) -> nat
    decreases remaining(s, pos),
{
    if 0 <= pos < s.len() && is_word_char(s[pos]) {
        1 + word_rest_len(s, pos + 1)
    } else {
        0
    }
}

/// The length of the word that begins at `pos`: a letter, then word
/// characters. Zero where no word begins.
pub open spec fn word_len(s: Seq<char>, pos: int) -> nat {
    if 0 <= pos < s.len() && is_letter(s[pos]) {
        1 + word_rest_len(s, pos + 1)
    } else {
        0
    }
}

/// The number of digits that begin at `pos`.
pub open spec fn digits_len(s: Seq<char>, pos: int) -> nat
    decreases remaining(s, pos),
{
    if 0 <= pos < s.len() && is_digit(s[pos]) {
        1 + digits_len(s, pos + 1)
    } else {
        0
    }
}

/// Whether a number begins at `pos`: a digit, or a minus sign and a digit.
pub open spec fn number_starts(s: Seq<char>, pos: int) -> bool {
    0 <= pos < s.len() && (is_digit(s[pos]) || (s[pos] == '-' && pos + 1 < s.len()
        && is_digit(s[pos + 1])))
}

/// The length of the fraction that begins at `pos`: a point and at least one
/// digit. Zero where none begins.
pub open spec fn fraction_len(s: Seq<char>, pos: int) -> nat {
    if 0 <= pos < s.len() && s[pos] == '.' && digits_len(s, pos + 1) > 0 {
        1 + digits_len(s, pos + 1)
    } else {
        0
    }
}

/// The length of the number that begins at `pos`: an optional minus sign,
/// digits, and an optional fraction.
pub open spec fn number_len(s: Seq<char>, pos: int) -> nat
    recommends
        number_starts(s, pos),
{
    let sign: nat = if 0 <= pos < s.len() && s[pos] == '-' {
        1
    } else {
        0
    };
    let whole = digits_len(s, pos + sign);
    sign + whole + fraction_len(s, pos + sign + whole)
}

/// The number of characters between `pos`, just behind an opening quote, and
/// the closing quote. A backslash takes the character behind it along, so an
/// escaped quote does not close the string. `None` where the source ends first.
pub open spec fn string_len(s: Seq<char>, pos: int) -> Option<nat>
    decreases remaining(s, pos),
{
    if pos < 0 || pos >= s.len() {
        None
    } else if s[pos] == '"' {
        Some(0nat)
    } else if s[pos] == '\\' {
        match string_len(s, pos + 2) {
            Some(n) => Some(2 + n),
            None => None,
        }
    } else {
        match string_len(s, pos + 1) {
            Some(n) => Some(1 + n),
            None => None,
        }
    }
}

/// A line ends within the source.
pub proof fn lemma_line_len_bound(s: Seq<char>, pos: int)
    requires
        0 <= pos <= s.len(),
    ensures
        pos + line_len(s, pos) <= s.len(),
    decreases remaining(s, pos),
{
    if pos < s.len() && s[pos] != '\n' {
        lemma_line_len_bound(s, pos + 1);
    }
}

/// Blank space and comments end within the source.
pub proof fn lemma_token_start_bound(s: Seq<char>, pos: int)
    requires
        0 <= pos <= s.len(),
    ensures
        pos <= token_start(s, pos) <= s.len(),
    decreases remaining(s, pos),
{
    if pos >= s.len() {
    } else if spec_is_space(s[pos]) {
        lemma_token_start_bound(s, pos + 1);
    } else if comment_starts(s, pos) {
        lemma_line_len_bound(s, pos + 2);
        lemma_token_start_bound(s, pos + 2 + line_len(s, pos + 2));
    }
}

/// No blank space and no comment stands at the start of a token: skipping
/// once more from there skips nothing.
pub proof fn lemma_token_start_is_fixed(s: Seq<char>, pos: int)
    requires
        0 <= pos <= s.len(),
    ensures
        token_start(s, token_start(s, pos)) == token_start(s, pos),
    decreases remaining(s, pos),
{
    if pos >= s.len() {
    } else if spec_is_space(s[pos]) {
        lemma_token_start_is_fixed(s, pos + 1);
    } else if comment_starts(s, pos) {
        lemma_line_len_bound(s, pos + 2);
        lemma_token_start_is_fixed(s, pos + 2 + line_len(s, pos + 2));
    }
}

/// A run of word characters ends within the source.
pub proof fn lemma_word_rest_len_bound(s: Seq<char>, pos: int)
    requires
        0 <= pos <= s.len(),
    ensures
        pos + word_rest_len(s, pos) <= s.len(),
    decreases remaining(s, pos),
{
    if pos < s.len() && spec_is_word_char(s[pos]) {
        lemma_word_rest_len_bound(s, pos + 1);
    }
}

/// A word ends within the source.
pub proof fn lemma_word_len_bound(s: Seq<char>, pos: int)
    requires
        0 <= pos <= s.len(),
    ensures
        pos + word_len(s, pos) <= s.len(),
{
    if pos < s.len() && spec_is_letter(s[pos]) {
        lemma_word_rest_len_bound(s, pos + 1);
    }
}

/// A run of digits ends within the source.
pub proof fn lemma_digits_len_bound(s: Seq<char>, pos: int)
    requires
        0 <= pos <= s.len(),
    ensures
        pos + digits_len(s, pos) <= s.len(),
    decreases remaining(s, pos),
{
    if pos < s.len() && spec_is_digit(s[pos]) {
        lemma_digits_len_bound(s, pos + 1);
    }
}

/// A number has at least one character and ends within the source.
pub proof fn lemma_number_len_bound(s: Seq<char>, pos: int)
    requires
        0 <= pos <= s.len(),
        number_starts(s, pos),
    ensures
        0 < number_len(s, pos),
        pos + number_len(s, pos) <= s.len(),
{
    let sign: int = if s[pos] == '-' {
        1
    } else {
        0
    };
    lemma_digits_len_bound(s, pos + sign);
    let whole = digits_len(s, pos + sign);
    assert(whole > 0);
    if pos + sign + whole < s.len() {
        lemma_digits_len_bound(s, pos + sign + whole + 1);
    }
}

/// The quote that closes a string stands within the source.
pub proof fn lemma_string_len_bound(s: Seq<char>, pos: int)
    requires
        0 <= pos <= s.len(),
    ensures
        string_len(s, pos) matches Some(n) ==> pos + n < s.len(),
    decreases remaining(s, pos),
{
    if pos >= s.len() {
    } else if s[pos] == '"' {
    } else if s[pos] == '\\' {
        if pos + 2 <= s.len() {
            lemma_string_len_bound(s, pos + 2);
        }
    } else {
        lemma_string_len_bound(s, pos + 1);
    }
}

/// A string ends at a quote.
pub proof fn lemma_string_ends_at_quote(s: Seq<char>, pos: int)
    requires
        0 <= pos <= s.len(),
    ensures
        string_len(s, pos) matches Some(n) ==> pos + n < s.len() && s[pos + n] == '"',
    decreases remaining(s, pos),
{
    if pos >= s.len() {
    } else if s[pos] == '"' {
    } else if s[pos] == '\\' {
        if pos + 2 <= s.len() {
            lemma_string_ends_at_quote(s, pos + 2);
        }
    } else {
        lemma_string_ends_at_quote(s, pos + 1);
    }
}

/// The length of a string depends on its characters alone.
pub proof fn lemma_string_len_local(s: Seq<char>, u: Seq<char>, p: int, q: int, n: nat)
    requires
        0 <= p,
        0 <= q,
        string_len(s, p) == Some(n),
        p + n < s.len(),
        q + n < u.len(),
        u.subrange(q, q + n + 1) == s.subrange(p, p + n + 1),
    ensures
        string_len(u, q) == Some(n),
    decreases n,
{
    assert(u[q] == u.subrange(q, q + n + 1)[0]);
    assert(s[p] == s.subrange(p, p + n + 1)[0]);
    if s[p] == '"' {
    } else {
        let k: int = if s[p] == '\\' {
            2
        } else {
            1
        };
        lemma_string_len_bound(s, p + k);
        let m = (n - k) as nat;
        assert(string_len(s, p + k) == Some(m));
        assert(u.subrange(q + k, q + k + m + 1) =~= s.subrange(p + k, p + k + m + 1)) by {
            let a = u.subrange(q + k, q + k + m + 1);
            let b = s.subrange(p + k, p + k + m + 1);
            assert forall|i: int| 0 <= i < m + 1 implies #[trigger] a[i] == b[i] by {
                assert(k + m == n);
                assert(a[i] == u[q + k + i]);
                assert(b[i] == s[p + k + i]);
                assert(u.subrange(q, q + n + 1)[k + i] == u[q + k + i]);
                assert(s.subrange(p, p + n + 1)[k + i] == s[p + k + i]);
            }
        }
        lemma_string_len_local(s, u, p + k, q + k, m);
    }
}

/// The length of a string depends on nothing but the text from its first
/// character on.
pub proof fn lemma_string_len_of_suffix(s: Seq<char>, u: Seq<char>, p: int, q: int)
    requires
        0 <= p <= s.len(),
        0 <= q <= u.len(),
        s.skip(p) == u.skip(q),
    ensures
        string_len(s, p) == string_len(u, q),
    decreases remaining(s, p),
{
    assert(s.skip(p).len() == s.len() - p);
    assert(u.skip(q).len() == u.len() - q);
    if p < s.len() {
        assert(s[p] == s.skip(p)[0]);
        assert(u[q] == u.skip(q)[0]);
        if s[p] == '"' {
        } else {
            let k: int = if s[p] == '\\' {
                2
            } else {
                1
            };
            if p + k <= s.len() {
                assert(s.skip(p + k) =~= s.skip(p).skip(k));
                assert(u.skip(q + k) =~= u.skip(q).skip(k));
                lemma_string_len_of_suffix(s, u, p + k, q + k);
            } else {
                assert(string_len(s, p + k) is None);
                assert(string_len(u, q + k) is None);
            }
        }
    }
}

/// A line that has `n` characters before its line feed, or before the end
/// of the source, has that length.
pub proof fn lemma_line_len_is(s: Seq<char>, pos: int, n: nat)
    requires
        0 <= pos,
        pos + n <= s.len(),
        forall|i: int| pos <= i < pos + n ==> s[i] != '\n',
        (pos + n == s.len() || s[pos + n] == '\n'),
    ensures
        line_len(s, pos) == n,
    decreases n,
{
    if n > 0 {
        lemma_line_len_is(s, pos + 1, (n - 1) as nat);
    }
}

/// The length of a line depends on nothing but the text from its first
/// character on.
pub proof fn lemma_line_len_of_suffix(s: Seq<char>, u: Seq<char>, p: int, q: int)
    requires
        0 <= p <= s.len(),
        0 <= q <= u.len(),
        s.skip(p) == u.skip(q),
    ensures
        line_len(s, p) == line_len(u, q),
    decreases remaining(s, p),
{
    assert(s.skip(p).len() == s.len() - p);
    assert(u.skip(q).len() == u.len() - q);
    if p < s.len() {
        assert(s[p] == s.skip(p)[0]);
        assert(u[q] == u.skip(q)[0]);
        if s[p] != '\n' {
            assert(s.skip(p + 1) =~= s.skip(p).skip(1));
            assert(u.skip(q + 1) =~= u.skip(q).skip(1));
            lemma_line_len_of_suffix(s, u, p + 1, q + 1);
        }
    }
}

/// The blank space and the comments at a place depend on nothing but the
/// text from that place on.
pub proof fn lemma_skip_len_of_suffix(s: Seq<char>, u: Seq<char>, p: int, q: int)
    requires
        0 <= p <= s.len(),
        0 <= q <= u.len(),
        s.skip(p) == u.skip(q),
    ensures
        skip_len(s, p) == skip_len(u, q),
    decreases remaining(s, p),
{
    let a = s.skip(p);
    assert(a.len() == s.len() - p);
    assert(u.skip(q).len() == u.len() - q);
    if p < s.len() {
        assert(s[p] == a[0]);
        assert(u[q] == u.skip(q)[0]);
        if p + 1 < s.len() {
            assert(s[p + 1] == a[1]);
            assert(u[q + 1] == u.skip(q)[1]);
        }
        if spec_is_space(s[p]) {
            assert(s.skip(p + 1) =~= a.skip(1));
            assert(u.skip(q + 1) =~= u.skip(q).skip(1));
            lemma_skip_len_of_suffix(s, u, p + 1, q + 1);
        } else if comment_starts(s, p) {
            assert(s.skip(p + 2) =~= a.skip(2));
            assert(u.skip(q + 2) =~= u.skip(q).skip(2));
            lemma_line_len_of_suffix(s, u, p + 2, q + 2);
            lemma_line_len_bound(s, p + 2);
            let n = 2 + line_len(s, p + 2);
            assert(s.skip(p + n) =~= a.skip(n as int));
            assert(u.skip(q + n) =~= u.skip(q).skip(n as int));
            lemma_skip_len_of_suffix(s, u, p + n, q + n);
        }
    }
}

/// The word characters at a place depend on nothing but the text from that
/// place on.
pub proof fn lemma_word_rest_len_of_suffix(s: Seq<char>, u: Seq<char>, p: int, q: int)
    requires
        0 <= p <= s.len(),
        0 <= q <= u.len(),
        s.skip(p) == u.skip(q),
    ensures
        word_rest_len(s, p) == word_rest_len(u, q),
    decreases remaining(s, p),
{
    assert(s.skip(p).len() == s.len() - p);
    assert(u.skip(q).len() == u.len() - q);
    if p < s.len() {
        assert(s[p] == s.skip(p)[0]);
        assert(u[q] == u.skip(q)[0]);
        if spec_is_word_char(s[p]) {
            assert(s.skip(p + 1) =~= s.skip(p).skip(1));
            assert(u.skip(q + 1) =~= u.skip(q).skip(1));
            lemma_word_rest_len_of_suffix(s, u, p + 1, q + 1);
        }
    }
}

/// The digits at a place depend on nothing but the text from that place on.
pub proof fn lemma_digits_len_of_suffix(s: Seq<char>, u: Seq<char>, p: int, q: int)
    requires
        0 <= p <= s.len(),
        0 <= q <= u.len(),
        s.skip(p) == u.skip(q),
    ensures
        digits_len(s, p) == digits_len(u, q),
    decreases remaining(s, p),
{
    assert(s.skip(p).len() == s.len() - p);
    assert(u.skip(q).len() == u.len() - q);
    if p < s.len() {
        assert(s[p] == s.skip(p)[0]);
        assert(u[q] == u.skip(q)[0]);
        if spec_is_digit(s[p]) {
            assert(s.skip(p + 1) =~= s.skip(p).skip(1));
            assert(u.skip(q + 1) =~= u.skip(q).skip(1));
            lemma_digits_len_of_suffix(s, u, p + 1, q + 1);
        }
    }
}

/// The characters of `source`.
pub fn characters(source: &str) -> (chars: Vec<char>)
    ensures
        chars@ == source@,
{
    let mut chars: Vec<char> = Vec::new();
    for c in iter: source.chars()
        invariant
            iter.seq() == source@,
            chars@ == iter.seq().take(iter.index() as int),
    {
        chars.push(c);
    }
    assert(chars@ =~= source@);
    chars
}

/// The end of the line that `pos` stands in: the position of the next line
/// feed, or the end of the source.
pub fn line_end(source: &[char], pos: usize) -> (end: usize)
    requires
        pos <= source.len(),
    ensures
        end == pos + line_len(source@, pos as int),
        end <= source.len(),
{
    let mut i = pos;
    while i < source.len() && source[i] != '\n'
        invariant
            pos <= i <= source.len(),
            pos + line_len(source@, pos as int) == i + line_len(source@, i as int),
        decreases source.len() - i,
    {
        i += 1;
    }
    i
}

/// Reads a comment: where one starts at `pos`, the position behind it, at
/// the line feed that ends it or at the end of the source.
pub fn comment(source: &[char], pos: usize) -> (behind: Option<usize>)
    requires
        pos <= source.len(),
    ensures
        behind is Some == comment_starts(source@, pos as int),
        behind matches Some(end) ==> end == pos + 2 + line_len(source@, pos + 2) && pos + 2
            <= end <= source.len(),
{
    if pos < source.len() && source[pos] == '/' && pos + 1 < source.len() && source[pos + 1]
        == '/' {
        Some(line_end(source, pos + 2))
    } else {
        None
    }
}

/// Skips the blank space and the comments at `pos`: the position of the
/// token that follows, or the end of the source.
pub fn skip(source: &[char], pos: usize) -> (start: usize)
    requires
        pos <= source.len(),
    ensures
        start == token_start(source@, pos as int),
        pos <= start <= source.len(),
{
    let mut i = pos;
    loop
        invariant
            pos <= i <= source.len(),
            token_start(source@, pos as int) == token_start(source@, i as int),
        ensures
            i == token_start(source@, pos as int),
            pos <= i <= source.len(),
        decreases source.len() - i,
    {
        if i < source.len() && is_space(source[i]) {
            i += 1;
        } else if let Some(behind) = comment(source, i) {
            i = behind;
        } else {
            break ;
        }
    }
    i
}

/// The end of the run of word characters that begins at `pos`.
pub fn word_rest_end(source: &[char], pos: usize) -> (end: usize)
    requires
        pos <= source.len(),
    ensures
        end == pos + word_rest_len(source@, pos as int),
        end <= source.len(),
{
    let mut i = pos;
    while i < source.len() && is_word_char(source[i])
        invariant
            pos <= i <= source.len(),
            pos + word_rest_len(source@, pos as int) == i + word_rest_len(source@, i as int),
        decreases source.len() - i,
    {
        i += 1;
    }
    i
}

/// The end of the word that begins at `pos`; `pos` itself where none begins.
pub fn word_end(source: &[char], pos: usize) -> (end: usize)
    requires
        pos <= source.len(),
    ensures
        end == pos + word_len(source@, pos as int),
        end <= source.len(),
{
    if pos < source.len() && is_letter(source[pos]) {
        word_rest_end(source, pos + 1)
    } else {
        pos
    }
}

/// The end of the run of digits that begins at `pos`.
pub fn digits_end(source: &[char], pos: usize) -> (end: usize)
    requires
        pos <= source.len(),
    ensures
        end == pos + digits_len(source@, pos as int),
        end <= source.len(),
{
    let mut i = pos;
    while i < source.len() && is_digit(source[i])
        invariant
            pos <= i <= source.len(),
            pos + digits_len(source@, pos as int) == i + digits_len(source@, i as int),
        decreases source.len() - i,
    {
        i += 1;
    }
    i
}

/// Tells whether a number begins at `pos`.
pub fn starts_number(source: &[char], pos: usize) -> (b: bool)
    requires
        pos <= source.len(),
    ensures
        b == number_starts(source@, pos as int),
{
    pos < source.len() && (is_digit(source[pos]) || (source[pos] == '-' && pos + 1
        < source.len() && is_digit(source[pos + 1])))
}

/// The end of the number that begins at `pos`; `pos` itself where none begins.
pub fn number_end(source: &[char], pos: usize) -> (end: usize)
    requires
        pos <= source.len(),
    ensures
        number_starts(source@, pos as int) ==> end == pos + number_len(source@, pos as int)
            && pos < end,
        !number_starts(source@, pos as int) ==> end == pos,
        end <= source.len(),
{
    if !starts_number(source, pos) {
        return pos;
    }
    let whole_start = if source[pos] == '-' {
        pos + 1
    } else {
        pos
    };
    let whole_end = digits_end(source, whole_start);
    if whole_end < source.len() && source[whole_end] == '.' {
        let fraction_end = digits_end(source, whole_end + 1);
        if fraction_end > whole_end + 1 {
            return fraction_end;
        }
    }
    whole_end
}

/// The position of the quote that closes the string whose first character
/// stands at `pos`, or `None` where the source ends before one.
pub fn string_end(source: &[char], pos: usize) -> (end: Option<usize>)
    requires
        pos <= source.len(),
    ensures
        match end {
            Some(quote) => string_len(source@, pos as int) == Some((quote - pos) as nat) && pos
                <= quote < source.len(),
            None => string_len(source@, pos as int) is None,
        },
{
    let mut i = pos;
    loop
        invariant
            pos <= i <= source.len(),
            string_len(source@, pos as int) == match string_len(source@, i as int) {
                Some(n) => Some((n + i - pos) as nat),
                None => None,
            },
        decreases source.len() - i,
    {
        if i >= source.len() {
            return None;
        } else if source[i] == '"' {
            return Some(i);
        } else if source[i] == '\\' {
            if i + 1 >= source.len() {
                assert(string_len(source@, i + 2) is None);
                return None;
            }
            i += 2;
        } else {
            i += 1;
        }
    }
}

/// The characters of `source` from `from` up to `to`, as a string.
pub fn text(source: &[char], from: usize, to: usize) -> (text: String)
    requires
        from <= to <= source.len(),
    ensures
        text@ == source@.subrange(from as int, to as int),
{
    let mut text = String::new();
    let mut i = from;
    while i < to
        invariant
            from <= i <= to <= source.len(),
            text@ == source@.subrange(from as int, i as int),
        decreases to - i,
    {
        push_char(&mut text, source[i]);
        assert(source@.subrange(from as int, i + 1) =~= source@.subrange(
            from as int,
            i as int,
        ).push(source@[i as int]));
        i += 1;
    }
    text
}

} // verus!
