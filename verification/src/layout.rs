//! The layout of instruction text.
//!
//! Layout is cosmetic: a line break and a tab go behind each semicolon that
//! ends a statement. What stands between an opening double quote and the
//! quote that closes it is a string of the script and stays as it is,
//! whatever it holds.

use vstd::prelude::*;
use crate::backend::quote_text;
use crate::lexer::{
    characters, lemma_string_len_bound, lemma_string_len_local, lemma_string_len_of_suffix,
    remaining, string_end, string_len,
};
use crate::lower::literal_code;
use crate::rust::Rust;
use crate::text::push_char;
use crate::token::LiteralView;

verus! {

/// What goes behind a semicolon that ends a statement: a line feed and a tab.
pub open spec fn line_break() -> Seq<char> {
    seq!['\n', '\t']
}

/// The text from `pos` on, laid out. A string is kept whole, from its
/// opening quote to the quote that closes it, or to the end of the text
/// where none does. Behind any other semicolon stands a line break.
pub open spec fn laid_out_from(code: Seq<char>, pos: int) -> Seq<char>
    decreases remaining(code, pos),
{
    if pos < 0 || pos >= code.len() {
        Seq::empty()
    } else if code[pos] == '"' {
        match string_len(code, pos + 1) {
            Some(n) => code.subrange(pos, pos + n + 2) + laid_out_from(code, pos + n + 2),
            None => code.subrange(pos, code.len() as int),
        }
    } else if code[pos] == ';' {
        seq![';'] + line_break() + laid_out_from(code, pos + 1)
    } else {
        seq![code[pos]] + laid_out_from(code, pos + 1)
    }
}

/// `code` with a line break behind each semicolon outside its strings.
pub open spec fn laid_out(code: Seq<char>) -> Seq<char> {
    laid_out_from(code, 0)
}

/// Layout leaves a string as it is: text that begins with a string goes on,
/// laid out, with that string as written.
pub proof fn lemma_layout_keeps_string(code: Seq<char>, pos: int, n: nat)
    requires
        0 <= pos < code.len(),
        code[pos] == '"',
        string_len(code, pos + 1) == Some(n),
    ensures
        laid_out_from(code, pos) == code.subrange(pos, pos + n + 2) + laid_out_from(
            code,
            pos + n + 2,
        ),
{
}

/// Layout adds nothing to text without semicolons.
pub proof fn lemma_layout_without_semicolons(code: Seq<char>, pos: int)
    requires
        0 <= pos <= code.len(),
        forall|i: int| pos <= i < code.len() ==> code[i] != ';',
    ensures
        laid_out_from(code, pos) == code.subrange(pos, code.len() as int),
    decreases remaining(code, pos),
{
    let len = code.len() as int;
    if pos >= len {
        assert(code.subrange(pos, len) =~= Seq::<char>::empty());
    } else if code[pos] == '"' {
        match string_len(code, pos + 1) {
            Some(n) => {
                lemma_string_len_bound(code, pos + 1);
                lemma_layout_without_semicolons(code, pos + n + 2);
                assert(code.subrange(pos, pos + n + 2) + code.subrange(pos + n + 2, len)
                    =~= code.subrange(pos, len));
            },
            None => {},
        }
    } else {
        lemma_layout_without_semicolons(code, pos + 1);
        assert(seq![code[pos]] + code.subrange(pos + 1, len) =~= code.subrange(pos, len));
    }
}

/// Whether `text` can stand between two quotes as one string: the quote
/// put behind it is the first that closes it.
pub open spec fn closes_behind(text: Seq<char>) -> bool {
    string_len(text.push('"'), 0) == Some(text.len())
}

/// The layout of a text depends on nothing but the text itself, wherever
/// it stands.
proof fn lemma_laid_out_of_suffix(a: Seq<char>, b: Seq<char>, p: int, q: int)
    requires
        0 <= p <= a.len(),
        0 <= q <= b.len(),
        a.skip(p) == b.skip(q),
    ensures
        laid_out_from(a, p) == laid_out_from(b, q),
    decreases remaining(a, p),
{
    let rest = a.skip(p);
    assert(rest.len() == a.len() - p);
    assert(b.skip(q).len() == b.len() - q);
    if p < a.len() {
        assert(a[p] == rest[0]);
        assert(b[q] == b.skip(q)[0]);
        assert(a.skip(p + 1) =~= rest.skip(1));
        assert(b.skip(q + 1) =~= b.skip(q).skip(1));
        if a[p] == '"' {
            lemma_string_len_of_suffix(a, b, p + 1, q + 1);
            match string_len(a, p + 1) {
                Some(n) => {
                    lemma_string_len_bound(a, p + 1);
                    let k = n + 2;
                    assert(a.subrange(p, p + k) =~= rest.subrange(0, k as int));
                    assert(b.subrange(q, q + k) =~= b.skip(q).subrange(0, k as int));
                    assert(a.skip(p + k) =~= rest.skip(k as int));
                    assert(b.skip(q + k) =~= b.skip(q).skip(k as int));
                    lemma_laid_out_of_suffix(a, b, p + k, q + k);
                },
                None => {
                    assert(a.subrange(p, a.len() as int) =~= rest);
                    assert(b.subrange(q, b.len() as int) =~= b.skip(q));
                },
            }
        } else {
            lemma_laid_out_of_suffix(a, b, p + 1, q + 1);
        }
    }
}

/// Text without quotes and semicolons is laid out as it is, and what
/// follows it is laid out for itself.
pub proof fn lemma_layout_of_plain(plain: Seq<char>, rest: Seq<char>)
    requires
        forall|i: int| 0 <= i < plain.len() ==> plain[i] != '"' && plain[i] != ';',
    ensures
        laid_out(plain + rest) == plain + laid_out(rest),
    decreases plain.len(),
{
    if plain.len() == 0 {
        assert(plain + rest =~= rest);
        assert(plain + laid_out(rest) =~= laid_out(rest));
    } else {
        let code = plain + rest;
        let tail = plain.skip(1);
        assert(code[0] == plain[0]);
        assert(code.skip(1) =~= tail + rest);
        assert((tail + rest).skip(0) =~= tail + rest);
        lemma_laid_out_of_suffix(code, tail + rest, 1, 0);
        lemma_layout_of_plain(tail, rest);
        assert(seq![plain[0]] + (tail + laid_out(rest)) =~= plain + laid_out(rest));
    }
}

/// A line break goes behind a semicolon that stands outside a string, and
/// what follows it is laid out for itself.
pub proof fn lemma_layout_of_semicolon(rest: Seq<char>)
    ensures
        laid_out(seq![';'] + rest) == seq![';'] + line_break() + laid_out(rest),
{
    let code = seq![';'] + rest;
    assert(code[0] == ';');
    assert(code.skip(1) =~= rest);
    assert(rest.skip(0) =~= rest);
    lemma_laid_out_of_suffix(code, rest, 1, 0);
}

/// A string between its quotes is laid out as it is, whatever it holds, and
/// what follows it is laid out for itself.
pub proof fn lemma_layout_of_string(text: Seq<char>, rest: Seq<char>)
    requires
        closes_behind(text),
    ensures
        laid_out(quote_text(text) + rest) == quote_text(text) + laid_out(rest),
{
    reveal_strlit("\"");
    let quoted = quote_text(text);
    assert(quoted =~= seq!['"'] + text + seq!['"']);
    let code = quoted + rest;
    let len = text.len();
    let n = len as int;
    assert(code[0] == '"');
    assert(code.subrange(1, n + 2) =~= text.push('"'));
    assert(text.push('"').subrange(0, n + 1) =~= text.push('"'));
    lemma_string_len_local(text.push('"'), code, 0, 1, len);
    assert(code.subrange(0, n + 2) =~= quoted);
    assert(code.skip(n + 2) =~= rest);
    assert(rest.skip(0) =~= rest);
    lemma_laid_out_of_suffix(code, rest, n + 2, 0);
}

/// The statement of the Rust profile that pushes a string is laid out with
/// the string as the script has it, semicolons and all, and with one line
/// break, behind the statement.
pub proof fn lemma_pushed_string_is_as_written(text: Seq<char>, rest: Seq<char>)
    requires
        closes_behind(text),
    ensures
        laid_out(literal_code::<Rust>(LiteralView::String(text)) + rest) == literal_code::<Rust>(
            LiteralView::String(text),
        ) + line_break() + laid_out(rest),
{
    reveal_strlit("xasm");
    reveal_strlit(".push(");
    reveal_strlit("Value::string(");
    reveal_strlit(")");
    reveal_strlit(");");
    reveal_strlit("\"");
    let quoted = quote_text(text);
    let open = "xasm"@ + ".push("@ + "Value::string("@;
    let close = seq![')', ')'];
    let code = literal_code::<Rust>(LiteralView::String(text));
    assert(code =~= open + quoted + close + seq![';']);
    assert(code + rest =~= open + (quoted + (close + (seq![';'] + rest))));
    lemma_layout_of_plain(open, quoted + (close + (seq![';'] + rest)));
    lemma_layout_of_string(text, close + (seq![';'] + rest));
    lemma_layout_of_plain(close, seq![';'] + rest);
    lemma_layout_of_semicolon(rest);
    assert(open + (quoted + (close + (seq![';'] + line_break() + laid_out(rest)))) =~= code
        + line_break() + laid_out(rest));
}

/// Lays instruction text out: a line break and a tab behind each semicolon
/// that stands outside a string.
pub fn lay_out(code: &str) -> (text: String)
    ensures
        text@ == laid_out(code@),
{
    let source = characters(code);
    let mut text = String::new();
    let mut i: usize = 0;
    while i < source.len()
        invariant
            i <= source.len(),
            source@ == code@,
            laid_out(code@) == text@ + laid_out_from(code@, i as int),
        decreases source.len() - i,
    {
        let ghost before = text@;
        if source[i] == '"' {
            let end = match string_end(source.as_slice(), i + 1) {
                Some(quote) => quote + 1,
                None => source.len(),
            };
            let mut j = i;
            while j < end
                invariant
                    i <= j <= end <= source.len(),
                    text@ == before + source@.subrange(i as int, j as int),
                decreases end - j,
            {
                push_char(&mut text, source[j]);
                assert(source@.subrange(i as int, j + 1) =~= source@.subrange(
                    i as int,
                    j as int,
                ).push(source@[j as int]));
                j += 1;
            }
            assert(laid_out(code@) =~= text@ + laid_out_from(code@, end as int)) by {
                let kept = source@.subrange(i as int, end as int);
                assert(before + (kept + laid_out_from(code@, end as int)) =~= (before + kept)
                    + laid_out_from(code@, end as int));
                if end == source.len() {
                    assert(laid_out_from(code@, end as int) =~= Seq::<char>::empty());
                    assert(kept + Seq::<char>::empty() =~= kept);
                }
            }
            i = end;
        } else if source[i] == ';' {
            push_char(&mut text, ';');
            push_char(&mut text, '\n');
            push_char(&mut text, '\t');
            assert(before + (seq![';'] + line_break() + laid_out_from(code@, i + 1))
                =~= before.push(';').push('\n').push('\t') + laid_out_from(code@, i + 1));
            i += 1;
        } else {
            push_char(&mut text, source[i]);
            assert(before + (seq![source@[i as int]] + laid_out_from(code@, i + 1))
                =~= before.push(source@[i as int]) + laid_out_from(code@, i + 1));
            i += 1;
        }
    }
    assert(text@ + Seq::<char>::empty() =~= text@);
    text
}

} // verus!
