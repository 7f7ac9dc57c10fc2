//! Reading back what was written: the reader undoes the writer.

use crate::expr::Value;
use crate::float::{float_of_decimal, float_text};
use crate::grammar::{
    after_char, digit_value, digits_end, digits_value, expr_at, float_at, float_end, int_at,
    is_digit, is_space, is_symbol_char, items_at, number_at, parse_spec, skip_spaces,
    starts_with, string_body, symbol_end, token, unescape, ParseError,
};
use crate::render::{
    digit_char, escape, escape_char, float_literal, joined, nat_text, render_each, render_spec,
};
use vstd::prelude::*;

verus! {

/// Whether a symbol's name is one that the grammar reads as a symbol: it is
/// made of symbol characters, none of them white space, and does not begin
/// with `true`, `false` or `nil`.
pub open spec fn readable_name(name: Seq<char>) -> bool {
    &&& name.len() > 0
    &&& forall|i: int| 0 <= i < name.len() ==> is_symbol_char(#[trigger] name[i]) && !is_space(name[i])
    &&& !starts_with(name, 0, seq!['t', 'r', 'u', 'e'])
    &&& !starts_with(name, 0, seq!['f', 'a', 'l', 's', 'e'])
    &&& !starts_with(name, 0, seq!['n', 'i', 'l'])
}

/// Whether a float is written as a literal of the grammar that denotes it
/// again: digits, a dot and digits, which are read as the same float.
pub open spec fn readable_float(bits: u64) -> bool {
    let text = float_literal(float_text(bits));
    &&& float_end(text, 0) == Some(text.len() as int)
    &&& float_of_decimal(text) == Some(bits)
}

/// The values that the grammar can denote: `nil`, the booleans, the
/// integers from zero on, the floats that are written as a literal which
/// denotes them again, the strings, the symbols with a readable name, and
/// the quotes and non-empty lists of such values.
pub open spec fn readable(v: Value) -> bool
    decreases v,
{
    match v {
        Value::Nil => true,
        Value::Bool(_) => true,
        Value::Int(n) => n >= 0,
        Value::Float(bits) => readable_float(bits),
        Value::Str(_) => true,
        Value::Symbol(name) => readable_name(name),
        Value::Quote(inner) => readable(*inner),
        Value::List(items) => items.len() > 0 && forall|i: int|
            0 <= i < items.len() ==> readable(#[trigger] items[i]),
        _ => false,
    }
}

/// Whether a token that ends before `end` ends there for good: the text is
/// over, or a space or a closing parenthesis follows.
pub open spec fn delimited(s: Seq<char>, end: int) -> bool {
    end >= s.len() || s[end] == ' ' || s[end] == ')'
}

/// White space ends where a character stands that is none.
proof fn lemma_no_space(s: Seq<char>, p: int)
    requires
        0 <= p <= s.len(),
        p < s.len() ==> !is_space(s[p]),
    ensures
        skip_spaces(s, p) == p,
{
}

/// One space before a character that is none is skipped, and no more.
proof fn lemma_one_space(s: Seq<char>, p: int)
    requires
        0 <= p < s.len(),
        s[p] == ' ',
        p + 1 < s.len() ==> !is_space(s[p + 1]),
    ensures
        skip_spaces(s, p) == p + 1,
{
    lemma_no_space(s, p + 1);
}

/// A run of digits that stands in the text, with no digit behind it, is
/// where the digits end.
proof fn lemma_digits_run(s: Seq<char>, p: int, len: int, radix: int)
    requires
        0 <= p,
        0 <= len,
        p + len <= s.len(),
        forall|i: int| p <= i < p + len ==> is_digit(#[trigger] s[i], radix),
        p + len < s.len() ==> !is_digit(s[p + len], radix),
    ensures
        digits_end(s, p, radix) == p + len,
    decreases len,
{
    if len > 0 {
        lemma_digits_run(s, p + 1, len - 1, radix);
    }
}

/// Where the digits end, they have been digits all along, and what follows
/// is none.
proof fn lemma_digits_end(s: Seq<char>, p: int, radix: int)
    requires
        0 <= p <= s.len(),
    ensures
        p <= digits_end(s, p, radix) <= s.len(),
        forall|i: int| p <= i < digits_end(s, p, radix) ==> is_digit(#[trigger] s[i], radix),
        digits_end(s, p, radix) < s.len() ==> !is_digit(s[digits_end(s, p, radix)], radix),
    decreases s.len() - p,
{
    if p < s.len() && is_digit(s[p], radix) {
        lemma_digits_end(s, p + 1, radix);
    }
}

/// A run of symbol characters that stands in the text, with none behind it,
/// is where the symbol ends.
proof fn lemma_symbol_run(s: Seq<char>, p: int, len: int)
    requires
        0 <= p,
        0 <= len,
        p + len <= s.len(),
        forall|i: int| p <= i < p + len ==> is_symbol_char(#[trigger] s[i]),
        p + len < s.len() ==> !is_symbol_char(s[p + len]),
    ensures
        symbol_end(s, p) == p + len,
    decreases len,
{
    if len > 0 {
        lemma_symbol_run(s, p + 1, len - 1);
    }
}

/// The decimal text of a number is made of decimal digits and denotes the
/// number.
proof fn lemma_nat_text(n: nat)
    ensures
        nat_text(n).len() >= 1,
        forall|i: int| 0 <= i < nat_text(n).len() ==> is_digit(#[trigger] nat_text(n)[i], 10),
        digits_value(nat_text(n), 10) == n,
    decreases n,
{
    if n < 10 {
        assert(nat_text(n) =~= seq![digit_char(n as int)]);
        assert(nat_text(n).drop_last() =~= Seq::<char>::empty());
        assert(digits_value(nat_text(n).drop_last(), 10) == 0);
        assert(digit_value(digit_char(n as int)) == n);
    } else {
        lemma_nat_text(n / 10);
        let text = nat_text(n);
        assert(text.drop_last() =~= nat_text(n / 10));
        assert(text.last() == digit_char((n % 10) as int));
        assert(digit_value(digit_char((n % 10) as int)) == n % 10);
        assert forall|i: int| 0 <= i < text.len() implies is_digit(#[trigger] text[i], 10) by {
            if i < text.len() - 1 {
                assert(text[i] == nat_text(n / 10)[i]);
            }
        }
    }
}

/// A text that stands at `p` gives the characters of the text from `p` on.
proof fn lemma_starts_with(s: Seq<char>, p: int, text: Seq<char>)
    requires
        starts_with(s, p, text),
    ensures
        0 <= p,
        p + text.len() <= s.len(),
        forall|i: int| 0 <= i < text.len() ==> #[trigger] s[p + i] == text[i],
{
    assert forall|i: int| 0 <= i < text.len() implies #[trigger] s[p + i] == text[i] by {
        assert(s.subrange(p, p + text.len())[i] == s[p + i]);
    }
}

/// Characters of the text from `p` on that are those of a word make the word
/// stand at `p`.
proof fn lemma_starts_with_intro(s: Seq<char>, p: int, text: Seq<char>)
    requires
        0 <= p,
        p + text.len() <= s.len(),
        forall|i: int| 0 <= i < text.len() ==> #[trigger] s[p + i] == text[i],
    ensures
        starts_with(s, p, text),
{
    assert forall|i: int| 0 <= i < text.len() implies s.subrange(p, p + text.len())[i]
        == text[i] by {
        assert(s[p + i] == text[i]);
    }
    assert(s.subrange(p, p + text.len()) =~= text);
}

/// Where two texts stand one behind the other, each of them stands at its
/// place.
proof fn lemma_starts_with_split(s: Seq<char>, p: int, a: Seq<char>, b: Seq<char>)
    requires
        starts_with(s, p, a + b),
    ensures
        starts_with(s, p, a),
        starts_with(s, p + a.len(), b),
{
    lemma_starts_with(s, p, a + b);
    assert forall|i: int| 0 <= i < a.len() implies #[trigger] s[p + i] == a[i] by {
        assert((a + b)[i] == a[i]);
    }
    assert forall|i: int| 0 <= i < b.len() implies #[trigger] s[p + a.len() + i] == b[i] by {
        assert((a + b)[a.len() + i] == b[i]);
        assert(s[p + (a.len() + i)] == (a + b)[a.len() + i]);
    }
    lemma_starts_with_intro(s, p, a);
    lemma_starts_with_intro(s, p + a.len(), b);
}

/// An integer from zero on is read back from its decimal text.
proof fn lemma_reads_int(s: Seq<char>, p: int, n: i64)
    requires
        n >= 0,
        starts_with(s, p, nat_text(n as nat)),
        delimited(s, p + nat_text(n as nat).len()),
    ensures
        expr_at(s, p) == token(s, Value::Int(n), p + nat_text(n as nat).len()),
{
    let text = nat_text(n as nat);
    let end = p + text.len();
    lemma_nat_text(n as nat);
    lemma_starts_with(s, p, text);
    assert(s[p + 0] == text[0]);
    assert forall|i: int| p <= i < end implies is_digit(#[trigger] s[i], 10) by {
        assert(s[p + (i - p)] == text[i - p]);
    }
    lemma_digits_run(s, p, text.len() as int, 10);
    assert(!starts_with(s, p, seq!['t', 'r', 'u', 'e'])) by {
        if starts_with(s, p, seq!['t', 'r', 'u', 'e']) {
            lemma_starts_with(s, p, seq!['t', 'r', 'u', 'e']);
            assert(s[p + 0] == 't');
        }
    }
    assert(!starts_with(s, p, seq!['f', 'a', 'l', 's', 'e'])) by {
        if starts_with(s, p, seq!['f', 'a', 'l', 's', 'e']) {
            lemma_starts_with(s, p, seq!['f', 'a', 'l', 's', 'e']);
            assert(s[p + 0] == 'f');
        }
    }
    assert(float_end(s, p) is None);
    assert(!starts_with(s, p, seq!['0', 'b'])) by {
        if starts_with(s, p, seq!['0', 'b']) {
            lemma_starts_with(s, p, seq!['0', 'b']);
            assert(s[p + 1] == 'b');
            if text.len() >= 2 {
                assert(s[p + 1] == text[1]);
            }
        }
    }
    assert(!starts_with(s, p, seq!['0', 'x'])) by {
        if starts_with(s, p, seq!['0', 'x']) {
            lemma_starts_with(s, p, seq!['0', 'x']);
            assert(s[p + 1] == 'x');
            if text.len() >= 2 {
                assert(s[p + 1] == text[1]);
            }
        }
    }
    assert(s.subrange(p, end) == text);
    assert(int_at(s, p) == number_at(s, p, 10));
}

/// A float that is written as a literal which denotes it again is read back
/// from that literal.
proof fn lemma_reads_float(s: Seq<char>, p: int, bits: u64)
    requires
        readable_float(bits),
        starts_with(s, p, float_literal(float_text(bits))),
        delimited(s, p + float_literal(float_text(bits)).len()),
    ensures
        expr_at(s, p) == token(
            s,
            Value::Float(bits),
            p + float_literal(float_text(bits)).len(),
        ),
{
    let text = float_literal(float_text(bits));
    let len = text.len() as int;
    let dot = digits_end(text, 0, 10);
    lemma_digits_end(text, 0, 10);
    lemma_digits_end(text, dot + 1, 10);
    lemma_starts_with(s, p, text);
    assert(s[p + 0] == text[0]);
    assert(s[p + dot] == text[dot]);
    assert forall|i: int| p <= i < p + dot implies is_digit(#[trigger] s[i], 10) by {
        assert(s[p + (i - p)] == text[i - p]);
    }
    lemma_digits_run(s, p, dot, 10);
    assert forall|i: int| p + dot + 1 <= i < p + len implies is_digit(#[trigger] s[i], 10) by {
        assert(s[p + (i - p)] == text[i - p]);
    }
    lemma_digits_run(s, p + dot + 1, len - dot - 1, 10);
    assert(float_end(s, p) == Some(p + len));
    assert(!starts_with(s, p, seq!['t', 'r', 'u', 'e'])) by {
        if starts_with(s, p, seq!['t', 'r', 'u', 'e']) {
            lemma_starts_with(s, p, seq!['t', 'r', 'u', 'e']);
            assert(s[p + 0] == 't');
        }
    }
    assert(!starts_with(s, p, seq!['f', 'a', 'l', 's', 'e'])) by {
        if starts_with(s, p, seq!['f', 'a', 'l', 's', 'e']) {
            lemma_starts_with(s, p, seq!['f', 'a', 'l', 's', 'e']);
            assert(s[p + 0] == 'f');
        }
    }
    assert(s.subrange(p, p + len) == text);
    assert(expr_at(s, p) == float_at(s, p, p + len));
}

/// A symbol with a readable name is read back from its name.
proof fn lemma_reads_symbol(s: Seq<char>, p: int, name: Seq<char>)
    requires
        readable_name(name),
        starts_with(s, p, name),
        delimited(s, p + name.len()),
    ensures
        expr_at(s, p) == token(s, Value::Symbol(name), p + name.len()),
{
    let end = p + name.len();
    lemma_starts_with(s, p, name);
    assert(s[p + 0] == name[0]);
    assert forall|i: int| p <= i < end implies is_symbol_char(#[trigger] s[i]) by {
        assert(s[p + (i - p)] == name[i - p]);
    }
    lemma_symbol_run(s, p, name.len() as int);
    lemma_not_keyword(s, p, name, seq!['t', 'r', 'u', 'e']);
    lemma_not_keyword(s, p, name, seq!['f', 'a', 'l', 's', 'e']);
    lemma_not_keyword(s, p, name, seq!['n', 'i', 'l']);
    assert(s.subrange(p, end) == name);
    assert(!is_digit(s[p], 10));
}

/// A keyword that does not begin a name does not stand where the name
/// stands, if the name ends there for good.
proof fn lemma_not_keyword(s: Seq<char>, p: int, name: Seq<char>, word: Seq<char>)
    requires
        starts_with(s, p, name),
        delimited(s, p + name.len()),
        !starts_with(name, 0, word),
        forall|i: int| 0 <= i < word.len() ==> #[trigger] word[i] != ' ' && word[i] != ')',
    ensures
        !starts_with(s, p, word),
{
    if starts_with(s, p, word) {
        lemma_starts_with(s, p, word);
        lemma_starts_with(s, p, name);
        if name.len() >= word.len() {
            assert forall|i: int| 0 <= i < word.len() implies #[trigger] name[0 + i]
                == word[i] by {
                assert(s[p + i] == word[i]);
                assert(s[p + i] == name[i]);
            }
            lemma_starts_with_intro(name, 0, word);
        } else {
            let k = name.len() as int;
            assert(s[p + k] == word[k]);
        }
    }
}

/// A string is read back from its escaped text and the closing quote.
proof fn lemma_reads_string_body(s: Seq<char>, p: int, text: Seq<char>)
    requires
        starts_with(s, p, escape(text) + seq!['"']),
    ensures
        string_body(s, p) == Ok::<(Seq<char>, int), ParseError>(
            (text, p + escape(text).len() + 1),
        ),
    decreases text.len(),
{
    let whole = escape(text) + seq!['"'];
    lemma_starts_with(s, p, whole);
    if text.len() == 0 {
        assert(s[p + 0] == whole[0]);
        assert(text =~= Seq::<char>::empty());
    } else {
        let c = text[0];
        let rest = text.drop_first();
        let head = escape_char(c);
        assert(whole =~= head + (escape(rest) + seq!['"']));
        lemma_starts_with_split(s, p, head, escape(rest) + seq!['"']);
        lemma_starts_with(s, p, head);
        lemma_reads_string_body(s, p + head.len(), rest);
        assert(s[p + 0] == head[0]);
        assert(seq![c] + rest =~= text);
        assert(escape(text).len() == head.len() + escape(rest).len());
        if c == '"' || c == '\\' || c == '\n' || c == '\r' || c == '\t' {
            assert(head.len() == 2);
            assert(s[p + 1] == head[1]);
            assert(s[p] == '\\');
            assert(unescape(s[p + 1]) == Some(c));
            assert(string_body(s, p) == after_char(c, string_body(s, p + 2)));
        } else {
            assert(head.len() == 1);
            assert(s[p] == c);
            assert(string_body(s, p) == after_char(c, string_body(s, p + 1)));
        }
    }
}

/// The text of a readable value is not empty, and begins with a character
/// that is neither white space nor a closing parenthesis.
proof fn lemma_first_char(v: Value)
    requires
        readable(v),
    ensures
        render_spec(v).len() > 0,
        !is_space(render_spec(v)[0]),
        render_spec(v)[0] != ')',
{
    match v {
        Value::Int(n) => {
            lemma_nat_text(n as nat);
            assert(is_digit(nat_text(n as nat)[0], 10));
        },
        Value::Float(bits) => {
            let text = float_literal(float_text(bits));
            lemma_digits_end(text, 0, 10);
            assert(is_digit(text[0], 10));
        },
        Value::Symbol(name) => {
            assert(is_symbol_char(name[0]) && !is_space(name[0]));
        },
        _ => {},
    }
}

/// The text that is left of a list from its item `k` on: the items, one
/// space between each two, and the closing parenthesis.
pub open spec fn remainder(items: Seq<Value>, k: int) -> Seq<char> {
    joined(render_each(items).skip(k), seq![' ']) + seq![')']
}

/// A readable value is read back from its text, wherever the text stands,
/// if it ends there for good.
proof fn lemma_reads_back(s: Seq<char>, p: int, v: Value)
    requires
        readable(v),
        starts_with(s, p, render_spec(v)),
        delimited(s, p + render_spec(v).len()),
    ensures
        expr_at(s, p) == Ok::<(Value, int), ParseError>(
            (v, skip_spaces(s, p + render_spec(v).len())),
        ),
    decreases v, 0nat,
{
    let text = render_spec(v);
    let end = p + text.len();
    lemma_first_char(v);
    lemma_starts_with(s, p, text);
    assert(s[p + 0] == text[0]);
    match v {
        Value::Nil => {
            assert(!starts_with(s, p, seq!['t', 'r', 'u', 'e'])) by {
                if starts_with(s, p, seq!['t', 'r', 'u', 'e']) {
                    lemma_starts_with(s, p, seq!['t', 'r', 'u', 'e']);
                    assert(s[p + 0] == 't');
                }
            }
            assert(!starts_with(s, p, seq!['f', 'a', 'l', 's', 'e'])) by {
                if starts_with(s, p, seq!['f', 'a', 'l', 's', 'e']) {
                    lemma_starts_with(s, p, seq!['f', 'a', 'l', 's', 'e']);
                    assert(s[p + 0] == 'f');
                }
            }
        },
        Value::Bool(b) => {
            if !b {
                assert(!starts_with(s, p, seq!['t', 'r', 'u', 'e'])) by {
                    if starts_with(s, p, seq!['t', 'r', 'u', 'e']) {
                        lemma_starts_with(s, p, seq!['t', 'r', 'u', 'e']);
                        assert(s[p + 0] == 't');
                    }
                }
            }
        },
        Value::Int(n) => {
            lemma_reads_int(s, p, n);
        },
        Value::Float(bits) => {
            lemma_reads_float(s, p, bits);
        },
        Value::Symbol(name) => {
            lemma_reads_symbol(s, p, name);
        },
        Value::Str(content) => {
            lemma_no_word(s, p);
            assert(text =~= seq!['"'] + (escape(content) + seq!['"']));
            lemma_starts_with_split(s, p, seq!['"'], escape(content) + seq!['"']);
            lemma_reads_string_body(s, p + 1, content);
        },
        Value::Quote(inner) => {
            lemma_no_word(s, p);
            lemma_starts_with_split(s, p, seq!['\''], render_spec(*inner));
            lemma_reads_back(s, p + 1, *inner);
        },
        Value::List(items) => {
            lemma_no_word(s, p);
            let body = joined(render_each(items), seq![' ']);
            assert(text =~= seq!['('] + (body + seq![')']));
            lemma_starts_with_split(s, p, seq!['('], body + seq![')']);
            assert(render_each(items).skip(0) =~= render_each(items));
            lemma_first_char(items[0]);
            lemma_remainder_first(items, 0);
            lemma_starts_with(s, p + 1, remainder(items, 0));
            assert(s[p + 1 + 0] == remainder(items, 0)[0]);
            lemma_no_space(s, p + 1);
            lemma_reads_items(s, p + 1, items, 0);
            assert(items.skip(0) =~= items);
        },
        _ => {},
    }
}

/// Where a quote, a parenthesis or a double quote stands, no keyword, number
/// or symbol starts.
proof fn lemma_no_word(s: Seq<char>, p: int)
    requires
        0 <= p < s.len(),
        s[p] == '"' || s[p] == '\'' || s[p] == '(',
    ensures
        !starts_with(s, p, seq!['t', 'r', 'u', 'e']),
        !starts_with(s, p, seq!['f', 'a', 'l', 's', 'e']),
        !starts_with(s, p, seq!['n', 'i', 'l']),
        !is_digit(s[p], 10),
        !is_symbol_char(s[p]),
{
    if starts_with(s, p, seq!['t', 'r', 'u', 'e']) {
        lemma_starts_with(s, p, seq!['t', 'r', 'u', 'e']);
        assert(s[p + 0] == 't');
    }
    if starts_with(s, p, seq!['f', 'a', 'l', 's', 'e']) {
        lemma_starts_with(s, p, seq!['f', 'a', 'l', 's', 'e']);
        assert(s[p + 0] == 'f');
    }
    if starts_with(s, p, seq!['n', 'i', 'l']) {
        lemma_starts_with(s, p, seq!['n', 'i', 'l']);
        assert(s[p + 0] == 'n');
    }
}

/// What is left of a list from an item on begins with the text of that item.
proof fn lemma_remainder_first(items: Seq<Value>, k: int)
    requires
        0 <= k < items.len(),
        forall|i: int| 0 <= i < items.len() ==> readable(#[trigger] items[i]),
    ensures
        remainder(items, k).len() > render_spec(items[k]).len(),
        remainder(items, k)[0] == render_spec(items[k])[0],
        k + 1 == items.len() ==> remainder(items, k) == render_spec(items[k]) + seq![')'],
        k + 1 < items.len() ==> remainder(items, k) == render_spec(items[k]) + (seq![' ']
            + remainder(items, k + 1)),
{
    let parts = render_each(items).skip(k);
    let first = render_spec(items[k]);
    lemma_first_char(items[k]);
    assert(parts[0] == first);
    if k + 1 == items.len() {
        assert(parts.len() == 1);
    } else {
        assert(parts.drop_first() =~= render_each(items).skip(k + 1));
        assert(remainder(items, k) =~= first + (seq![' '] + remainder(items, k + 1)));
    }
}

/// The items of a list from item `k` on are read back from what is left of
/// the list's text.
proof fn lemma_reads_items(s: Seq<char>, p: int, items: Seq<Value>, k: int)
    requires
        0 <= k < items.len(),
        forall|i: int| 0 <= i < items.len() ==> readable(#[trigger] items[i]),
        starts_with(s, p, remainder(items, k)),
    ensures
        items_at(s, p) == Ok::<(Seq<Value>, int), ParseError>(
            (items.skip(k), skip_spaces(s, p + remainder(items, k).len())),
        ),
    decreases items, items.len() - k,
{
    let item = items[k];
    let text = render_spec(item);
    let close = p + text.len();
    lemma_first_char(item);
    lemma_remainder_first(items, k);
    lemma_starts_with(s, p, remainder(items, k));
    assert(s[p + 0] == remainder(items, k)[0]);
    if k + 1 == items.len() {
        lemma_starts_with_split(s, p, text, seq![')']);
        lemma_starts_with(s, close, seq![')']);
        assert(s[close + 0] == ')');
        lemma_reads_back(s, p, item);
        lemma_no_space(s, close);
        assert(items_at(s, close) == Ok::<(Seq<Value>, int), ParseError>(
            (Seq::<Value>::empty(), skip_spaces(s, close + 1)),
        ));
        assert(seq![item] + Seq::<Value>::empty() =~= items.skip(k));
    } else {
        let rest = seq![' '] + remainder(items, k + 1);
        lemma_starts_with_split(s, p, text, rest);
        lemma_starts_with_split(s, close, seq![' '], remainder(items, k + 1));
        lemma_starts_with(s, close, seq![' ']);
        assert(s[close + 0] == ' ');
        lemma_reads_back(s, p, item);
        lemma_first_char(items[k + 1]);
        lemma_remainder_first(items, k + 1);
        lemma_starts_with(s, close + 1, remainder(items, k + 1));
        assert(s[close + 1 + 0] == remainder(items, k + 1)[0]);
        lemma_one_space(s, close);
        lemma_reads_items(s, close + 1, items, k + 1);
        assert(seq![item] + items.skip(k + 1) =~= items.skip(k));
    }
}

/// Every value that the grammar can denote is read back from its canonical
/// text.
pub proof fn law_round_trip(v: Value)
    requires
        readable(v),
    ensures
        parse_spec(render_spec(v)) == Ok::<Value, ParseError>(v),
{
    let s = render_spec(v);
    lemma_first_char(v);
    lemma_no_space(s, 0);
    assert(s.subrange(0, 0 + s.len() as int) =~= s);
    lemma_reads_back(s, 0, v);
    lemma_no_space(s, s.len() as int);
}

} // verus!
