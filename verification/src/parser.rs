//! The reader: it computes what the grammar says.

use crate::expr::{lemma_list_view, values_of, Expr, Value};
use crate::float::float_parse;
use crate::grammar::{
    alphabetic, describe, digit_value, digits_end, digits_value, expr_at, float_at, float_end,
    int_at, is_digit, is_letter, is_space, is_symbol_char, items_at, number_at, parse_spec,
    skip_spaces, spaces_end, starts_with, string_at, string_body, symbol_end, token, unescape,
    whitespace, ParseError, ParseErrorKind, Reading,
};
use crate::render::{nat_chars, nat_text};
use crate::text::{chars_of, string_of};
use vstd::prelude::*;
use vstd::string::*;

verus! {

impl ParseError {
    /// The error in words: where the text goes wrong, and why.
    pub fn message(&self) -> (r: String)
        ensures
            r@ == "Parse error at position "@ + nat_text(self.position as nat) + ": "@ + describe(
                self.kind,
            ),
    {
        let mut out = String::from_str("Parse error at position ");
        out.append(string_of(&nat_chars(self.position as u64)).as_str());
        out.append(": ");
        out.append(
            match self.kind {
                ParseErrorKind::ExpectedExpression => "expected an expression",
                ParseErrorKind::TrailingInput => "unexpected input behind the expression",
                ParseErrorKind::MalformedNumber => "expected digits behind the prefix of the number",
                ParseErrorKind::IntegerOutOfRange => "integer does not fit in 64 bits",
                ParseErrorKind::FloatOutOfRange => "malformed float",
                ParseErrorKind::UnterminatedString => "string without closing quote",
                ParseErrorKind::UnknownEscape => "unknown escape in string",
                ParseErrorKind::UnclosedList => "list without closing parenthesis",
            },
        );
        out
    }
}

/// Whether an executable reading gives what the grammar gives.
pub open spec fn reads(r: Result<(Expr, usize), ParseError>, m: Reading<Value>) -> bool {
    match r {
        Ok((e, end)) => m == Ok::<(Value, int), ParseError>((e@, end as int)),
        Err(e) => m == Err::<(Value, int), ParseError>(e),
    }
}

/// Whether a reading, where it gives a value, ends behind `p` and inside
/// the text.
pub open spec fn advances(r: Result<(Expr, usize), ParseError>, p: usize, len: usize) -> bool {
    match r {
        Ok((_, end)) => p < end <= len,
        Err(_) => true,
    }
}

/// Whether a character is a letter.
fn is_letter_char(c: char) -> (r: bool)
    ensures
        r == is_letter(c),
{
    if c <= '\u{7f}' {
        ('a' <= c && c <= 'z') || ('A' <= c && c <= 'Z')
    } else {
        alphabetic(c)
    }
}

/// Whether a character is white space.
fn is_space_char(c: char) -> (r: bool)
    ensures
        r == is_space(c),
{
    if c <= '\u{7f}' {
        c == ' ' || ('\t' <= c && c <= '\r')
    } else {
        whitespace(c)
    }
}

/// Whether a symbol can hold a character.
fn is_symbol_character(c: char) -> (r: bool)
    ensures
        r == is_symbol_char(c),
{
    is_letter_char(c) || c == '+' || c == '-' || c == '*' || c == '/' || c == '^' || c == '&'
        || c == '|' || c == '%' || c == '!' || c == '='
}

/// The value of a digit, or sixteen for what is none.
fn digit(c: char) -> (r: u8)
    ensures
        r == digit_value(c),
{
    if '0' <= c && c <= '9' {
        ((c as u32) - ('0' as u32)) as u8
    } else if 'a' <= c && c <= 'f' {
        ((c as u32) - ('a' as u32) + 10) as u8
    } else if 'A' <= c && c <= 'F' {
        ((c as u32) - ('A' as u32) + 10) as u8
    } else {
        16
    }
}

/// The place behind the white space that starts at `p`.
fn spaces(s: &Vec<char>, p: usize) -> (r: usize)
    requires
        p <= s.len(),
    ensures
        r == skip_spaces(s@, p as int),
        p <= r <= s.len(),
{
    let mut i: usize = p;
    while i < s.len() && is_space_char(s[i])
        invariant
            p <= i <= s.len(),
            spaces_end(s@, p as int) == spaces_end(s@, i as int),
        decreases s.len() - i,
    {
        i += 1;
    }
    i
}

/// The place behind the digits of the given base that start at `p`.
fn digits(s: &Vec<char>, p: usize, radix: u8) -> (r: usize)
    requires
        p <= s.len(),
    ensures
        r == digits_end(s@, p as int, radix as int),
        p <= r <= s.len(),
{
    let mut i: usize = p;
    while i < s.len() && digit(s[i]) < radix
        invariant
            p <= i <= s.len(),
            digits_end(s@, p as int, radix as int) == digits_end(s@, i as int, radix as int),
        decreases s.len() - i,
    {
        i += 1;
    }
    i
}

/// Whether the word stands in the text at `p`.
fn has_word(s: &Vec<char>, p: usize, word: &Vec<char>) -> (r: bool)
    requires
        p <= s.len(),
    ensures
        r == starts_with(s@, p as int, word@),
{
    if word.len() > s.len() - p {
        return false;
    }
    let mut i: usize = 0;
    while i < word.len()
        invariant
            i <= word.len(),
            p + word.len() <= s.len(),
            forall|j: int| 0 <= j < i ==> s@[p + j] == word@[j],
        decreases word.len() - i,
    {
        if s[p + i] != word[i] {
            assert(s@.subrange(p as int, p + word.len())[i as int] != word@[i as int]);
            return false;
        }
        i += 1;
    }
    assert(s@.subrange(p as int, p + word.len()) =~= word@);
    true
}

/// The characters of the text from `from` up to `to`, as a string.
fn slice(s: &Vec<char>, from: usize, to: usize) -> (r: String)
    requires
        from <= to <= s.len(),
    ensures
        r@ == s@.subrange(from as int, to as int),
{
    let mut out: Vec<char> = Vec::new();
    let mut i: usize = from;
    while i < to
        invariant
            from <= i <= to,
            to <= s.len(),
            out@ == s@.subrange(from as int, i as int),
        decreases to - i,
    {
        out.push(s[i]);
        assert(s@.subrange(from as int, i + 1) =~= s@.subrange(from as int, i as int).push(
            s@[i as int],
        ));
        i += 1;
    }
    string_of(&out)
}

/// A value read, with the place behind the white space that follows it.
fn token_of(s: &Vec<char>, e: Expr, end: usize) -> (r: (Expr, usize))
    requires
        end <= s.len(),
    ensures
        Ok::<(Value, int), ParseError>((r.0@, r.1 as int)) == token(s@, e@, end as int),
        end <= r.1 <= s.len(),
{
    (e, spaces(s, end))
}

/// `true` or `false`, if one of them stands at `p`.
fn boolean(s: &Vec<char>, p: usize) -> (r: Option<(Expr, usize)>)
    requires
        p < s.len(),
    ensures
        match r {
            Some((e, end)) => {
                &&& p < end <= s.len()
                &&& if starts_with(s@, p as int, seq!['t', 'r', 'u', 'e']) {
                    token(s@, Value::Bool(true), p + 4) == Ok::<(Value, int), ParseError>(
                        (e@, end as int),
                    )
                } else {
                    &&& starts_with(s@, p as int, seq!['f', 'a', 'l', 's', 'e'])
                    &&& token(s@, Value::Bool(false), p + 5) == Ok::<(Value, int), ParseError>(
                        (e@, end as int),
                    )
                }
            },
            None => !starts_with(s@, p as int, seq!['t', 'r', 'u', 'e']) && !starts_with(
                s@,
                p as int,
                seq!['f', 'a', 'l', 's', 'e'],
            ),
        },
{
    let yes = vec!['t', 'r', 'u', 'e'];
    let no = vec!['f', 'a', 'l', 's', 'e'];
    assert(yes@ =~= seq!['t', 'r', 'u', 'e']);
    assert(no@ =~= seq!['f', 'a', 'l', 's', 'e']);
    if has_word(s, p, &yes) {
        Some(token_of(s, Expr::Bool(true), p + 4))
    } else if has_word(s, p, &no) {
        Some(token_of(s, Expr::Bool(false), p + 5))
    } else {
        None
    }
}

/// `nil`, if it stands at `p`.
fn nil(s: &Vec<char>, p: usize) -> (r: Option<(Expr, usize)>)
    requires
        p < s.len(),
    ensures
        match r {
            Some((e, end)) => {
                &&& p < end <= s.len()
                &&& starts_with(s@, p as int, seq!['n', 'i', 'l'])
                &&& token(s@, Value::Nil, p + 3) == Ok::<(Value, int), ParseError>(
                    (e@, end as int),
                )
            },
            None => !starts_with(s@, p as int, seq!['n', 'i', 'l']),
        },
{
    let word = vec!['n', 'i', 'l'];
    assert(word@ =~= seq!['n', 'i', 'l']);
    if has_word(s, p, &word) {
        Some(token_of(s, Expr::Nil, p + 3))
    } else {
        None
    }
}

/// The symbol that starts at `p`.
fn symbol(s: &Vec<char>, p: usize) -> (r: (Expr, usize))
    requires
        p < s.len(),
        is_symbol_char(s@[p as int]),
    ensures
        token(s@, Value::Symbol(s@.subrange(p as int, symbol_end(s@, p as int))), symbol_end(s@, p as int))
            == Ok::<(Value, int), ParseError>((r.0@, r.1 as int)),
        p < r.1 <= s.len(),
{
    let mut i: usize = p;
    while i < s.len() && is_symbol_character(s[i])
        invariant
            p <= i <= s.len(),
            symbol_end(s@, p as int) == symbol_end(s@, i as int),
            i == p ==> is_symbol_char(s@[p as int]),
        decreases s.len() - i,
    {
        i += 1;
    }
    token_of(s, Expr::Symbol(slice(s, p, i)), i)
}

/// One more digit never makes a number smaller.
proof fn lemma_digits_grow(v: int, radix: int, d: int)
    requires
        v >= 0,
        radix >= 1,
        d >= 0,
    ensures
        v * radix + d >= v,
{
    assert(v * radix >= v) by (nonlinear_arith)
        requires
            v >= 0,
            radix >= 1,
    ;
}

/// A number that fits in 64 bits, times its base, fits in 128.
proof fn lemma_digits_bound(acc: int, radix: int)
    requires
        0 <= acc <= i64::MAX,
        1 <= radix <= 16,
    ensures
        0 <= acc * radix <= i64::MAX * 16,
{
    assert(0 <= acc * radix <= i64::MAX * 16) by (nonlinear_arith)
        requires
            0 <= acc <= i64::MAX,
            1 <= radix <= 16,
    ;
}

/// The integer whose digits of the given base start at `p`.
fn number(s: &Vec<char>, p: usize, radix: u8) -> (r: Result<(Expr, usize), ParseError>)
    requires
        p <= s.len(),
        1 <= radix <= 16,
    ensures
        reads(r, number_at(s@, p as int, radix as int)),
        advances(r, p, s.len()),
{
    let mut i: usize = p;
    let mut acc: u64 = 0;
    let mut too_large = false;
    assert(s@.subrange(p as int, p as int) =~= Seq::<char>::empty());
    while i < s.len() && digit(s[i]) < radix
        invariant
            p <= i <= s.len(),
            1 <= radix <= 16,
            digits_end(s@, p as int, radix as int) == digits_end(s@, i as int, radix as int),
            digits_value(s@.subrange(p as int, i as int), radix as int) >= 0,
            !too_large ==> acc == digits_value(s@.subrange(p as int, i as int), radix as int)
                && acc <= i64::MAX,
            too_large ==> digits_value(s@.subrange(p as int, i as int), radix as int)
                > i64::MAX,
        decreases s.len() - i,
    {
        let d = digit(s[i]);
        proof {
            let before = s@.subrange(p as int, i as int);
            let now = s@.subrange(p as int, i + 1);
            assert(now.drop_last() =~= before);
            assert(now.last() == s@[i as int]);
            lemma_digits_grow(digits_value(before, radix as int), radix as int, d as int);
            if !too_large {
                lemma_digits_bound(acc as int, radix as int);
            }
        }
        if !too_large {
            let wide: u128 = (acc as u128) * (radix as u128) + (d as u128);
            if wide > 0x7fff_ffff_ffff_ffff {
                too_large = true;
            } else {
                acc = wide as u64;
            }
        }
        i += 1;
    }
    if i == p {
        Err(ParseError { position: p, kind: ParseErrorKind::MalformedNumber })
    } else if too_large {
        Err(ParseError { position: p, kind: ParseErrorKind::IntegerOutOfRange })
    } else {
        Ok(token_of(s, Expr::Int(acc as i64), i))
    }
}

/// The integer that starts at `p`: binary behind `0b`, hexadecimal behind
/// `0x`, decimal otherwise.
fn integer(s: &Vec<char>, p: usize) -> (r: Result<(Expr, usize), ParseError>)
    requires
        p < s.len(),
        is_digit(s@[p as int], 10),
    ensures
        reads(r, int_at(s@, p as int)),
        advances(r, p, s.len()),
{
    let binary = vec!['0', 'b'];
    let hex = vec!['0', 'x'];
    assert(binary@ =~= seq!['0', 'b']);
    assert(hex@ =~= seq!['0', 'x']);
    if has_word(s, p, &binary) {
        number(s, p + 2, 2)
    } else if has_word(s, p, &hex) {
        number(s, p + 2, 16)
    } else {
        number(s, p, 10)
    }
}

/// The float that starts at `p`, if a float literal stands there: decimal
/// digits, a dot and decimal digits again.
fn float(s: &Vec<char>, p: usize) -> (r: Option<Result<(Expr, usize), ParseError>>)
    requires
        p < s.len(),
    ensures
        match r {
            Some(reading) => {
                &&& float_end(s@, p as int) is Some
                &&& reads(reading, float_at(s@, p as int, float_end(s@, p as int)->Some_0))
                &&& advances(reading, p, s.len())
            },
            None => float_end(s@, p as int) is None,
        },
{
    let dot = digits(s, p, 10);
    if p < dot && dot < s.len() && s[dot] == '.' {
        let end = digits(s, dot + 1, 10);
        if dot + 1 < end {
            let literal = slice(s, p, end);
            return Some(
                match float_parse(literal.as_str()) {
                    Some(bits) => Ok(token_of(s, Expr::Float(bits), end)),
                    None => Err(
                        ParseError { position: p, kind: ParseErrorKind::FloatOutOfRange },
                    ),
                },
            );
        }
    }
    None
}

/// The string whose opening quote stands at `p`.
fn sstring(s: &Vec<char>, p: usize) -> (r: Result<(Expr, usize), ParseError>)
    requires
        p < s.len(),
        s@[p as int] == '"',
    ensures
        reads(r, string_at(s@, p as int)),
        advances(r, p, s.len()),
{
    let mut text: Vec<char> = Vec::new();
    let mut i: usize = p + 1;
    loop
        invariant
            p < i <= s.len(),
            string_body(s@, p + 1) == match string_body(s@, i as int) {
                Ok((rest, end)) => Ok::<(Seq<char>, int), ParseError>((text@ + rest, end)),
                Err(e) => Err(e),
            },
        decreases s.len() - i,
    {
        if i >= s.len() {
            return Err(
                ParseError { position: s.len(), kind: ParseErrorKind::UnterminatedString },
            );
        }
        let c = s[i];
        if c == '"' {
            assert(text@ + Seq::<char>::empty() =~= text@);
            return Ok(token_of(s, Expr::Str(string_of(&text)), i + 1));
        }
        let ghost before = text@;
        if c == '\\' {
            if i + 1 >= s.len() {
                return Err(
                    ParseError { position: s.len(), kind: ParseErrorKind::UnterminatedString },
                );
            }
            let e = s[i + 1];
            let plain = if e == '"' {
                '"'
            } else if e == '\\' {
                '\\'
            } else if e == 'n' {
                '\n'
            } else if e == 'r' {
                '\r'
            } else if e == 't' {
                '\t'
            } else {
                return Err(ParseError { position: i + 1, kind: ParseErrorKind::UnknownEscape });
            };
            assert(unescape(e) == Some(plain));
            text.push(plain);
            proof {
                match string_body(s@, i + 2) {
                    Ok((rest, end)) => {
                        assert(before + (seq![plain] + rest) =~= text@ + rest);
                    },
                    Err(_) => {},
                }
            }
            i += 2;
        } else {
            text.push(c);
            proof {
                match string_body(s@, i + 1) {
                    Ok((rest, end)) => {
                        assert(before + (seq![c] + rest) =~= text@ + rest);
                    },
                    Err(_) => {},
                }
            }
            i += 1;
        }
    }
}

/// The list whose opening parenthesis stands at `p`; `Nil` where it has no
/// items.
fn list(s: &Vec<char>, p: usize) -> (r: Result<(Expr, usize), ParseError>)
    requires
        p < s.len(),
        s@[p as int] == '(',
    ensures
        reads(
            r,
            match items_at(s@, skip_spaces(s@, p + 1)) {
                Ok((items, end)) => if items.len() == 0 {
                    Ok((Value::Nil, end))
                } else {
                    Ok((Value::List(items), end))
                },
                Err(e) => Err(e),
            },
        ),
        advances(r, p, s.len()),
    decreases s.len() - p, 0int,
{
    let mut items: Vec<Expr> = Vec::new();
    let start = spaces(s, p + 1);
    let mut i: usize = start;
    proof {
        lemma_list_view(items@);
    }
    loop
        invariant
            p < i <= s.len(),
            start == skip_spaces(s@, p + 1),
            items_at(s@, start as int) == match items_at(s@, i as int) {
                Ok((rest, end)) => Ok::<(Seq<Value>, int), ParseError>(
                    (values_of(items@) + rest, end),
                ),
                Err(e) => Err(e),
            },
        decreases s.len() - i,
    {
        if i >= s.len() {
            return Err(ParseError { position: s.len(), kind: ParseErrorKind::UnclosedList });
        }
        if s[i] == ')' {
            let end = spaces(s, i + 1);
            proof {
                lemma_list_view(items@);
                assert(values_of(items@) + Seq::<Value>::empty() =~= values_of(items@));
            }
            if items.len() == 0 {
                return Ok((Expr::Nil, end));
            } else {
                return Ok((Expr::List(items), end));
            }
        }
        match expr(s, i) {
            Ok((item, next)) => {
                proof {
                    let ghost before = values_of(items@);
                    lemma_list_view(items@);
                    lemma_list_view(items@.push(item));
                    assert(values_of(items@.push(item)) =~= before.push(item@));
                    match items_at(s@, next as int) {
                        Ok((rest, end)) => {
                            assert(before + (seq![item@] + rest) =~= before.push(item@) + rest);
                        },
                        Err(_) => {},
                    }
                }
                items.push(item);
                i = next;
            },
            Err(e) => {
                return Err(e);
            },
        }
    }
}

/// The expression that starts at `p`.
fn expr(s: &Vec<char>, p: usize) -> (r: Result<(Expr, usize), ParseError>)
    requires
        p <= s.len(),
    ensures
        reads(r, expr_at(s@, p as int)),
        advances(r, p, s.len()),
    decreases s.len() - p, 1int,
{
    if p >= s.len() {
        return Err(ParseError { position: s.len(), kind: ParseErrorKind::ExpectedExpression });
    }
    match boolean(s, p) {
        Some(found) => {
            return Ok(found);
        },
        None => {},
    }
    let c = s[p];
    if digit(c) < 10 {
        return match float(s, p) {
            Some(reading) => reading,
            None => integer(s, p),
        };
    }
    match nil(s, p) {
        Some(found) => {
            return Ok(found);
        },
        None => {},
    }
    if is_symbol_character(c) {
        Ok(symbol(s, p))
    } else if c == '(' {
        list(s, p)
    } else if c == '"' {
        sstring(s, p)
    } else if c == '\'' {
        match expr(s, p + 1) {
            Ok((quoted, end)) => Ok((Expr::Quote(Box::new(quoted)), end)),
            Err(e) => Err(e),
        }
    } else {
        Err(ParseError { position: p, kind: ParseErrorKind::ExpectedExpression })
    }
}

/// Reads the expression that a text denotes: white space, then at most one
/// expression, then the end of the text. A text of white space alone denotes
/// `Nil`; anything behind the expression is an error.
pub fn parse(input: &str) -> (r: Result<Expr, ParseError>)
    ensures
        match r {
            Ok(e) => parse_spec(input@) == Ok::<Value, ParseError>(e@),
            Err(e) => parse_spec(input@) == Err::<Value, ParseError>(e),
        },
{
    let s = chars_of(input);
    let start = spaces(&s, 0);
    if start >= s.len() {
        return Ok(Expr::Nil);
    }
    match expr(&s, start) {
        Ok((e, end)) => {
            if end >= s.len() {
                Ok(e)
            } else {
                Err(ParseError { position: end, kind: ParseErrorKind::TrailingInput })
            }
        },
        Err(e) => Err(e),
    }
}

} // verus!
