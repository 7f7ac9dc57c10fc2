//! The grammar, as functions from a text and a place in it to what is read
//! there.

use crate::expr::Value;
use crate::float::float_of_decimal;
use vstd::prelude::*;

verus! {

/// Why a text is no expression.
#[derive(Clone, Copy, Debug, PartialEq, Eq)]
pub enum ParseErrorKind {
    /// No expression starts where one has to.
    ExpectedExpression,
    /// The text goes on behind the expression.
    TrailingInput,
    /// No digit of the chosen base follows `0b` or `0x`.
    MalformedNumber,
    /// The digits denote no 64-bit signed integer.
    IntegerOutOfRange,
    /// The literal denotes no 64-bit float.
    FloatOutOfRange,
    /// The text ends inside a string.
    UnterminatedString,
    /// A backslash in a string stands before a character that it cannot escape.
    UnknownEscape,
    /// The text ends inside a list.
    UnclosedList,
}

/// A text that is no expression: where it goes wrong, counted in characters
/// from the start, and why.
#[derive(Clone, Copy, Debug, PartialEq, Eq)]
pub struct ParseError {
    pub position: usize,
    pub kind: ParseErrorKind,
}

/// What is wrong with a text, in words.
pub open spec fn describe(kind: ParseErrorKind) -> Seq<char> {
    match kind {
        ParseErrorKind::ExpectedExpression => "expected an expression"@,
        ParseErrorKind::TrailingInput => "unexpected input behind the expression"@,
        ParseErrorKind::MalformedNumber => "expected digits behind the prefix of the number"@,
        ParseErrorKind::IntegerOutOfRange => "integer does not fit in 64 bits"@,
        ParseErrorKind::FloatOutOfRange => "malformed float"@,
        ParseErrorKind::UnterminatedString => "string without closing quote"@,
        ParseErrorKind::UnknownEscape => "unknown escape in string"@,
        ParseErrorKind::UnclosedList => "list without closing parenthesis"@,
    }
}

/// What reading at some place gives: a value and the place behind it, or
/// the reason why nothing can be read.
pub type Reading<T> = Result<(T, int), ParseError>;

/// Whether Unicode calls a character alphabetic.
pub uninterp spec fn unicode_alphabetic(c: char) -> bool;

/// Whether Unicode calls a character white space.
pub uninterp spec fn unicode_space(c: char) -> bool;

/// Asks `char::is_alphabetic` whether a character has the Unicode property
/// Alphabetic. The answer is only named.
#[verifier::external_body]
pub(crate) fn alphabetic(c: char) -> (r: bool)
    ensures
        r == unicode_alphabetic(c),
{
    c.is_alphabetic()
}

/// Asks `char::is_whitespace` whether a character has the Unicode property
/// White_Space. The answer is only named.
#[verifier::external_body]
pub(crate) fn whitespace(c: char) -> (r: bool)
    ensures
        r == unicode_space(c),
{
    c.is_whitespace()
}

/// Whether a character is one of the first 128.
pub open spec fn is_ascii(c: char) -> bool {
    c <= '\u{7f}'
}

/// The letters: `a` to `z` and `A` to `Z`, and what Unicode calls
/// alphabetic beyond ASCII.
pub open spec fn is_letter(c: char) -> bool {
    if is_ascii(c) {
        ('a' <= c && c <= 'z') || ('A' <= c && c <= 'Z')
    } else {
        unicode_alphabetic(c)
    }
}

/// White space: the space, the controls from tab to carriage return, and
/// what Unicode calls white space beyond ASCII.
pub open spec fn is_space(c: char) -> bool {
    if is_ascii(c) {
        c == ' ' || ('\t' <= c && c <= '\r')
    } else {
        unicode_space(c)
    }
}

/// The characters that an operator symbol is made of.
pub open spec fn is_operator_char(c: char) -> bool {
    c == '+' || c == '-' || c == '*' || c == '/' || c == '^' || c == '&' || c == '|' || c == '%'
        || c == '!' || c == '='
}

/// The characters that a symbol is made of.
pub open spec fn is_symbol_char(c: char) -> bool {
    is_letter(c) || is_operator_char(c)
}

/// The value of a digit in a base up to sixteen, or the base itself for a
/// character that is no digit.
pub open spec fn digit_value(c: char) -> int {
    if '0' <= c && c <= '9' {
        c as int - '0' as int
    } else if 'a' <= c && c <= 'f' {
        c as int - 'a' as int + 10
    } else if 'A' <= c && c <= 'F' {
        c as int - 'A' as int + 10
    } else {
        16
    }
}

/// Whether a character is a digit of the given base.
pub open spec fn is_digit(c: char, radix: int) -> bool {
    digit_value(c) < radix
}

/// The number that a run of digits denotes in the given base.
pub open spec fn digits_value(digits: Seq<char>, radix: int) -> int
    decreases digits.len(),
{
    if digits.len() == 0 {
        0
    } else {
        digits_value(digits.drop_last(), radix) * radix + digit_value(digits.last())
    }
}

/// The place behind the run of white space that starts at `p`.
pub open spec fn spaces_end(s: Seq<char>, p: int) -> int
    decreases s.len() - p,
{
    if 0 <= p < s.len() && is_space(s[p]) {
        spaces_end(s, p + 1)
    } else {
        p
    }
}

/// The place behind the white space that starts at `p`, which is never
/// before `p` nor behind the end of the text.
pub open spec fn skip_spaces(s: Seq<char>, p: int) -> int {
    if p <= spaces_end(s, p) <= s.len() {
        spaces_end(s, p)
    } else {
        p
    }
}

/// The place behind the digits of the given base that start at `p`.
pub open spec fn digits_end(s: Seq<char>, p: int, radix: int) -> int
    decreases s.len() - p,
{
    if 0 <= p < s.len() && is_digit(s[p], radix) {
        digits_end(s, p + 1, radix)
    } else {
        p
    }
}

/// The place behind the symbol characters that start at `p`.
pub open spec fn symbol_end(s: Seq<char>, p: int) -> int
    decreases s.len() - p,
{
    if 0 <= p < s.len() && is_symbol_char(s[p]) {
        symbol_end(s, p + 1)
    } else {
        p
    }
}

/// Whether the word stands in the text at `p`.
pub open spec fn starts_with(s: Seq<char>, p: int, word: Seq<char>) -> bool {
    &&& 0 <= p
    &&& p + word.len() <= s.len()
    &&& s.subrange(p, p + word.len()) == word
}

/// The reading that fails at the given place for the given reason.
pub open spec fn fault<T>(position: int, kind: ParseErrorKind) -> Reading<T> {
    Err(ParseError { position: position as usize, kind })
}

/// A value read, and the place behind the white space that follows it.
pub open spec fn token(s: Seq<char>, v: Value, end: int) -> Reading<Value> {
    Ok((v, skip_spaces(s, end)))
}

/// An integer in the given base whose digits start at `p`.
pub open spec fn number_at(s: Seq<char>, p: int, radix: int) -> Reading<Value> {
    let end = digits_end(s, p, radix);
    let n = digits_value(s.subrange(p, end), radix);
    if end == p {
        fault(p, ParseErrorKind::MalformedNumber)
    } else if n > i64::MAX {
        fault(p, ParseErrorKind::IntegerOutOfRange)
    } else {
        token(s, Value::Int(n as i64), end)
    }
}

/// An integer at `p`, where a decimal digit stands: binary behind `0b`,
/// hexadecimal behind `0x`, decimal otherwise.
pub open spec fn int_at(s: Seq<char>, p: int) -> Reading<Value> {
    if starts_with(s, p, seq!['0', 'b']) {
        number_at(s, p + 2, 2)
    } else if starts_with(s, p, seq!['0', 'x']) {
        number_at(s, p + 2, 16)
    } else {
        number_at(s, p, 10)
    }
}

/// The place behind a float literal that starts at `p`: decimal digits, a
/// dot and decimal digits again. `None` where no such literal starts.
pub open spec fn float_end(s: Seq<char>, p: int) -> Option<int> {
    let dot = digits_end(s, p, 10);
    let end = digits_end(s, dot + 1, 10);
    if p < dot && dot < s.len() && s[dot] == '.' && dot + 1 < end {
        Some(end)
    } else {
        None
    }
}

/// The float whose literal ends at `end`.
pub open spec fn float_at(s: Seq<char>, p: int, end: int) -> Reading<Value> {
    match float_of_decimal(s.subrange(p, end)) {
        Some(bits) => token(s, Value::Float(bits), end),
        None => fault(p, ParseErrorKind::FloatOutOfRange),
    }
}

/// The character that stands behind a backslash for `c`, if there is one.
pub open spec fn unescape(c: char) -> Option<char> {
    if c == '"' {
        Some('"')
    } else if c == '\\' {
        Some('\\')
    } else if c == 'n' {
        Some('\n')
    } else if c == 'r' {
        Some('\r')
    } else if c == 't' {
        Some('\t')
    } else {
        None
    }
}

/// What `rest` gives, with `c` put before the text that it read.
pub open spec fn after_char(c: char, rest: Reading<Seq<char>>) -> Reading<Seq<char>> {
    match rest {
        Ok((text, end)) => Ok((seq![c] + text, end)),
        Err(e) => Err(e),
    }
}

/// The text of a string whose opening quote stands before `p`, and the
/// place behind its closing quote.
pub open spec fn string_body(s: Seq<char>, p: int) -> Reading<Seq<char>>
    decreases s.len() - p,
{
    if p < 0 || p >= s.len() {
        fault(s.len() as int, ParseErrorKind::UnterminatedString)
    } else if s[p] == '"' {
        Ok((Seq::empty(), p + 1))
    } else if s[p] == '\\' {
        if p + 1 >= s.len() {
            fault(s.len() as int, ParseErrorKind::UnterminatedString)
        } else {
            match unescape(s[p + 1]) {
                Some(c) => after_char(c, string_body(s, p + 2)),
                None => fault(p + 1, ParseErrorKind::UnknownEscape),
            }
        }
    } else {
        after_char(s[p], string_body(s, p + 1))
    }
}

/// The string whose opening quote stands at `p`.
pub open spec fn string_at(s: Seq<char>, p: int) -> Reading<Value> {
    match string_body(s, p + 1) {
        Ok((text, end)) => token(s, Value::Str(text), end),
        Err(e) => Err(e),
    }
}

/// What `rest` gives, with `v` put before the values that it read.
pub open spec fn after_value(v: Value, rest: Reading<Seq<Value>>) -> Reading<Seq<Value>> {
    match rest {
        Ok((items, end)) => Ok((seq![v] + items, end)),
        Err(e) => Err(e),
    }
}

/// The expression that starts at `p`. The forms are tried in this order:
/// `true` and `false`, a float, an integer, `nil`, a symbol, a list, a
/// string, a quote. The first that starts at `p` decides.
pub open spec fn expr_at(s: Seq<char>, p: int) -> Reading<Value>
    decreases s.len() - p, 0int,
{
    if p < 0 || p >= s.len() {
        fault(s.len() as int, ParseErrorKind::ExpectedExpression)
    } else if starts_with(s, p, seq!['t', 'r', 'u', 'e']) {
        token(s, Value::Bool(true), p + 4)
    } else if starts_with(s, p, seq!['f', 'a', 'l', 's', 'e']) {
        token(s, Value::Bool(false), p + 5)
    } else if is_digit(s[p], 10) {
        match float_end(s, p) {
            Some(end) => float_at(s, p, end),
            None => int_at(s, p),
        }
    } else if starts_with(s, p, seq!['n', 'i', 'l']) {
        token(s, Value::Nil, p + 3)
    } else if is_symbol_char(s[p]) {
        token(s, Value::Symbol(s.subrange(p, symbol_end(s, p))), symbol_end(s, p))
    } else if s[p] == '(' {
        match items_at(s, skip_spaces(s, p + 1)) {
            Ok((items, end)) => if items.len() == 0 {
                Ok((Value::Nil, end))
            } else {
                Ok((Value::List(items), end))
            },
            Err(e) => Err(e),
        }
    } else if s[p] == '"' {
        string_at(s, p)
    } else if s[p] == '\'' {
        match expr_at(s, p + 1) {
            Ok((v, end)) => Ok((Value::Quote(Box::new(v)), end)),
            Err(e) => Err(e),
        }
    } else {
        fault(p, ParseErrorKind::ExpectedExpression)
    }
}

/// The items of a list from `p` on, up to the closing parenthesis, and the
/// place behind the white space that follows it.
pub open spec fn items_at(s: Seq<char>, p: int) -> Reading<Seq<Value>>
    decreases s.len() - p, 1int,
{
    if p < 0 || p >= s.len() {
        fault(s.len() as int, ParseErrorKind::UnclosedList)
    } else if s[p] == ')' {
        Ok((Seq::empty(), skip_spaces(s, p + 1)))
    } else {
        match expr_at(s, p) {
            Ok((v, next)) => if p < next <= s.len() {
                after_value(v, items_at(s, next))
            } else {
                fault(p, ParseErrorKind::ExpectedExpression)
            },
            Err(e) => Err(e),
        }
    }
}

/// The expression that a text denotes: white space, then at most one
/// expression, then the end. A text of white space alone denotes `Nil`.
pub open spec fn parse_spec(s: Seq<char>) -> Result<Value, ParseError> {
    let start = skip_spaces(s, 0);
    if start >= s.len() {
        Ok(Value::Nil)
    } else {
        match expr_at(s, start) {
            Ok((v, end)) => if end >= s.len() {
                Ok(v)
            } else {
                Err(ParseError { position: end as usize, kind: ParseErrorKind::TrailingInput })
            },
            Err(e) => Err(e),
        }
    }
}

} // verus!
