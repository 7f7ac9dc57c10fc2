//! The canonical text of expressions.

use crate::expr::{lemma_list_view, Arguments, ArgumentsView, Expr, Value};
use crate::float::{float_render, float_text};
use crate::text::{chars_of, string_of};
use itertools::Itertools;
use vstd::prelude::*;

verus! {

/// The decimal digit for a number below ten.
pub open spec fn digit_char(d: int) -> char {
    if d == 0 {
        '0'
    } else if d == 1 {
        '1'
    } else if d == 2 {
        '2'
    } else if d == 3 {
        '3'
    } else if d == 4 {
        '4'
    } else if d == 5 {
        '5'
    } else if d == 6 {
        '6'
    } else if d == 7 {
        '7'
    } else if d == 8 {
        '8'
    } else {
        '9'
    }
}

/// The decimal digits of a natural number, without leading zeros.
pub open spec fn nat_text(n: nat) -> Seq<char>
    decreases n,
{
    if n < 10 {
        seq![digit_char(n as int)]
    } else {
        nat_text(n / 10).push(digit_char((n % 10) as int))
    }
}

/// The decimal text of an integer, with a minus sign when it is negative.
pub open spec fn int_text(n: int) -> Seq<char> {
    if n < 0 {
        seq!['-'] + nat_text((-n) as nat)
    } else {
        nat_text(n as nat)
    }
}

/// Whether a text is made of decimal digits alone, behind a minus sign or
/// without one.
pub open spec fn is_whole(text: Seq<char>) -> bool {
    let from: int = if text.len() > 0 && text[0] == '-' {
        1
    } else {
        0
    };
    &&& from < text.len()
    &&& forall|i: int| from <= i < text.len() ==> '0' <= #[trigger] text[i] <= '9'
}

/// The literal of a float whose decimal text is given: a text of digits
/// alone gets `.0` behind it, so that it reads as a float and not as an
/// integer.
pub open spec fn float_literal(text: Seq<char>) -> Seq<char> {
    if is_whole(text) {
        text + seq!['.', '0']
    } else {
        text
    }
}

/// How one character stands inside a string literal.
pub open spec fn escape_char(c: char) -> Seq<char> {
    if c == '"' {
        seq!['\\', '"']
    } else if c == '\\' {
        seq!['\\', '\\']
    } else if c == '\n' {
        seq!['\\', 'n']
    } else if c == '\r' {
        seq!['\\', 'r']
    } else if c == '\t' {
        seq!['\\', 't']
    } else {
        seq![c]
    }
}

/// The body of the string literal that denotes `s`.
pub open spec fn escape(s: Seq<char>) -> Seq<char>
    decreases s.len(),
{
    if s.len() == 0 {
        Seq::empty()
    } else {
        escape_char(s[0]) + escape(s.drop_first())
    }
}

/// The parts in order, with the separator between each two neighbours.
pub open spec fn joined(parts: Seq<Seq<char>>, sep: Seq<char>) -> Seq<char>
    decreases parts.len(),
{
    if parts.len() == 0 {
        Seq::empty()
    } else if parts.len() == 1 {
        parts[0]
    } else {
        parts[0] + sep + joined(parts.drop_first(), sep)
    }
}

/// The text of an argument policy: `...` for a variadic one, the parameter
/// names in parentheses, separated by a comma and a space, for a fixed one.
pub open spec fn arguments_text(args: ArgumentsView) -> Seq<char> {
    match args {
        ArgumentsView::Variadic => seq!['.', '.', '.'],
        ArgumentsView::Fixed(names) => seq!['('] + joined(names, seq![',', ' ']) + seq![')'],
    }
}

/// The canonical text of a value.
pub open spec fn render_spec(v: Value) -> Seq<char>
    decreases v,
{
    match v {
        Value::Nil => seq!['n', 'i', 'l'],
        Value::Bool(b) => if b {
            seq!['t', 'r', 'u', 'e']
        } else {
            seq!['f', 'a', 'l', 's', 'e']
        },
        Value::Int(n) => int_text(n as int),
        Value::Float(bits) => float_literal(float_text(bits)),
        Value::Str(s) => seq!['"'] + escape(s) + seq!['"'],
        Value::Symbol(s) => s,
        Value::Quote(inner) => seq!['\''] + render_spec(*inner),
        Value::Fun(_, args) => seq!['<', 'f', 'u', 'n', 'c', 't', 'i', 'o', 'n', ' ']
            + arguments_text(args) + seq!['>'],
        Value::Special(_, _) => seq!['<', 's', 'p', 'e', 'c', 'i', 'a', 'l', '>'],
        Value::List(items) => seq!['('] + joined(render_each(items), seq![' ']) + seq![')'],
        Value::Error(message) => seq!['E', 'R', 'R', 'O', 'R', ':', ' '] + message,
    }
}

/// The canonical text of each value of a sequence.
pub open spec fn render_each(items: Seq<Value>) -> Seq<Seq<char>>
    decreases items,
{
    Seq::new(
        items.len(),
        |i: int|
            if 0 <= i < items.len() {
                render_spec(items[i])
            } else {
                Seq::empty()
            },
    )
}

/// Joins strings with `Itertools::join`, which writes the first element and
/// then, for each further one, the separator and the element.
#[verifier::external_body]
pub(crate) fn join_strings(parts: &Vec<String>, sep: &str) -> (r: String)
    ensures
        r@ == joined(parts@.map_values(|s: String| s@), sep@),
{
    parts.iter().join(sep)
}

/// The decimal digit for a number below ten.
fn digit_of(d: u64) -> (r: char)
    requires
        d < 10,
    ensures
        r == digit_char(d as int),
{
    if d == 0 {
        '0'
    } else if d == 1 {
        '1'
    } else if d == 2 {
        '2'
    } else if d == 3 {
        '3'
    } else if d == 4 {
        '4'
    } else if d == 5 {
        '5'
    } else if d == 6 {
        '6'
    } else if d == 7 {
        '7'
    } else if d == 8 {
        '8'
    } else {
        '9'
    }
}

/// The decimal digits of a natural number.
pub fn nat_chars(n: u64) -> (r: Vec<char>)
    ensures
        r@ == nat_text(n as nat),
    decreases n,
{
    if n < 10 {
        let mut out: Vec<char> = Vec::new();
        out.push(digit_of(n));
        assert(out@ =~= seq![digit_char(n as int)]);
        out
    } else {
        let mut out = nat_chars(n / 10);
        out.push(digit_of(n % 10));
        out
    }
}

/// The decimal text of an integer.
pub fn int_chars(n: i64) -> (r: Vec<char>)
    ensures
        r@ == int_text(n as int),
{
    if n < 0 {
        let magnitude: u64 = (-(n + 1)) as u64 + 1;
        let mut out: Vec<char> = Vec::new();
        out.push('-');
        let mut digits = nat_chars(magnitude);
        out.append(&mut digits);
        assert(out@ =~= seq!['-'] + nat_text((-n) as nat));
        out
    } else {
        nat_chars(n as u64)
    }
}

/// Puts the characters of `more` behind those of `out`.
fn push_all(out: &mut Vec<char>, more: &Vec<char>)
    ensures
        final(out)@ == old(out)@ + more@,
{
    let mut i: usize = 0;
    while i < more.len()
        invariant
            i <= more.len(),
            out@ == old(out)@ + more@.take(i as int),
        decreases more.len() - i,
    {
        out.push(more[i]);
        assert(more@.take(i + 1) =~= more@.take(i as int).push(more@[i as int]));
        i += 1;
    }
    assert(more@.take(more.len() as int) =~= more@);
}

/// The body of the string literal that denotes `s`.
pub fn escape_chars(s: &Vec<char>) -> (r: Vec<char>)
    ensures
        r@ == escape(s@),
{
    let mut out: Vec<char> = Vec::new();
    let mut i: usize = 0;
    assert(s@.skip(0) =~= s@);
    while i < s.len()
        invariant
            i <= s.len(),
            out@ + escape(s@.skip(i as int)) == escape(s@),
        decreases s.len() - i,
    {
        let c = s[i];
        proof {
            assert(s@.skip(i as int).drop_first() =~= s@.skip(i + 1));
            assert(s@.skip(i as int)[0] == c);
            assert(out@ + (escape_char(c) + escape(s@.skip(i + 1))) =~= (out@ + escape_char(c))
                + escape(s@.skip(i + 1)));
        }
        let ghost before = out@;
        if c == '"' {
            out.push('\\');
            out.push('"');
        } else if c == '\\' {
            out.push('\\');
            out.push('\\');
        } else if c == '\n' {
            out.push('\\');
            out.push('n');
        } else if c == '\r' {
            out.push('\\');
            out.push('r');
        } else if c == '\t' {
            out.push('\\');
            out.push('t');
        } else {
            out.push(c);
        }
        assert(out@ =~= before + escape_char(c));
        i += 1;
    }
    assert(escape(s@.skip(s.len() as int)) =~= Seq::<char>::empty());
    assert(out@ + Seq::<char>::empty() =~= out@);
    out
}

/// The literal of a float.
pub fn float_chars(bits: u64) -> (r: Vec<char>)
    ensures
        r@ == float_literal(float_text(bits)),
{
    let mut text = chars_of(float_render(bits).as_str());
    let from: usize = if text.len() > 0 && text[0] == '-' {
        1
    } else {
        0
    };
    if from >= text.len() {
        return text;
    }
    let mut i: usize = from;
    while i < text.len()
        invariant
            from <= i <= text.len(),
            from < text.len(),
            text@ == float_text(bits),
            from == (if text@.len() > 0 && text@[0] == '-' {
                1int
            } else {
                0int
            }),
            forall|j: int| from <= j < i ==> '0' <= #[trigger] text@[j] <= '9',
        decreases text.len() - i,
    {
        let c = text[i];
        if !('0' <= c && c <= '9') {
            assert(!('0' <= text@[i as int] <= '9'));
            return text;
        }
        i += 1;
    }
    let ghost before = text@;
    text.push('.');
    text.push('0');
    assert(text@ =~= before + seq!['.', '0']);
    text
}

/// The text of an argument policy.
pub fn arguments_chars(args: &Arguments) -> (r: Vec<char>)
    ensures
        r@ == arguments_text(args@),
{
    match args {
        Arguments::Variadic => {
            let out = vec!['.', '.', '.'];
            assert(out@ =~= seq!['.', '.', '.']);
            out
        },
        Arguments::Fixed(names) => {
            proof {
                reveal_strlit(", ");
                assert(", "@ =~= seq![',', ' ']);
            }
            let body = chars_of(join_strings(names, ", ").as_str());
            let mut out: Vec<char> = Vec::new();
            out.push('(');
            push_all(&mut out, &body);
            out.push(')');
            assert(out@ =~= seq!['('] + joined(args@->Fixed_0, seq![',', ' ']) + seq![')']);
            out
        },
    }
}

/// The canonical text of an expression, as characters.
pub fn render_chars(e: &Expr) -> (r: Vec<char>)
    ensures
        r@ == render_spec(e@),
    decreases e,
{
    match e {
        Expr::Nil => {
            let out = vec!['n', 'i', 'l'];
            assert(out@ =~= seq!['n', 'i', 'l']);
            out
        },
        Expr::Bool(b) => {
            if *b {
                let out = vec!['t', 'r', 'u', 'e'];
                assert(out@ =~= seq!['t', 'r', 'u', 'e']);
                out
            } else {
                let out = vec!['f', 'a', 'l', 's', 'e'];
                assert(out@ =~= seq!['f', 'a', 'l', 's', 'e']);
                out
            }
        },
        Expr::Int(n) => int_chars(*n),
        Expr::Float(bits) => float_chars(*bits),
        Expr::Str(s) => {
            let body = escape_chars(&chars_of(s.as_str()));
            let mut out: Vec<char> = Vec::new();
            out.push('"');
            push_all(&mut out, &body);
            out.push('"');
            assert(out@ =~= seq!['"'] + escape(s@) + seq!['"']);
            out
        },
        Expr::Symbol(s) => chars_of(s.as_str()),
        Expr::Quote(inner) => {
            let body = render_chars(&**inner);
            let mut out: Vec<char> = Vec::new();
            out.push('\'');
            push_all(&mut out, &body);
            assert(out@ =~= seq!['\''] + render_spec(*e@->Quote_0));
            out
        },
        Expr::Fun(_, args) => {
            let mut out = vec!['<', 'f', 'u', 'n', 'c', 't', 'i', 'o', 'n', ' '];
            let body = arguments_chars(args);
            push_all(&mut out, &body);
            out.push('>');
            assert(out@ =~= seq!['<', 'f', 'u', 'n', 'c', 't', 'i', 'o', 'n', ' ']
                + arguments_text(args@) + seq!['>']);
            out
        },
        Expr::Special(_, _) => {
            let out = vec!['<', 's', 'p', 'e', 'c', 'i', 'a', 'l', '>'];
            assert(out@ =~= seq!['<', 's', 'p', 'e', 'c', 'i', 'a', 'l', '>']);
            out
        },
        Expr::List(items) => {
            let mut parts: Vec<String> = Vec::new();
            let mut i: usize = 0;
            while i < items.len()
                invariant
                    i <= items.len(),
                    parts@.len() == i,
                    forall|j: int| 0 <= j < i ==> parts@[j]@ == render_spec(items@[j]@),
                    *e == Expr::List(*items),
                decreases items.len() - i,
            {
                proof {
                    assert(decreases_to!(*e => e->List_0@[i as int]));
                }
                let part = render_chars(&items[i]);
                parts.push(string_of(&part));
                i += 1;
            }
            proof {
                reveal_strlit(" ");
                assert(" "@ =~= seq![' ']);
                lemma_list_view(items@);
                assert(parts@.map_values(|s: String| s@) =~= render_each(e@->List_0));
            }
            let body = chars_of(join_strings(&parts, " ").as_str());
            let mut out: Vec<char> = Vec::new();
            out.push('(');
            push_all(&mut out, &body);
            out.push(')');
            assert(out@ =~= seq!['('] + body@ + seq![')']);
            out
        },
        Expr::Error(message) => {
            let mut out = vec!['E', 'R', 'R', 'O', 'R', ':', ' '];
            let body = chars_of(message.as_str());
            push_all(&mut out, &body);
            assert(out@ =~= seq!['E', 'R', 'R', 'O', 'R', ':', ' '] + message@);
            out
        },
    }
}

/// The canonical text of an expression: what the reader turns back into the
/// expression, for everything that the grammar can denote.
pub fn render(e: &Expr) -> (r: String)
    ensures
        r@ == render_spec(e@),
{
    string_of(&render_chars(e))
}

} // verus!
