//! The order of expressions.

use crate::expr::{Expr, Value};
use crate::float::{float_of_int, int_to_float};
use crate::text::chars_of;
use rustc_apfloat::ieee::Double;
use rustc_apfloat::Float;
use std::cmp::Ordering;
use vstd::prelude::*;

verus! {

/// The three ways in which one value can stand to another in an order.
#[derive(Clone, Copy, Debug, PartialEq, Eq)]
pub enum Order {
    Less,
    Equal,
    Greater,
}

/// How IEEE 754 orders two binary64 numbers: a NaN is ordered with nothing,
/// the two zeros are equal.
pub uninterp spec fn float_order(a: u64, b: u64) -> Option<Order>;

/// Compares two binary64 numbers with `PartialOrd` of `IeeeFloat`.
#[verifier::external_body]
pub(crate) fn float_compare(a: u64, b: u64) -> (r: Option<Order>)
    ensures
        r == float_order(a, b),
{
    match Double::from_bits(u128::from(a)).partial_cmp(&Double::from_bits(u128::from(b))) {
        Some(Ordering::Less) => Some(Order::Less),
        Some(Ordering::Equal) => Some(Order::Equal),
        Some(Ordering::Greater) => Some(Order::Greater),
        None => None,
    }
}

/// The order of two integers.
pub open spec fn int_order(a: int, b: int) -> Order {
    if a < b {
        Order::Less
    } else if a > b {
        Order::Greater
    } else {
        Order::Equal
    }
}

/// The order of two texts: by the first character in which they differ,
/// and a proper prefix before the longer text.
pub open spec fn text_order(a: Seq<char>, b: Seq<char>) -> Order
    decreases a.len(),
{
    if a.len() == 0 {
        if b.len() == 0 {
            Order::Equal
        } else {
            Order::Less
        }
    } else if b.len() == 0 {
        Order::Greater
    } else if a[0] != b[0] {
        int_order(a[0] as int, b[0] as int)
    } else {
        text_order(a.drop_first(), b.drop_first())
    }
}

/// The order of two values, where they have one. Values of the same plain
/// kind are ordered as their contents are, an integer and a float as two
/// floats, two quotes as what they quote. Lists, faults and callables are
/// ordered with nothing, and so are values of different kinds.
pub open spec fn value_order(a: Value, b: Value) -> Option<Order>
    decreases a,
{
    match (a, b) {
        (Value::Nil, Value::Nil) => Some(Order::Equal),
        (Value::Bool(x), Value::Bool(y)) => Some(
            int_order(if x { 1 } else { 0 }, if y { 1 } else { 0 }),
        ),
        (Value::Int(x), Value::Int(y)) => Some(int_order(x as int, y as int)),
        (Value::Int(x), Value::Float(y)) => float_order(float_of_int(x), y),
        (Value::Float(x), Value::Float(y)) => float_order(x, y),
        (Value::Float(x), Value::Int(y)) => float_order(x, float_of_int(y)),
        (Value::Str(x), Value::Str(y)) => Some(text_order(x, y)),
        (Value::Symbol(x), Value::Symbol(y)) => Some(text_order(x, y)),
        (Value::Quote(x), Value::Quote(y)) => value_order(*x, *y),
        _ => None,
    }
}

/// The order of two integers.
fn compare_ints(a: i64, b: i64) -> (r: Order)
    ensures
        r == int_order(a as int, b as int),
{
    if a < b {
        Order::Less
    } else if a > b {
        Order::Greater
    } else {
        Order::Equal
    }
}

/// The order of two characters, by their code points.
fn compare_chars(a: char, b: char) -> (r: Order)
    ensures
        r == int_order(a as int, b as int),
{
    if a < b {
        Order::Less
    } else if a > b {
        Order::Greater
    } else {
        Order::Equal
    }
}

/// Compares two texts character by character.
pub fn compare_texts(a: &Vec<char>, b: &Vec<char>) -> (r: Order)
    ensures
        r == text_order(a@, b@),
{
    let mut i: usize = 0;
    assert(a@.skip(0) =~= a@ && b@.skip(0) =~= b@);
    while i < a.len() && i < b.len()
        invariant
            i <= a.len(),
            i <= b.len(),
            text_order(a@, b@) == text_order(a@.skip(i as int), b@.skip(i as int)),
        decreases a.len() - i,
    {
        proof {
            assert(a@.skip(i as int)[0] == a@[i as int]);
            assert(b@.skip(i as int)[0] == b@[i as int]);
            assert(a@.skip(i as int).drop_first() =~= a@.skip(i + 1));
            assert(b@.skip(i as int).drop_first() =~= b@.skip(i + 1));
        }
        if a[i] != b[i] {
            return compare_chars(a[i], b[i]);
        }
        i += 1;
    }
    if i < b.len() {
        Order::Less
    } else if i < a.len() {
        Order::Greater
    } else {
        Order::Equal
    }
}

impl Expr {
    /// The order of two expressions, where they have one.
    pub fn compare(&self, other: &Expr) -> (r: Option<Order>)
        ensures
            r == value_order(self@, other@),
        decreases self,
    {
        match (self, other) {
            (Expr::Nil, Expr::Nil) => Some(Order::Equal),
            (Expr::Bool(x), Expr::Bool(y)) => Some(
                compare_ints(if *x { 1 } else { 0 }, if *y { 1 } else { 0 }),
            ),
            (Expr::Int(x), Expr::Int(y)) => Some(compare_ints(*x, *y)),
            (Expr::Int(x), Expr::Float(y)) => float_compare(int_to_float(*x), *y),
            (Expr::Float(x), Expr::Float(y)) => float_compare(*x, *y),
            (Expr::Float(x), Expr::Int(y)) => float_compare(*x, int_to_float(*y)),
            (Expr::Str(x), Expr::Str(y)) => Some(
                compare_texts(&chars_of(x.as_str()), &chars_of(y.as_str())),
            ),
            (Expr::Symbol(x), Expr::Symbol(y)) => Some(
                compare_texts(&chars_of(x.as_str()), &chars_of(y.as_str())),
            ),
            (Expr::Quote(x), Expr::Quote(y)) => (&**x).compare(&**y),
            _ => None,
        }
    }
}

/// An order as the standard library writes it.
pub open spec fn std_order(o: Option<Order>) -> Option<Ordering> {
    match o {
        Some(Order::Less) => Some(Ordering::Less),
        Some(Order::Equal) => Some(Ordering::Equal),
        Some(Order::Greater) => Some(Ordering::Greater),
        None => None,
    }
}

impl Expr {
    /// The order of two expressions, where they have one, as the standard
    /// library writes it.
    pub fn partial_cmp(&self, other: &Expr) -> (r: Option<Ordering>)
        ensures
            r == std_order(value_order(self@, other@)),
    {
        match self.compare(other) {
            Some(Order::Less) => Some(Ordering::Less),
            Some(Order::Equal) => Some(Ordering::Equal),
            Some(Order::Greater) => Some(Ordering::Greater),
            None => None,
        }
    }
}

} // verus!
