//! Arithmetic on expressions: what `+`, `-`, `*` and `/` make of two values.

use crate::expr::{Expr, Value};
use crate::float::{
    float_add, float_difference, float_div, float_mul, float_of_int, float_product,
    float_quotient, float_sub, float_sum, int_to_float,
};
use crate::render::{render, render_spec};
use vstd::prelude::*;
use vstd::string::*;

verus! {

/// The message of the fault that two operands give which an operation does
/// not take: the operands stand in it as their canonical text.
pub open spec fn mismatch(prefix: Seq<char>, a: Value, middle: Seq<char>, b: Value) -> Value {
    Value::Error(prefix + render_spec(a) + middle + render_spec(b))
}

/// The fault of an integer result that 64 bits cannot hold.
pub open spec fn overflow() -> Value {
    Value::Error("Integer overflow"@)
}

/// The fault of an integer division by zero.
pub open spec fn zero_division() -> Value {
    Value::Error("Division by zero"@)
}

/// The sum of two values. Integers add exactly, an integer beside a float
/// is widened first, strings are concatenated, and anything else is a fault.
pub open spec fn sum(a: Value, b: Value) -> Value {
    match (a, b) {
        (Value::Int(x), Value::Int(y)) => match x.checked_add(y) {
            Some(z) => Value::Int(z),
            None => overflow(),
        },
        (Value::Int(x), Value::Float(y)) => Value::Float(float_sum(float_of_int(x), y)),
        (Value::Float(x), Value::Int(y)) => Value::Float(float_sum(x, float_of_int(y))),
        (Value::Float(x), Value::Float(y)) => Value::Float(float_sum(x, y)),
        (Value::Str(x), Value::Str(y)) => Value::Str(x + y),
        _ => mismatch("Can't add "@, a, " and "@, b),
    }
}

/// The difference of two values.
pub open spec fn difference(a: Value, b: Value) -> Value {
    match (a, b) {
        (Value::Int(x), Value::Int(y)) => match x.checked_sub(y) {
            Some(z) => Value::Int(z),
            None => overflow(),
        },
        (Value::Int(x), Value::Float(y)) => Value::Float(float_difference(float_of_int(x), y)),
        (Value::Float(x), Value::Int(y)) => Value::Float(float_difference(x, float_of_int(y))),
        (Value::Float(x), Value::Float(y)) => Value::Float(float_difference(x, y)),
        _ => mismatch("Can't subtract "@, b, " from "@, a),
    }
}

/// The product of two values.
pub open spec fn product(a: Value, b: Value) -> Value {
    match (a, b) {
        (Value::Int(x), Value::Int(y)) => match x.checked_mul(y) {
            Some(z) => Value::Int(z),
            None => overflow(),
        },
        (Value::Int(x), Value::Float(y)) => Value::Float(float_product(float_of_int(x), y)),
        (Value::Float(x), Value::Int(y)) => Value::Float(float_product(x, float_of_int(y))),
        (Value::Float(x), Value::Float(y)) => Value::Float(float_product(x, y)),
        _ => mismatch("Can't multiply "@, a, " with "@, b),
    }
}

/// The quotient of two values. Integers divide towards zero; an integer
/// divided by zero is a fault, a float divided by zero is what IEEE 754
/// makes of it.
pub open spec fn quotient(a: Value, b: Value) -> Value {
    match (a, b) {
        (Value::Int(x), Value::Int(y)) => if y == 0 {
            zero_division()
        } else {
            match x.checked_div(y) {
                Some(z) => Value::Int(z),
                None => overflow(),
            }
        },
        (Value::Int(x), Value::Float(y)) => Value::Float(float_quotient(float_of_int(x), y)),
        (Value::Float(x), Value::Int(y)) => Value::Float(float_quotient(x, float_of_int(y))),
        (Value::Float(x), Value::Float(y)) => Value::Float(float_quotient(x, y)),
        _ => mismatch("Can't divide "@, a, " by "@, b),
    }
}

/// The fault of two operands that an operation does not take.
fn mismatch_of(prefix: &str, a: &Expr, middle: &str, b: &Expr) -> (r: Expr)
    ensures
        r@ == mismatch(prefix@, a@, middle@, b@),
{
    let mut message = String::from_str(prefix);
    message.append(render(a).as_str());
    message.append(middle);
    message.append(render(b).as_str());
    Expr::Error(message)
}

/// The fault of an integer result that 64 bits cannot hold.
fn overflow_of() -> (r: Expr)
    ensures
        r@ == overflow(),
{
    Expr::Error(String::from_str("Integer overflow"))
}

/// The integer, or the fault of the overflow where there is none.
fn checked(result: Option<i64>) -> (r: Expr)
    ensures
        r@ == match result {
            Some(z) => Value::Int(z),
            None => overflow(),
        },
{
    match result {
        Some(z) => Expr::Int(z),
        None => overflow_of(),
    }
}

impl Expr {
    /// Adds two expressions.
    pub fn add(self, other: Expr) -> (r: Expr)
        ensures
            r@ == sum(self@, other@),
    {
        match (&self, &other) {
            (Expr::Int(x), Expr::Int(y)) => checked(x.checked_add(*y)),
            (Expr::Int(x), Expr::Float(y)) => Expr::Float(float_add(int_to_float(*x), *y)),
            (Expr::Float(x), Expr::Int(y)) => Expr::Float(float_add(*x, int_to_float(*y))),
            (Expr::Float(x), Expr::Float(y)) => Expr::Float(float_add(*x, *y)),
            (Expr::Str(x), Expr::Str(y)) => {
                let mut joined = x.clone();
                joined.append(y.as_str());
                Expr::Str(joined)
            },
            _ => mismatch_of("Can't add ", &self, " and ", &other),
        }
    }

    /// Subtracts the second expression from the first.
    pub fn sub(self, other: Expr) -> (r: Expr)
        ensures
            r@ == difference(self@, other@),
    {
        match (&self, &other) {
            (Expr::Int(x), Expr::Int(y)) => checked(x.checked_sub(*y)),
            (Expr::Int(x), Expr::Float(y)) => Expr::Float(float_sub(int_to_float(*x), *y)),
            (Expr::Float(x), Expr::Int(y)) => Expr::Float(float_sub(*x, int_to_float(*y))),
            (Expr::Float(x), Expr::Float(y)) => Expr::Float(float_sub(*x, *y)),
            _ => mismatch_of("Can't subtract ", &other, " from ", &self),
        }
    }

    /// Multiplies two expressions.
    pub fn mul(self, other: Expr) -> (r: Expr)
        ensures
            r@ == product(self@, other@),
    {
        match (&self, &other) {
            (Expr::Int(x), Expr::Int(y)) => checked(x.checked_mul(*y)),
            (Expr::Int(x), Expr::Float(y)) => Expr::Float(float_mul(int_to_float(*x), *y)),
            (Expr::Float(x), Expr::Int(y)) => Expr::Float(float_mul(*x, int_to_float(*y))),
            (Expr::Float(x), Expr::Float(y)) => Expr::Float(float_mul(*x, *y)),
            _ => mismatch_of("Can't multiply ", &self, " with ", &other),
        }
    }

    /// Divides the first expression by the second.
    pub fn div(self, other: Expr) -> (r: Expr)
        ensures
            r@ == quotient(self@, other@),
    {
        match (&self, &other) {
            (Expr::Int(x), Expr::Int(y)) => {
                if *y == 0 {
                    Expr::Error(String::from_str("Division by zero"))
                } else {
                    checked(x.checked_div(*y))
                }
            },
            (Expr::Int(x), Expr::Float(y)) => Expr::Float(float_div(int_to_float(*x), *y)),
            (Expr::Float(x), Expr::Int(y)) => Expr::Float(float_div(*x, int_to_float(*y))),
            (Expr::Float(x), Expr::Float(y)) => Expr::Float(float_div(*x, *y)),
            _ => mismatch_of("Can't divide ", &self, " by ", &other),
        }
    }
}

} // verus!
