//! What evaluation means: the value of an expression in given scopes, and
//! the scopes that it leaves behind.

use crate::arith::{difference, product, quotient, sum};
use crate::expr::{ArgumentsView, Builtin, FunctionView, Value};
use crate::order::{value_order, Order};
use crate::render::render_spec;
use vstd::prelude::*;

verus! {

/// One level of bindings: the names it binds and what they stand for.
pub type Scope = Map<Seq<char>, Value>;

/// The scopes of a session, the global one first and the frame of the
/// innermost call last.
pub type Scopes = Seq<Scope>;

/// What an evaluation gives: its value, and the scopes as it leaves them.
pub struct Outcome {
    pub value: Value,
    pub scopes: Scopes,
}

/// What the evaluation of several expressions in turn gives.
pub struct Outcomes {
    pub values: Seq<Value>,
    pub scopes: Scopes,
}

/// How many applications may be nested inside one evaluation.
pub const DEPTH_LIMIT: usize = 256;

/// How many applications may be nested inside one evaluation.
pub open spec fn depth_limit() -> nat {
    DEPTH_LIMIT as nat
}

/// What a name stands for: its binding in the innermost scope that has one.
pub open spec fn lookup(scopes: Scopes, name: Seq<char>) -> Option<Value>
    decreases scopes.len(),
{
    if scopes.len() == 0 {
        None
    } else if scopes.last().contains_key(name) {
        Some(scopes.last()[name])
    } else {
        lookup(scopes.drop_last(), name)
    }
}

/// The scopes with one more binding in the innermost of them.
pub open spec fn bind(scopes: Scopes, name: Seq<char>, v: Value) -> Scopes {
    scopes.update(scopes.len() - 1, scopes.last().insert(name, v))
}

/// The scopes with one more binding in the global one.
pub open spec fn bind_global(scopes: Scopes, name: Seq<char>, v: Value) -> Scopes {
    scopes.update(0, scopes[0].insert(name, v))
}

/// The scopes with each name bound to the value at its place, in the
/// innermost of them. A name that comes twice keeps its last value.
pub open spec fn bind_each(scopes: Scopes, names: Seq<Seq<char>>, values: Seq<Value>) -> Scopes
    decreases names.len(),
{
    if names.len() == 0 || values.len() == 0 {
        scopes
    } else {
        bind_each(bind(scopes, names[0], values[0]), names.drop_first(), values.drop_first())
    }
}

/// The scopes with the arguments of a call bound in the innermost of them:
/// all of them as one list under `varargs`, or each under its parameter's
/// name. `None` where the call has not as many arguments as parameters.
pub open spec fn bind_args(scopes: Scopes, values: Seq<Value>, params: ArgumentsView) -> Option<
    Scopes,
> {
    match params {
        ArgumentsView::Variadic => Some(bind(scopes, "varargs"@, Value::List(values))),
        ArgumentsView::Fixed(names) => if names.len() == values.len() {
            Some(bind_each(scopes, names, values))
        } else {
            None
        },
    }
}

/// The fault with the given message.
pub open spec fn fault(message: Seq<char>) -> Value {
    Value::Error(message)
}

/// The fault of a name that no scope binds.
pub open spec fn unbound(name: Seq<char>) -> Value {
    Value::Error("Unbound symbol: "@ + name)
}

/// The fault of a list whose first item is no callable.
pub open spec fn cannot_apply(v: Value) -> Value {
    Value::Error("cannot apply "@ + render_spec(v))
}

/// The variadic arguments of the call in progress, if they are bound.
pub open spec fn varargs(scopes: Scopes) -> Option<Seq<Value>> {
    match lookup(scopes, "varargs"@) {
        Some(Value::List(args)) => Some(args),
        _ => None,
    }
}

/// What one of the four arithmetic built-ins makes of two values.
pub open spec fn combine(op: Builtin, a: Value, b: Value) -> Value {
    match op {
        Builtin::Plus => sum(a, b),
        Builtin::Minus => difference(a, b),
        Builtin::Times => product(a, b),
        _ => quotient(a, b),
    }
}

/// The seed combined with each of the values in turn, from left to right.
pub open spec fn reduce(op: Builtin, seed: Value, values: Seq<Value>) -> Value
    decreases values.len(),
{
    if values.len() == 0 {
        seed
    } else {
        combine(op, reduce(op, seed, values.drop_last()), values.last())
    }
}

/// What a sum starts from: the empty string where the first argument is a
/// string, zero otherwise.
pub open spec fn zero_for(args: Seq<Value>) -> Value {
    if args.len() > 0 && args[0] is Str {
        Value::Str(Seq::empty())
    } else {
        Value::Int(0)
    }
}

/// `+`: the sum of all arguments, from zero on, or from the empty string on
/// where the first of them is a string.
pub open spec fn plus(scopes: Scopes) -> Value {
    match varargs(scopes) {
        Some(args) => reduce(Builtin::Plus, zero_for(args), args),
        None => fault("could not fetch arguments"@),
    }
}

/// `*`: the product of all arguments, from one on.
pub open spec fn times(scopes: Scopes) -> Value {
    match varargs(scopes) {
        Some(args) => reduce(Builtin::Times, Value::Int(1), args),
        None => fault("could not fetch arguments"@),
    }
}

/// `-`: zero minus the argument where there is one, else the first argument
/// minus each of the others in turn.
pub open spec fn minus(scopes: Scopes) -> Value {
    match varargs(scopes) {
        Some(args) => if args.len() == 0 {
            fault("sub requires at least one argument"@)
        } else if args.len() == 1 {
            difference(Value::Int(0), args[0])
        } else {
            reduce(Builtin::Minus, args[0], args.drop_first())
        },
        None => fault("could not fetch arguments"@),
    }
}

/// `/`: one over the argument where there is one, else the first argument
/// divided by each of the others in turn.
pub open spec fn divide(scopes: Scopes) -> Value {
    match varargs(scopes) {
        Some(args) => if args.len() == 0 {
            fault("div requires at least one argument"@)
        } else if args.len() == 1 {
            quotient(Value::Int(1), args[0])
        } else {
            reduce(Builtin::Divide, args[0], args.drop_first())
        },
        None => fault("could not fetch arguments"@),
    }
}

/// `=`: whether every argument equals the first. One argument alone equals
/// itself, except `nil`, which alone gives `false`.
pub open spec fn equal(scopes: Scopes) -> Value {
    match varargs(scopes) {
        Some(args) => if args.len() == 0 {
            fault("eq requires a at least one argument"@)
        } else if args.len() == 1 {
            Value::Bool(args[0] != Value::Nil)
        } else {
            Value::Bool(forall|i: int| 1 <= i < args.len() ==> #[trigger] args[i] == args[0])
        },
        None => fault("eq requires a at least one argument"@),
    }
}

/// The fault of two operands that have no order.
pub open spec fn unordered(a: Value, b: Value) -> Value {
    Value::Error("Can't compare "@ + render_spec(a) + " and "@ + render_spec(b))
}

/// `<` and `>`: whether `a` stands to `b` as `wanted` says; a fault where
/// the two have no order.
pub open spec fn ordered(scopes: Scopes, wanted: Order, missing: Seq<char>) -> Value {
    match (lookup(scopes, "a"@), lookup(scopes, "b"@)) {
        (Some(a), Some(b)) => match value_order(a, b) {
            Some(o) => Value::Bool(o == wanted),
            None => unordered(a, b),
        },
        _ => fault(missing),
    }
}

/// The names of the symbols, if all the values are symbols.
pub open spec fn names_of(items: Seq<Value>) -> Option<Seq<Seq<char>>> {
    if forall|i: int| 0 <= i < items.len() ==> items[i] is Symbol {
        Some(Seq::new(items.len(), |i: int| items[i]->Symbol_0))
    } else {
        None
    }
}

/// `lambda`: a function of the parameters that `args` names, with `body`,
/// unevaluated, as what it computes.
pub open spec fn make_function(scopes: Scopes) -> Value {
    match (lookup(scopes, "body"@), lookup(scopes, "args"@)) {
        (Some(body), Some(Value::List(items))) => match names_of(items) {
            Some(names) => Value::Fun(
                FunctionView::Dynamic(Box::new(body)),
                ArgumentsView::Fixed(names),
            ),
            None => fault("lambda arguments must be symbols"@),
        },
        (Some(body), Some(Value::Nil)) => Value::Fun(
            FunctionView::Dynamic(Box::new(body)),
            ArgumentsView::Fixed(Seq::empty()),
        ),
        (Some(_), Some(_)) => fault("First lambda argument must be a list of argument names"@),
        _ => fault("lambda requires two arguments"@),
    }
}

/// `set`: binds the symbol `name` to `value` in the global scope, whatever
/// the frame of the call, and gives the value.
pub open spec fn assign(scopes: Scopes) -> Outcome {
    match (lookup(scopes, "name"@), lookup(scopes, "value"@)) {
        (Some(Value::Symbol(name)), Some(v)) => Outcome {
            value: v,
            scopes: bind_global(scopes, name, v),
        },
        (Some(other), Some(_)) => Outcome {
            value: Value::Error("Variable name is not a symbol: "@ + render_spec(other)),
            scopes,
        },
        _ => Outcome { value: fault("set requires two arguments"@), scopes },
    }
}

/// `intern`: the symbol whose name a string holds.
pub open spec fn interned(scopes: Scopes) -> Value {
    match lookup(scopes, "string"@) {
        Some(Value::Str(s)) => Value::Symbol(s),
        Some(other) => Value::Error("Can't intern "@ + render_spec(other)),
        None => fault("intern requires one argument"@),
    }
}

/// A function that is built in.
pub open spec fn function(b: Builtin, params: ArgumentsView) -> Value {
    Value::Fun(FunctionView::Builtin(b), params)
}

/// A special form that is built in.
pub open spec fn special(b: Builtin, params: ArgumentsView) -> Value {
    Value::Special(FunctionView::Builtin(b), params)
}

/// The scopes with the built-ins bound in the innermost of them: the
/// arithmetic and `=` take any number of arguments, `<` and `>` take `a`
/// and `b`, `set` takes `name` and `value`, `intern` takes `string`; `if`
/// and `lambda` are special forms, of `cond`, `expr1` and `expr2`, and of
/// `args` and `body`.
pub open spec fn install(scopes: Scopes) -> Scopes {
    let s = bind(scopes, "+"@, function(Builtin::Plus, ArgumentsView::Variadic));
    let s = bind(s, "-"@, function(Builtin::Minus, ArgumentsView::Variadic));
    let s = bind(s, "*"@, function(Builtin::Times, ArgumentsView::Variadic));
    let s = bind(s, "/"@, function(Builtin::Divide, ArgumentsView::Variadic));
    let s = bind(s, "="@, function(Builtin::Equal, ArgumentsView::Variadic));
    let s = bind(s, ">"@, function(Builtin::Greater, ArgumentsView::Fixed(seq!["a"@, "b"@])));
    let s = bind(s, "<"@, function(Builtin::Less, ArgumentsView::Fixed(seq!["a"@, "b"@])));
    let s = bind(
        s,
        "if"@,
        special(Builtin::Branch, ArgumentsView::Fixed(seq!["cond"@, "expr1"@, "expr2"@])),
    );
    let s = bind(
        s,
        "lambda"@,
        special(Builtin::Lambda, ArgumentsView::Fixed(seq!["args"@, "body"@])),
    );
    let s = bind(
        s,
        "set"@,
        function(Builtin::Assign, ArgumentsView::Fixed(seq!["name"@, "value"@])),
    );
    bind(s, "intern"@, function(Builtin::Intern, ArgumentsView::Fixed(seq!["string"@])))
}

/// The scopes of a new session: the global scope with the built-ins.
pub open spec fn fresh() -> Scopes {
    install(seq![Map::empty()])
}

/// The outcome without the innermost scope.
pub open spec fn leave(o: Outcome) -> Outcome {
    Outcome { value: o.value, scopes: o.scopes.drop_last() }
}

/// The value of an expression in the given scopes, with `depth`
/// applications that may still be nested. A symbol stands for its binding,
/// and is a fault where no scope binds it; a quote stands for what it
/// quotes; a list stands for the application of its first item to the
/// others, and the empty list for `nil`; everything else stands for itself.
pub open spec fn eval_spec(scopes: Scopes, v: Value, depth: nat) -> Outcome
    decreases depth, 3int, 0nat,
{
    match v {
        Value::Symbol(name) => Outcome {
            value: match lookup(scopes, name) {
                Some(bound) => bound,
                None => unbound(name),
            },
            scopes,
        },
        Value::Quote(inner) => Outcome { value: *inner, scopes },
        Value::List(items) => if items.len() == 0 {
            Outcome { value: Value::Nil, scopes }
        } else {
            apply(scopes, items, depth)
        },
        _ => Outcome { value: v, scopes },
    }
}

/// The application of the first item of a list to the others. The first
/// item is evaluated; if it is a function, the others are evaluated from
/// left to right in the frame of the call and bound there, if it is a
/// special form, they are bound as they stand. Then the callable does its
/// work, and the frame is gone when the call is over. A call with another
/// number of arguments than the callable has parameters is a fault, and so
/// is the application of what is no callable, and an application nested
/// deeper than `depth` allows.
pub open spec fn apply(scopes: Scopes, items: Seq<Value>, depth: nat) -> Outcome
    decreases depth, 2int, 0nat,
{
    if depth == 0 || items.len() == 0 {
        Outcome { value: fault("Recursion limit exceeded"@), scopes }
    } else {
        let inner = (depth - 1) as nat;
        let head = eval_spec(scopes, items[0], inner);
        let entered = head.scopes.push(Map::empty());
        match head.value {
            Value::Fun(f, params) => {
                let args = eval_each(entered, items.drop_first(), inner);
                leave(
                    match bind_args(args.scopes, args.values, params) {
                        Some(bound) => call(f, bound, inner),
                        None => Outcome {
                            value: fault("Wrong argument count"@),
                            scopes: args.scopes,
                        },
                    },
                )
            },
            Value::Special(f, params) => leave(
                match bind_args(entered, items.drop_first(), params) {
                    Some(bound) => call(f, bound, inner),
                    None => Outcome { value: fault("Wrong argument count"@), scopes: entered },
                },
            ),
            other => Outcome { value: cannot_apply(other), scopes: head.scopes },
        }
    }
}

/// The values of several expressions, evaluated from left to right.
pub open spec fn eval_each(scopes: Scopes, items: Seq<Value>, depth: nat) -> Outcomes
    decreases depth, 4int, items.len(),
{
    if items.len() == 0 {
        Outcomes { values: Seq::empty(), scopes }
    } else {
        let first = eval_spec(scopes, items[0], depth);
        let rest = eval_each(first.scopes, items.drop_first(), depth);
        Outcomes { values: seq![first.value] + rest.values, scopes: rest.scopes }
    }
}

/// `if`: the value of `expr1` where `cond` evaluates to `true`, of `expr2`
/// where it evaluates to `false`. The other of the two is not evaluated.
pub open spec fn branch(scopes: Scopes, depth: nat) -> Outcome
    decreases depth, 5int, 0nat,
{
    match lookup(scopes, "cond"@) {
        Some(cond) => {
            let tested = eval_spec(scopes, cond, depth);
            match (tested.value, lookup(tested.scopes, "expr1"@), lookup(tested.scopes, "expr2"@)) {
                (Value::Error(e), _, _) => Outcome { value: Value::Error(e), scopes: tested.scopes },
                (Value::Bool(true), Some(expr1), Some(_)) => eval_spec(tested.scopes, expr1, depth),
                (Value::Bool(false), Some(_), Some(expr2)) => eval_spec(
                    tested.scopes,
                    expr2,
                    depth,
                ),
                (_, Some(_), Some(_)) => Outcome { value: fault("not a bool"@), scopes: tested.scopes },
                _ => Outcome {
                    value: fault("not enough arguments supplied to if"@),
                    scopes: tested.scopes,
                },
            }
        },
        None => Outcome { value: fault("not enough arguments supplied to if"@), scopes },
    }
}

/// What a built-in does in the frame of its call.
pub open spec fn builtin(b: Builtin, scopes: Scopes, depth: nat) -> Outcome
    decreases depth, 6int, 0nat,
{
    match b {
        Builtin::Plus => Outcome { value: plus(scopes), scopes },
        Builtin::Minus => Outcome { value: minus(scopes), scopes },
        Builtin::Times => Outcome { value: times(scopes), scopes },
        Builtin::Divide => Outcome { value: divide(scopes), scopes },
        Builtin::Equal => Outcome { value: equal(scopes), scopes },
        Builtin::Less => Outcome {
            value: ordered(scopes, Order::Less, "< requires two arguments"@),
            scopes,
        },
        Builtin::Greater => Outcome {
            value: ordered(scopes, Order::Greater, "> requires two arguments"@),
            scopes,
        },
        Builtin::Branch => branch(scopes, depth),
        Builtin::Lambda => Outcome { value: make_function(scopes), scopes },
        Builtin::Assign => assign(scopes),
        Builtin::Intern => Outcome { value: interned(scopes), scopes },
    }
}

/// What a callable does in the frame of its call: a built-in its own work,
/// a function made by `lambda` the evaluation of its body.
pub open spec fn call(f: FunctionView, scopes: Scopes, depth: nat) -> Outcome
    decreases depth, 7int, 0nat,
{
    match f {
        FunctionView::Builtin(b) => builtin(b, scopes, depth),
        FunctionView::Dynamic(body) => eval_spec(scopes, *body, depth),
    }
}

} // verus!
