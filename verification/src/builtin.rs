//! The built-ins: the table that a session starts with, and what each of
//! them does in the frame of its call.

use crate::env::{gives, Env};
use crate::expr::{
    lemma_callable_view, lemma_list_view, values_of, Arguments, ArgumentsView, Builtin, Expr,
    Function, Value,
};
use crate::order::Order;
use crate::render::render;
use crate::semantics::{
    assign, branch, builtin, divide, equal, function, install, interned, lookup, make_function,
    minus, names_of, ordered, plus, reduce, special, times, varargs,
};
use vstd::prelude::*;
use vstd::string::*;

verus! {

/// The policy of one named parameter.
fn fixed1(a: &str) -> (r: Arguments)
    ensures
        r@ == ArgumentsView::Fixed(seq![a@]),
{
    let mut names: Vec<String> = Vec::new();
    names.push(String::from_str(a));
    let r = Arguments::Fixed(names);
    assert(r@->Fixed_0 =~= seq![a@]);
    r
}

/// The policy of two named parameters.
fn fixed2(a: &str, b: &str) -> (r: Arguments)
    ensures
        r@ == ArgumentsView::Fixed(seq![a@, b@]),
{
    let mut names: Vec<String> = Vec::new();
    names.push(String::from_str(a));
    names.push(String::from_str(b));
    let r = Arguments::Fixed(names);
    assert(r@->Fixed_0 =~= seq![a@, b@]);
    r
}

/// The policy of three named parameters.
fn fixed3(a: &str, b: &str, c: &str) -> (r: Arguments)
    ensures
        r@ == ArgumentsView::Fixed(seq![a@, b@, c@]),
{
    let mut names: Vec<String> = Vec::new();
    names.push(String::from_str(a));
    names.push(String::from_str(b));
    names.push(String::from_str(c));
    let r = Arguments::Fixed(names);
    assert(r@->Fixed_0 =~= seq![a@, b@, c@]);
    r
}

/// The function that a built-in is.
fn builtin_function(b: Builtin, params: Arguments) -> (r: Expr)
    ensures
        r@ == function(b, params@),
{
    proof {
        lemma_callable_view(Function::Builtin(b), params);
    }
    Expr::Fun(Function::Builtin(b), params)
}

/// The special form that a built-in is.
fn builtin_special(b: Builtin, params: Arguments) -> (r: Expr)
    ensures
        r@ == special(b, params@),
{
    proof {
        lemma_callable_view(Function::Builtin(b), params);
    }
    Expr::Special(Function::Builtin(b), params)
}

/// Binds the built-ins in the innermost scope.
pub fn load(env: &mut Env)
    ensures
        final(env)@ == install(old(env)@),
{
    env.insert(
        String::from_str("+"),
        builtin_function(Builtin::Plus, Arguments::Variadic),
    );
    env.insert(
        String::from_str("-"),
        builtin_function(Builtin::Minus, Arguments::Variadic),
    );
    env.insert(
        String::from_str("*"),
        builtin_function(Builtin::Times, Arguments::Variadic),
    );
    env.insert(
        String::from_str("/"),
        builtin_function(Builtin::Divide, Arguments::Variadic),
    );
    env.insert(
        String::from_str("="),
        builtin_function(Builtin::Equal, Arguments::Variadic),
    );
    env.insert(
        String::from_str(">"),
        builtin_function(Builtin::Greater, fixed2("a", "b")),
    );
    env.insert(
        String::from_str("<"),
        builtin_function(Builtin::Less, fixed2("a", "b")),
    );
    env.insert(
        String::from_str("if"),
        builtin_special(Builtin::Branch, fixed3("cond", "expr1", "expr2")),
    );
    env.insert(
        String::from_str("lambda"),
        builtin_special(Builtin::Lambda, fixed2("args", "body")),
    );
    env.insert(
        String::from_str("set"),
        builtin_function(Builtin::Assign, fixed2("name", "value")),
    );
    env.insert(
        String::from_str("intern"),
        builtin_function(Builtin::Intern, fixed1("string")),
    );
}

/// The fault with the given message.
fn fault_of(message: &str) -> (r: Expr)
    ensures
        r@ == Value::Error(message@),
{
    Expr::Error(String::from_str(message))
}

/// The variadic arguments of the call in progress, if they are bound.
fn arguments(env: &Env) -> (r: Option<Vec<Expr>>)
    ensures
        match r {
            Some(args) => varargs(env@) == Some(values_of(args@)),
            None => varargs(env@) is None,
        },
{
    match env.find("varargs") {
        Some(Expr::List(args)) => Some(args),
        _ => None,
    }
}

/// The seed combined with each of the arguments from `from` on, in turn.
fn fold(op: Builtin, seed: Expr, args: &Vec<Expr>, from: usize) -> (r: Expr)
    requires
        from <= args.len(),
    ensures
        r@ == reduce(op, seed@, values_of(args@).skip(from as int)),
{
    let ghost items = values_of(args@);
    let ghost start = seed@;
    let mut acc = seed;
    let mut i: usize = from;
    proof {
        lemma_list_view(args@);
        assert(items.subrange(from as int, from as int) =~= Seq::<Value>::empty());
    }
    while i < args.len()
        invariant
            from <= i <= args.len(),
            items == values_of(args@),
            items.len() == args.len(),
            acc@ == reduce(op, start, items.subrange(from as int, i as int)),
        decreases args.len() - i,
    {
        proof {
            lemma_list_view(args@);
            let now = items.subrange(from as int, i + 1);
            assert(now.drop_last() =~= items.subrange(from as int, i as int));
            assert(now.last() == args@[i as int]@);
        }
        let next = args[i].clone();
        acc = match op {
            Builtin::Plus => acc.add(next),
            Builtin::Minus => acc.sub(next),
            Builtin::Times => acc.mul(next),
            _ => acc.div(next),
        };
        i += 1;
    }
    assert(items.subrange(from as int, args.len() as int) =~= items.skip(from as int));
    acc
}

/// Whether an expression is a string.
fn is_string(e: &Expr) -> (r: bool)
    ensures
        r == (e@ is Str),
{
    match e {
        Expr::Str(_) => true,
        _ => false,
    }
}

/// `+`: the sum of the arguments of the call.
fn add(env: &Env) -> (r: Expr)
    ensures
        r@ == plus(env@),
{
    match arguments(env) {
        Some(args) => {
            proof {
                lemma_list_view(args@);
                assert(values_of(args@).skip(0) =~= values_of(args@));
            }
            let zero = if args.len() > 0 && is_string(&args[0]) {
                Expr::Str(String::new())
            } else {
                Expr::Int(0)
            };
            fold(Builtin::Plus, zero, &args, 0)
        },
        None => fault_of("could not fetch arguments"),
    }
}

/// `*`: the product of the arguments of the call.
fn mul(env: &Env) -> (r: Expr)
    ensures
        r@ == times(env@),
{
    match arguments(env) {
        Some(args) => {
            assert(values_of(args@).skip(0) =~= values_of(args@));
            fold(Builtin::Times, Expr::Int(1), &args, 0)
        },
        None => fault_of("could not fetch arguments"),
    }
}

/// `-`: the first argument minus the others, or zero minus the only one.
fn sub(env: &Env) -> (r: Expr)
    ensures
        r@ == minus(env@),
{
    match arguments(env) {
        Some(args) => {
            proof {
                lemma_list_view(args@);
                assert(values_of(args@).skip(1) =~= values_of(args@).drop_first());
            }
            if args.len() == 0 {
                fault_of("sub requires at least one argument")
            } else if args.len() == 1 {
                Expr::Int(0).sub(args[0].clone())
            } else {
                fold(Builtin::Minus, args[0].clone(), &args, 1)
            }
        },
        None => fault_of("could not fetch arguments"),
    }
}

/// `/`: the first argument divided by the others, or one over the only one.
fn div(env: &Env) -> (r: Expr)
    ensures
        r@ == divide(env@),
{
    match arguments(env) {
        Some(args) => {
            proof {
                lemma_list_view(args@);
                assert(values_of(args@).skip(1) =~= values_of(args@).drop_first());
            }
            if args.len() == 0 {
                fault_of("div requires at least one argument")
            } else if args.len() == 1 {
                Expr::Int(1).div(args[0].clone())
            } else {
                fold(Builtin::Divide, args[0].clone(), &args, 1)
            }
        },
        None => fault_of("could not fetch arguments"),
    }
}

/// `=`: whether all arguments equal the first.
fn eq(env: &Env) -> (r: Expr)
    ensures
        r@ == equal(env@),
{
    match arguments(env) {
        Some(args) => {
            proof {
                lemma_list_view(args@);
            }
            if args.len() == 0 {
                fault_of("eq requires a at least one argument")
            } else if args.len() == 1 {
                Expr::Bool(!args[0].equals(&Expr::Nil))
            } else {
                let ghost items = values_of(args@);
                let mut i: usize = 1;
                while i < args.len()
                    invariant
                        1 <= i <= args.len(),
                        items == values_of(args@),
                        items.len() == args.len(),
                        args.len() >= 2,
                        varargs(env@) == Some(items),
                        forall|j: int| 1 <= j < i ==> #[trigger] items[j] == items[0],
                    decreases args.len() - i,
                {
                    proof {
                        lemma_list_view(args@);
                    }
                    if !args[i].equals(&args[0]) {
                        assert(items[i as int] != items[0]);
                        return Expr::Bool(false);
                    }
                    i += 1;
                }
                Expr::Bool(true)
            }
        },
        None => fault_of("eq requires a at least one argument"),
    }
}

/// Whether two orders are the same.
fn same_order(a: Order, b: Order) -> (r: bool)
    ensures
        r == (a == b),
{
    match (a, b) {
        (Order::Less, Order::Less) => true,
        (Order::Equal, Order::Equal) => true,
        (Order::Greater, Order::Greater) => true,
        _ => false,
    }
}

/// Whether `a` stands to `b` as `wanted` says.
fn ordering(env: &Env, wanted: Order, missing: &str) -> (r: Expr)
    ensures
        r@ == ordered(env@, wanted, missing@),
{
    match (env.find("a"), env.find("b")) {
        (Some(a), Some(b)) => match a.compare(&b) {
            Some(o) => Expr::Bool(same_order(o, wanted)),
            None => {
                let mut message = String::from_str("Can't compare ");
                message.append(render(&a).as_str());
                message.append(" and ");
                message.append(render(&b).as_str());
                Expr::Error(message)
            },
        },
        _ => fault_of(missing),
    }
}

/// `<`: whether `a` comes before `b`.
fn lt(env: &Env) -> (r: Expr)
    ensures
        r@ == ordered(env@, Order::Less, "< requires two arguments"@),
{
    ordering(env, Order::Less, "< requires two arguments")
}

/// `>`: whether `a` comes behind `b`.
fn gt(env: &Env) -> (r: Expr)
    ensures
        r@ == ordered(env@, Order::Greater, "> requires two arguments"@),
{
    ordering(env, Order::Greater, "> requires two arguments")
}

/// `lambda`: the function of the parameters `args` that computes `body`.
fn lambda(env: &Env) -> (r: Expr)
    ensures
        r@ == make_function(env@),
{
    match (env.find("body"), env.find("args")) {
        (Some(body), Some(Expr::List(items))) => {
            let ghost values = values_of(items@);
            let mut names: Vec<String> = Vec::new();
            let mut i: usize = 0;
            proof {
                lemma_list_view(items@);
            }
            while i < items.len()
                invariant
                    i <= items.len(),
                    values == values_of(items@),
                    values.len() == items.len(),
                    names@.len() == i,
                    lookup(env@, "body"@) == Some(body@),
                    lookup(env@, "args"@) == Some(Value::List(values)),
                    forall|j: int| 0 <= j < i ==> #[trigger] values[j] is Symbol,
                    forall|j: int| 0 <= j < i ==> names@[j]@ == values[j]->Symbol_0,
                decreases items.len() - i,
            {
                proof {
                    lemma_list_view(items@);
                }
                match &items[i] {
                    Expr::Symbol(name) => {
                        names.push(name.clone());
                    },
                    _ => {
                        assert(!(values[i as int] is Symbol));
                        return fault_of("lambda arguments must be symbols");
                    },
                }
                i += 1;
            }
            let r = Expr::Fun(Function::Dynamic(Box::new(body)), Arguments::Fixed(names));
            proof {
                lemma_callable_view(Function::Dynamic(Box::new(body)), Arguments::Fixed(names));
                assert(names_of(values) is Some);
                assert(r@->Fun_1->Fixed_0 =~= names_of(values)->Some_0);
            }
            r
        },
        (Some(body), Some(Expr::Nil)) => {
            let names: Vec<String> = Vec::new();
            let r = Expr::Fun(Function::Dynamic(Box::new(body)), Arguments::Fixed(names));
            proof {
                lemma_callable_view(Function::Dynamic(Box::new(body)), Arguments::Fixed(names));
            }
            assert(r@->Fun_1->Fixed_0 =~= Seq::<Seq<char>>::empty());
            r
        },
        (Some(_), Some(_)) => fault_of("First lambda argument must be a list of argument names"),
        _ => fault_of("lambda requires two arguments"),
    }
}

/// `set`: binds the symbol `name` to `value` in the global scope.
fn set(env: &mut Env) -> (r: Expr)
    ensures
        gives(r, old(env)@, final(env)@, assign(old(env)@)),
{
    proof {
        env.lemma_has_global();
    }
    match (env.find("name"), env.find("value")) {
        (Some(Expr::Symbol(name)), Some(value)) => {
            env.insert_parent(name, value.clone());
            value
        },
        (Some(other), Some(_)) => {
            let mut message = String::from_str("Variable name is not a symbol: ");
            message.append(render(&other).as_str());
            Expr::Error(message)
        },
        _ => fault_of("set requires two arguments"),
    }
}

/// `intern`: the symbol that the string `string` names.
fn intern(env: &Env) -> (r: Expr)
    ensures
        r@ == interned(env@),
{
    match env.find("string") {
        Some(Expr::Str(s)) => Expr::Symbol(s),
        Some(other) => {
            let mut message = String::from_str("Can't intern ");
            message.append(render(&other).as_str());
            Expr::Error(message)
        },
        None => fault_of("intern requires one argument"),
    }
}

/// `if`: evaluates `cond`, and then `expr1` or `expr2`, never both.
fn iff(env: &mut Env, depth: usize) -> (r: Expr)
    ensures
        gives(r, old(env)@, final(env)@, branch(old(env)@, depth as nat)),
    decreases depth, 5int, 0nat,
{
    match env.find("cond") {
        Some(cond) => {
            let tested = env.eval_at(&cond, depth);
            let first = env.find("expr1");
            let second = env.find("expr2");
            match (tested, first, second) {
                (Expr::Error(e), _, _) => Expr::Error(e),
                (Expr::Bool(true), Some(expr1), Some(_)) => env.eval_at(&expr1, depth),
                (Expr::Bool(false), Some(_), Some(expr2)) => env.eval_at(&expr2, depth),
                (_, Some(_), Some(_)) => fault_of("not a bool"),
                _ => fault_of("not enough arguments supplied to if"),
            }
        },
        None => fault_of("not enough arguments supplied to if"),
    }
}

/// Does the work of a built-in in the frame of its call.
pub(crate) fn run(env: &mut Env, b: Builtin, depth: usize) -> (r: Expr)
    ensures
        gives(r, old(env)@, final(env)@, builtin(b, old(env)@, depth as nat)),
    decreases depth, 6int, 0nat,
{
    match b {
        Builtin::Plus => self::add(env),
        Builtin::Minus => self::sub(env),
        Builtin::Times => self::mul(env),
        Builtin::Divide => div(env),
        Builtin::Equal => eq(env),
        Builtin::Less => lt(env),
        Builtin::Greater => gt(env),
        Builtin::Branch => iff(env, depth),
        Builtin::Lambda => lambda(env),
        Builtin::Assign => set(env),
        Builtin::Intern => intern(env),
    }
}

} // verus!
