//! What holds of every evaluation.

use crate::env::same_frames;
use crate::expr::{ArgumentsView, Builtin, FunctionView, Value};
use crate::semantics::{
    apply, assign, bind, bind_args, bind_each, bind_global, branch, builtin, call, eval_each,
    eval_spec, fault, fresh, function, leave, lookup, special, Outcome, Outcomes, Scopes,
};
use vstd::prelude::*;

verus! {

/// `nil`, the integers, the floats, the booleans and the strings evaluate to
/// themselves, and their evaluation changes no scope.
pub proof fn law_literals_evaluate_to_themselves(scopes: Scopes, v: Value, depth: nat)
    requires
        v is Nil || v is Int || v is Float || v is Bool || v is Str,
    ensures
        eval_spec(scopes, v, depth) == (Outcome { value: v, scopes }),
{
}

/// `set` binds its symbol in the global scope, however many frames lie
/// above it: once every call has returned, the name stands for the value.
/// The frames themselves stay as they were.
pub proof fn law_set_writes_global(scopes: Scopes, name: Seq<char>, v: Value, depth: nat)
    requires
        scopes.len() >= 1,
        lookup(scopes, "name"@) == Some(Value::Symbol(name)),
        lookup(scopes, "value"@) == Some(v),
    ensures
        builtin(Builtin::Assign, scopes, depth).value == v,
        lookup(builtin(Builtin::Assign, scopes, depth).scopes.take(1), name) == Some(v),
        builtin(Builtin::Assign, scopes, depth).scopes.len() == scopes.len(),
        forall|i: int|
            1 <= i < scopes.len() ==> builtin(Builtin::Assign, scopes, depth).scopes[i]
                == scopes[i],
{
    let after = builtin(Builtin::Assign, scopes, depth).scopes;
    assert(after.take(1).last() == scopes[0].insert(name, v));
}

/// In a new session each built-in is bound under its name.
pub proof fn law_new_session_binds_builtins()
    ensures
        fresh().len() == 1,
        lookup(fresh(), "+"@) == Some(function(Builtin::Plus, ArgumentsView::Variadic)),
        lookup(fresh(), "-"@) == Some(function(Builtin::Minus, ArgumentsView::Variadic)),
        lookup(fresh(), "*"@) == Some(function(Builtin::Times, ArgumentsView::Variadic)),
        lookup(fresh(), "/"@) == Some(function(Builtin::Divide, ArgumentsView::Variadic)),
        lookup(fresh(), "="@) == Some(function(Builtin::Equal, ArgumentsView::Variadic)),
        lookup(fresh(), ">"@) == Some(
            function(Builtin::Greater, ArgumentsView::Fixed(seq!["a"@, "b"@])),
        ),
        lookup(fresh(), "<"@) == Some(
            function(Builtin::Less, ArgumentsView::Fixed(seq!["a"@, "b"@])),
        ),
        lookup(fresh(), "if"@) == Some(
            special(Builtin::Branch, ArgumentsView::Fixed(seq!["cond"@, "expr1"@, "expr2"@])),
        ),
        lookup(fresh(), "lambda"@) == Some(
            special(Builtin::Lambda, ArgumentsView::Fixed(seq!["args"@, "body"@])),
        ),
        lookup(fresh(), "set"@) == Some(
            function(Builtin::Assign, ArgumentsView::Fixed(seq!["name"@, "value"@])),
        ),
        lookup(fresh(), "intern"@) == Some(
            function(Builtin::Intern, ArgumentsView::Fixed(seq!["string"@])),
        ),
{
    reveal_strlit("+");
    reveal_strlit("-");
    reveal_strlit("*");
    reveal_strlit("/");
    reveal_strlit("=");
    reveal_strlit(">");
    reveal_strlit("<");
    reveal_strlit("if");
    reveal_strlit("lambda");
    reveal_strlit("set");
    reveal_strlit("intern");
    assert("+"@[0] == '+' && "-"@[0] == '-' && "*"@[0] == '*' && "/"@[0] == '/' && "="@[0] == '='
        && ">"@[0] == '>' && "<"@[0] == '<');
    assert("if"@.len() == 2 && "lambda"@.len() == 6 && "set"@.len() == 3 && "intern"@[0] == 'i'
        && "lambda"@[0] == 'l');
}

/// The application `(set 'x v)` of the built-in `set` to a quoted symbol and
/// a value that evaluates to itself gives the value and binds the symbol to
/// it in the global scope, from whatever depth of calls it is made; every
/// frame is after it as it was before.
pub proof fn law_set_reaches_global(scopes: Scopes, x: Seq<char>, v: Value, depth: nat)
    requires
        scopes.len() >= 1,
        depth >= 1,
        lookup(scopes, "set"@) == Some(
            function(Builtin::Assign, ArgumentsView::Fixed(seq!["name"@, "value"@])),
        ),
        v is Nil || v is Int || v is Float || v is Bool || v is Str,
    ensures
        eval_spec(
            scopes,
            Value::List(
                seq![Value::Symbol("set"@), Value::Quote(Box::new(Value::Symbol(x))), v],
            ),
            depth,
        ) == (Outcome { value: v, scopes: bind_global(scopes, x, v) }),
{
    let items = seq![Value::Symbol("set"@), Value::Quote(Box::new(Value::Symbol(x))), v];
    let inner = (depth - 1) as nat;
    let params = ArgumentsView::Fixed(seq!["name"@, "value"@]);
    let entered = scopes.push(Map::empty());
    let rest = items.drop_first();
    let tail = rest.drop_first();
    assert(rest[0] == Value::Quote(Box::new(Value::Symbol(x))));
    assert(tail[0] == v);
    assert(tail.drop_first().len() == 0);
    let last = eval_each(entered, tail.drop_first(), inner);
    assert(last == (Outcomes { values: Seq::empty(), scopes: entered }));
    assert(eval_spec(entered, v, inner) == (Outcome { value: v, scopes: entered }));
    let second = eval_each(entered, tail, inner);
    assert(second == (Outcomes { values: seq![v] + last.values, scopes: entered }));
    assert(second.values =~= seq![v]);
    assert(eval_spec(entered, rest[0], inner) == (Outcome {
        value: Value::Symbol(x),
        scopes: entered,
    }));
    let args = eval_each(entered, rest, inner);
    assert(args == (Outcomes {
        values: seq![Value::Symbol(x)] + second.values,
        scopes: entered,
    }));
    assert(args.values =~= seq![Value::Symbol(x), v]);
    let names = seq!["name"@, "value"@];
    let named = bind(entered, "name"@, Value::Symbol(x));
    let bound = bind(named, "value"@, v);
    assert(names.drop_first() =~= seq!["value"@]);
    assert(args.values.drop_first() =~= seq![v]);
    assert(names.drop_first().drop_first().len() == 0);
    assert(bind_each(named, names.drop_first(), args.values.drop_first()) == bound) by {
        assert(bind_each(bound, names.drop_first().drop_first(), seq![v].drop_first())
            == bound);
    }
    assert(bind_each(entered, names, args.values) == bound);
    assert("name"@ != "value"@) by {
        reveal_strlit("name");
        reveal_strlit("value");
        assert("name"@.len() != "value"@.len());
    }
    assert(lookup(bound, "value"@) == Some(v));
    assert(lookup(bound, "name"@) == Some(Value::Symbol(x))) by {
        assert(bound.last() == named.last().insert("value"@, v));
        assert(named.last() == entered.last().insert("name"@, Value::Symbol(x)));
    }
    assert(assign(bound) == (Outcome { value: v, scopes: bind_global(bound, x, v) }));
    assert(bind_global(bound, x, v).drop_last() =~= bind_global(scopes, x, v));
    assert(apply(scopes, items, depth) == leave(
        call(FunctionView::Builtin(Builtin::Assign), bound, inner),
    ));
}

/// The values of several expressions are as many as the expressions.
proof fn lemma_each_count(scopes: Scopes, items: Seq<Value>, depth: nat)
    ensures
        eval_each(scopes, items, depth).values.len() == items.len(),
    decreases items.len(),
{
    if items.len() > 0 {
        lemma_each_count(eval_spec(scopes, items[0], depth).scopes, items.drop_first(), depth);
    }
}

/// A callable with named parameters that is applied to another number of
/// arguments than it has parameters is not called: the application is a
/// fault.
pub proof fn law_arity_is_enforced(scopes: Scopes, items: Seq<Value>, depth: nat)
    requires
        depth >= 1,
        items.len() >= 1,
        match eval_spec(scopes, items[0], (depth - 1) as nat).value {
            Value::Fun(_, ArgumentsView::Fixed(names)) => names.len() != items.len() - 1,
            Value::Special(_, ArgumentsView::Fixed(names)) => names.len() != items.len() - 1,
            _ => false,
        },
    ensures
        eval_spec(scopes, Value::List(items), depth).value == fault("Wrong argument count"@),
{
    let inner = (depth - 1) as nat;
    let head = eval_spec(scopes, items[0], inner);
    lemma_each_count(head.scopes.push(Map::empty()), items.drop_first(), inner);
}

/// Binding names touches the innermost scope alone.
proof fn lemma_bind_each_keeps(scopes: Scopes, names: Seq<Seq<char>>, values: Seq<Value>)
    requires
        scopes.len() >= 1,
    ensures
        bind_each(scopes, names, values).len() == scopes.len(),
        bind_each(scopes, names, values).drop_last() == scopes.drop_last(),
    decreases names.len(),
{
    if names.len() > 0 && values.len() > 0 {
        let next = bind(scopes, names[0], values[0]);
        assert(next.drop_last() =~= scopes.drop_last());
        lemma_bind_each_keeps(next, names.drop_first(), values.drop_first());
    }
}

/// Binding the arguments of a call touches the innermost scope alone.
proof fn lemma_bind_args_keeps(scopes: Scopes, values: Seq<Value>, params: ArgumentsView)
    requires
        scopes.len() >= 1,
    ensures
        match bind_args(scopes, values, params) {
            Some(bound) => bound.len() == scopes.len() && bound.drop_last()
                == scopes.drop_last(),
            None => true,
        },
{
    match params {
        ArgumentsView::Variadic => {
            assert(bind(scopes, "varargs"@, Value::List(values)).drop_last()
                =~= scopes.drop_last());
        },
        ArgumentsView::Fixed(names) => {
            lemma_bind_each_keeps(scopes, names, values);
        },
    }
}

/// What a call leaves of the scopes, seen from the scopes before it: the
/// frame of the call is gone, and the frames of the calls around it are as
/// they were.
pub(crate) proof fn lemma_frame_closed(before: Scopes, entered: Scopes, bound: Scopes, called: Scopes)
    requires
        before.len() >= 1,
        same_frames(before.push(Map::empty()), entered),
        bound.len() == entered.len(),
        bound.drop_last() == entered.drop_last(),
        same_frames(bound, called),
    ensures
        same_frames(before, called.drop_last()),
{
    assert forall|i: int| 1 <= i < before.len() implies called.drop_last()[i] == before[i] by {
        assert(bound[i] == bound.drop_last()[i]);
        assert(entered[i] == entered.drop_last()[i]);
        assert(entered[i] == before.push(Map::empty())[i]);
    }
}

/// Evaluation changes no scope but the global one: every frame of a call
/// in progress is after it as it was before, and nothing that a call bound
/// in its own frame outlives the call.
pub proof fn law_eval_keeps_frames(scopes: Scopes, v: Value, depth: nat)
    requires
        scopes.len() >= 1,
    ensures
        same_frames(scopes, eval_spec(scopes, v, depth).scopes),
    decreases depth, 3int, 0nat,
{
    match v {
        Value::List(items) => {
            if items.len() > 0 {
                lemma_apply_keeps(scopes, items, depth);
            }
        },
        _ => {},
    }
}

/// An application keeps the frames.
proof fn lemma_apply_keeps(scopes: Scopes, items: Seq<Value>, depth: nat)
    requires
        scopes.len() >= 1,
        items.len() > 0,
    ensures
        same_frames(scopes, apply(scopes, items, depth).scopes),
    decreases depth, 2int, 0nat,
{
    if depth > 0 {
        let inner = (depth - 1) as nat;
        let head = eval_spec(scopes, items[0], inner);
        law_eval_keeps_frames(scopes, items[0], inner);
        let entered = head.scopes.push(Map::empty());
        match head.value {
            Value::Fun(f, params) => {
                let args = eval_each(entered, items.drop_first(), inner);
                lemma_each_keeps(entered, items.drop_first(), inner);
                lemma_bind_args_keeps(args.scopes, args.values, params);
                match bind_args(args.scopes, args.values, params) {
                    Some(bound) => {
                        lemma_call_keeps(f, bound, inner);
                        lemma_frame_closed(
                            head.scopes,
                            args.scopes,
                            bound,
                            call(f, bound, inner).scopes,
                        );
                    },
                    None => {
                        lemma_frame_closed(head.scopes, args.scopes, args.scopes, args.scopes);
                    },
                }
            },
            Value::Special(f, params) => {
                lemma_bind_args_keeps(entered, items.drop_first(), params);
                match bind_args(entered, items.drop_first(), params) {
                    Some(bound) => {
                        lemma_call_keeps(f, bound, inner);
                        lemma_frame_closed(
                            head.scopes,
                            entered,
                            bound,
                            call(f, bound, inner).scopes,
                        );
                    },
                    None => {
                        lemma_frame_closed(head.scopes, entered, entered, entered);
                    },
                }
            },
            _ => {},
        }
    }
}

/// The evaluation of several expressions keeps the frames.
proof fn lemma_each_keeps(scopes: Scopes, items: Seq<Value>, depth: nat)
    requires
        scopes.len() >= 1,
    ensures
        same_frames(scopes, eval_each(scopes, items, depth).scopes),
    decreases depth, 4int, items.len(),
{
    if items.len() > 0 {
        law_eval_keeps_frames(scopes, items[0], depth);
        lemma_each_keeps(eval_spec(scopes, items[0], depth).scopes, items.drop_first(), depth);
    }
}

/// `if` keeps the frames.
proof fn lemma_branch_keeps(scopes: Scopes, depth: nat)
    requires
        scopes.len() >= 1,
    ensures
        same_frames(scopes, branch(scopes, depth).scopes),
    decreases depth, 5int, 0nat,
{
    match lookup(scopes, "cond"@) {
        Some(cond) => {
            let tested = eval_spec(scopes, cond, depth);
            law_eval_keeps_frames(scopes, cond, depth);
            match (tested.value, lookup(tested.scopes, "expr1"@), lookup(tested.scopes, "expr2"@)) {
                (Value::Error(_), _, _) => {},
                (Value::Bool(true), Some(expr1), Some(_)) => {
                    law_eval_keeps_frames(tested.scopes, expr1, depth);
                },
                (Value::Bool(false), Some(_), Some(expr2)) => {
                    law_eval_keeps_frames(tested.scopes, expr2, depth);
                },
                _ => {},
            }
        },
        None => {},
    }
}

/// Every built-in keeps the frames.
proof fn lemma_builtin_keeps(b: Builtin, scopes: Scopes, depth: nat)
    requires
        scopes.len() >= 1,
    ensures
        same_frames(scopes, builtin(b, scopes, depth).scopes),
    decreases depth, 6int, 0nat,
{
    match b {
        Builtin::Branch => {
            lemma_branch_keeps(scopes, depth);
        },
        _ => {},
    }
}

/// Every call keeps the frames.
proof fn lemma_call_keeps(f: FunctionView, scopes: Scopes, depth: nat)
    requires
        scopes.len() >= 1,
    ensures
        same_frames(scopes, call(f, scopes, depth).scopes),
    decreases depth, 7int, 0nat,
{
    match f {
        FunctionView::Builtin(b) => {
            lemma_builtin_keeps(b, scopes, depth);
        },
        FunctionView::Dynamic(body) => {
            law_eval_keeps_frames(scopes, *body, depth);
        },
    }
}

} // verus!
