//! Expressions: what the reader builds and the evaluator gives back.

use vstd::prelude::*;

verus! {

/// The callables that every session starts with, each under the name that
/// the language gives it.
#[derive(Clone, Copy, Debug, PartialEq, Eq)]
pub enum Builtin {
    /// `+`
    Plus,
    /// `-`
    Minus,
    /// `*`
    Times,
    /// `/`
    Divide,
    /// `=`
    Equal,
    /// `<`
    Less,
    /// `>`
    Greater,
    /// `if`
    Branch,
    /// `lambda`
    Lambda,
    /// `set`
    Assign,
    /// `intern`
    Intern,
}

/// How the arguments of a call are bound in the frame of the call.
#[derive(Debug, PartialEq, Eq)]
pub enum Arguments {
    /// All of them as one list, under the name `varargs`.
    Variadic,
    /// Each under the name of its parameter; the call must have as many
    /// arguments as there are names.
    Fixed(Vec<String>),
}

/// What a callable does when it is called.
#[derive(Debug, PartialEq, Eq)]
pub enum Function {
    /// The work of a built-in.
    Builtin(Builtin),
    /// The evaluation of an expression, in the scopes of the call.
    Dynamic(Box<Expr>),
}

/// A value of the language; every piece of syntax is one too.
#[derive(Debug, PartialEq, Eq)]
pub enum Expr {
    Nil,
    Bool(bool),
    Int(i64),
    /// An IEEE 754 binary64 number, held as its bit pattern.
    Float(u64),
    Str(String),
    Symbol(String),
    /// An expression that evaluates to what it holds, unevaluated.
    Quote(Box<Expr>),
    /// A callable that gets its arguments evaluated.
    Fun(Function, Arguments),
    /// A callable that gets its arguments as they stand.
    Special(Function, Arguments),
    List(Vec<Expr>),
    /// A computation that failed, with the reason in words.
    Error(String),
}

/// The view of an argument policy.
pub enum ArgumentsView {
    Variadic,
    Fixed(Seq<Seq<char>>),
}

/// The view of a callable.
pub enum FunctionView {
    Builtin(Builtin),
    Dynamic(Box<Value>),
}

/// The view of an expression: the same value, with texts as sequences of
/// characters and lists as sequences of values.
pub enum Value {
    Nil,
    Bool(bool),
    Int(i64),
    Float(u64),
    Str(Seq<char>),
    Symbol(Seq<char>),
    Quote(Box<Value>),
    Fun(FunctionView, ArgumentsView),
    Special(FunctionView, ArgumentsView),
    List(Seq<Value>),
    Error(Seq<char>),
}

impl View for Arguments {
    type V = ArgumentsView;

    open spec fn view(&self) -> ArgumentsView {
        match self {
            Arguments::Variadic => ArgumentsView::Variadic,
            Arguments::Fixed(names) => ArgumentsView::Fixed(names@.map_values(|s: String| s@)),
        }
    }
}

/// The mathematical value of a callable.
pub open spec fn function_value(f: Function) -> FunctionView
    decreases f,
{
    match f {
        Function::Builtin(b) => FunctionView::Builtin(b),
        Function::Dynamic(body) => FunctionView::Dynamic(Box::new(expr_value(*body))),
    }
}

/// The mathematical value of an expression.
pub open spec fn expr_value(e: Expr) -> Value
    decreases e,
{
    match e {
        Expr::Nil => Value::Nil,
        Expr::Bool(b) => Value::Bool(b),
        Expr::Int(n) => Value::Int(n),
        Expr::Float(bits) => Value::Float(bits),
        Expr::Str(s) => Value::Str(s@),
        Expr::Symbol(s) => Value::Symbol(s@),
        Expr::Quote(inner) => Value::Quote(Box::new(expr_value(*inner))),
        Expr::Fun(f, args) => Value::Fun(function_value(f), args@),
        Expr::Special(f, args) => Value::Special(function_value(f), args@),
        Expr::List(items) => Value::List(values_of(items@)),
        Expr::Error(message) => Value::Error(message@),
    }
}

/// The mathematical values of a sequence of expressions.
pub open spec fn values_of(items: Seq<Expr>) -> Seq<Value>
    decreases items,
{
    Seq::new(
        items.len(),
        |i: int|
            if 0 <= i < items.len() {
                expr_value(items[i])
            } else {
                Value::Nil
            },
    )
}

/// The view of a list holds the view of each of its items, in order.
pub proof fn lemma_list_view(items: Seq<Expr>)
    ensures
        values_of(items).len() == items.len(),
        forall|i: int| 0 <= i < items.len() ==> #[trigger] values_of(items)[i] == items[i]@,
{
    reveal_with_fuel(values_of, 2);
}

/// The view of a callable, and of an expression that holds one, is made of
/// the views of its parts.
pub proof fn lemma_callable_view(f: Function, args: Arguments)
    ensures
        Expr::Fun(f, args)@ == Value::Fun(f@, args@),
        Expr::Special(f, args)@ == Value::Special(f@, args@),
        match f {
            Function::Builtin(b) => f@ == FunctionView::Builtin(b),
            Function::Dynamic(body) => f@ == FunctionView::Dynamic(Box::new(body@)),
        },
{
}

impl View for Function {
    type V = FunctionView;

    open spec fn view(&self) -> FunctionView {
        function_value(*self)
    }
}

impl View for Expr {
    type V = Value;

    open spec fn view(&self) -> Value {
        expr_value(*self)
    }
}

/// A copy of a list of parameter names.
pub fn copy_names(names: &Vec<String>) -> (r: Vec<String>)
    ensures
        r@.map_values(|s: String| s@) == names@.map_values(|s: String| s@),
{
    let mut out: Vec<String> = Vec::new();
    let mut i: usize = 0;
    while i < names.len()
        invariant
            i <= names.len(),
            out@.len() == i,
            forall|j: int| 0 <= j < i ==> out@[j]@ == names@[j]@,
        decreases names.len() - i,
    {
        out.push(names[i].clone());
        i += 1;
    }
    assert(out@.map_values(|s: String| s@) =~= names@.map_values(|s: String| s@));
    out
}

impl Clone for Arguments {
    fn clone(&self) -> (r: Self)
        ensures
            r@ == self@,
    {
        match self {
            Arguments::Variadic => Arguments::Variadic,
            Arguments::Fixed(names) => Arguments::Fixed(copy_names(names)),
        }
    }
}

impl Clone for Function {
    fn clone(&self) -> (r: Self)
        ensures
            r@ == self@,
        decreases self,
    {
        match self {
            Function::Builtin(b) => Function::Builtin(*b),
            Function::Dynamic(body) => Function::Dynamic(Box::new((&**body).clone())),
        }
    }
}

impl Clone for Expr {
    fn clone(&self) -> (r: Self)
        ensures
            r@ == self@,
        decreases self,
    {
        match self {
            Expr::Nil => Expr::Nil,
            Expr::Bool(b) => Expr::Bool(*b),
            Expr::Int(n) => Expr::Int(*n),
            Expr::Float(bits) => Expr::Float(*bits),
            Expr::Str(s) => Expr::Str(s.clone()),
            Expr::Symbol(s) => Expr::Symbol(s.clone()),
            Expr::Quote(inner) => Expr::Quote(Box::new((&**inner).clone())),
            Expr::Fun(f, args) => Expr::Fun(f.clone(), args.clone()),
            Expr::Special(f, args) => Expr::Special(f.clone(), args.clone()),
            Expr::List(items) => {
                let mut out: Vec<Expr> = Vec::new();
                let mut i: usize = 0;
                while i < items.len()
                    invariant
                        i <= items.len(),
                        out@.len() == i,
                        forall|j: int| 0 <= j < i ==> out@[j]@ == items@[j]@,
                        *self == Expr::List(*items),
                    decreases items.len() - i,
                {
                    proof {
                        assert(decreases_to!(*self => self->List_0@[i as int]));
                    }
                    out.push(items[i].clone());
                    i += 1;
                }
                let r = Expr::List(out);
                proof {
                    lemma_list_view(out@);
                    lemma_list_view(items@);
                }
                assert(r@->List_0 =~= self@->List_0);
                r
            },
            Expr::Error(message) => Expr::Error(message.clone()),
        }
    }
}

impl Arguments {
    /// Whether two argument policies are the same.
    pub fn equals(&self, other: &Arguments) -> (r: bool)
        ensures
            r == (self@ == other@),
    {
        match (self, other) {
            (Arguments::Variadic, Arguments::Variadic) => true,
            (Arguments::Fixed(a), Arguments::Fixed(b)) => {
                if a.len() != b.len() {
                    assert(self@->Fixed_0.len() != other@->Fixed_0.len());
                    return false;
                }
                let mut i: usize = 0;
                while i < a.len()
                    invariant
                        i <= a.len(),
                        a.len() == b.len(),
                        forall|j: int| 0 <= j < i ==> a@[j]@ == b@[j]@,
                        *self == Arguments::Fixed(*a),
                        *other == Arguments::Fixed(*b),
                    decreases a.len() - i,
                {
                    if a[i] != b[i] {
                        assert(self@->Fixed_0[i as int] != other@->Fixed_0[i as int]);
                        return false;
                    }
                    i += 1;
                }
                assert(self@->Fixed_0 =~= other@->Fixed_0);
                true
            },
            _ => false,
        }
    }
}

impl Function {
    /// Structural equality of callables.
    pub fn equals(&self, other: &Function) -> (r: bool)
        ensures
            r == (self@ == other@),
        decreases self,
    {
        match (self, other) {
            (Function::Builtin(a), Function::Builtin(b)) => builtin_index(*a) == builtin_index(*b),
            (Function::Dynamic(a), Function::Dynamic(b)) => (&**a).equals(&**b),
            _ => false,
        }
    }
}

/// The place of a built-in in the catalog.
pub fn builtin_index(b: Builtin) -> (r: u8)
    ensures
        r == builtin_index_spec(b),
{
    match b {
        Builtin::Plus => 0,
        Builtin::Minus => 1,
        Builtin::Times => 2,
        Builtin::Divide => 3,
        Builtin::Equal => 4,
        Builtin::Less => 5,
        Builtin::Greater => 6,
        Builtin::Branch => 7,
        Builtin::Lambda => 8,
        Builtin::Assign => 9,
        Builtin::Intern => 10,
    }
}

/// The place of a built-in in the catalog.
pub open spec fn builtin_index_spec(b: Builtin) -> u8 {
    match b {
        Builtin::Plus => 0,
        Builtin::Minus => 1,
        Builtin::Times => 2,
        Builtin::Divide => 3,
        Builtin::Equal => 4,
        Builtin::Less => 5,
        Builtin::Greater => 6,
        Builtin::Branch => 7,
        Builtin::Lambda => 8,
        Builtin::Assign => 9,
        Builtin::Intern => 10,
    }
}

impl Expr {
    /// Structural equality: two expressions are equal when they are of the
    /// same kind and hold equal parts. Two floats are equal when their bit
    /// patterns are, so a NaN equals itself and the two zeros differ.
    pub fn equals(&self, other: &Expr) -> (r: bool)
        ensures
            r == (self@ == other@),
        decreases self,
    {
        match (self, other) {
            (Expr::Nil, Expr::Nil) => true,
            (Expr::Bool(a), Expr::Bool(b)) => *a == *b,
            (Expr::Int(a), Expr::Int(b)) => *a == *b,
            (Expr::Float(a), Expr::Float(b)) => *a == *b,
            (Expr::Str(a), Expr::Str(b)) => *a == *b,
            (Expr::Symbol(a), Expr::Symbol(b)) => *a == *b,
            (Expr::Quote(a), Expr::Quote(b)) => (&**a).equals(&**b),
            (Expr::Fun(f, a), Expr::Fun(g, b)) => f.equals(g) && a.equals(b),
            (Expr::Special(f, a), Expr::Special(g, b)) => f.equals(g) && a.equals(b),
            (Expr::List(a), Expr::List(b)) => {
                proof {
                    lemma_list_view(a@);
                    lemma_list_view(b@);
                }
                if a.len() != b.len() {
                    assert(self@->List_0.len() != other@->List_0.len());
                    return false;
                }
                let mut i: usize = 0;
                while i < a.len()
                    invariant
                        i <= a.len(),
                        a.len() == b.len(),
                        forall|j: int| 0 <= j < i ==> a@[j]@ == b@[j]@,
                        *self == Expr::List(*a),
                        *other == Expr::List(*b),
                    decreases a.len() - i,
                {
                    proof {
                        assert(decreases_to!(*self => self->List_0@[i as int]));
                        lemma_list_view(a@);
                        lemma_list_view(b@);
                    }
                    if !a[i].equals(&b[i]) {
                        assert(self@->List_0[i as int] != other@->List_0[i as int]);
                        return false;
                    }
                    i += 1;
                }
                proof {
                    lemma_list_view(a@);
                    lemma_list_view(b@);
                }
                assert(self@->List_0 =~= other@->List_0);
                true
            },
            (Expr::Error(a), Expr::Error(b)) => *a == *b,
            _ => false,
        }
    }
}

} // verus!
