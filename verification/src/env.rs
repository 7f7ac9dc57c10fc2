//! The session: its scopes, and the evaluator that works on them.

use crate::builtin::{load, run};
use crate::expr::{lemma_list_view, values_of, Arguments, Expr, Function, Value};
use crate::laws::lemma_frame_closed;
use crate::render::render;
use crate::semantics::{
    apply, bind, bind_args, bind_each, bind_global, call, depth_limit, eval_each, eval_spec,
    fresh, lookup, Outcome, Outcomes, Scope, Scopes, DEPTH_LIMIT,
};
use vstd::hash_map::StringHashMap;
use vstd::prelude::*;
use vstd::string::*;

verus! {

/// The bindings of one scope as values.
pub open spec fn scope_view(m: Map<Seq<char>, Expr>) -> Scope {
    m.map_values(|e: Expr| e@)
}

/// Whether two stacks of scopes differ at most in the global scope.
pub open spec fn same_frames(before: Scopes, after: Scopes) -> bool {
    &&& after.len() == before.len()
    &&& forall|i: int| 1 <= i < before.len() ==> after[i] == before[i]
}

/// Whether an evaluation that returned `r` and left the scopes `after` did
/// what the outcome says, and touched no scope but the global one.
pub open spec fn gives(r: Expr, before: Scopes, after: Scopes, o: Outcome) -> bool {
    &&& r@ == o.value
    &&& after == o.scopes
    &&& same_frames(before, after)
}

/// The state of a session: the global scope, which lasts, and above it the
/// frames of the calls in progress.
pub struct Env {
    globals: StringHashMap<Expr>,
    frames: Vec<StringHashMap<Expr>>,
}

impl View for Env {
    type V = Scopes;

    closed spec fn view(&self) -> Scopes {
        seq![scope_view(self.globals@)] + Seq::new(
            self.frames@.len(),
            |i: int| scope_view(self.frames@[i]@),
        )
    }
}

impl Env {
    /// A session has its global scope, whatever calls are in progress.
    pub proof fn lemma_has_global(&self)
        ensures
            self@.len() >= 1,
    {
    }

    /// A new session: the global scope holds the built-ins, and no call is in
    /// progress.
    pub fn new() -> (r: Env)
        ensures
            r@ == fresh(),
    {
        let mut r = Env::empty();
        load(&mut r);
        r
    }

    /// An environment with an empty global scope and no call in progress.
    pub fn empty() -> (r: Env)
        ensures
            r@ == seq![Map::<Seq<char>, Value>::empty()],
    {
        let r = Env { globals: StringHashMap::new(), frames: Vec::new() };
        assert(r@ =~~= seq![Map::<Seq<char>, Value>::empty()]);
        r
    }

    /// Binds a name in the global scope.
    pub fn insert_parent(&mut self, key: String, value: Expr)
        ensures
            final(self)@ == bind_global(old(self)@, key@, value@),
    {
        self.globals.insert(key, value);
        assert(self@ =~~= bind_global(old(self)@, key@, value@));
    }

    /// Binds a name in the innermost scope.
    pub fn insert(&mut self, key: String, value: Expr)
        ensures
            final(self)@ == bind(old(self)@, key@, value@),
    {
        match self.frames.pop() {
            Some(mut top) => {
                top.insert(key, value);
                self.frames.push(top);
            },
            None => {
                self.globals.insert(key, value);
            },
        }
        assert(self@ =~~= bind(old(self)@, key@, value@));
    }

    /// What a name stands for: its binding in the innermost scope that has
    /// one, or `None` where no scope binds it.
    pub fn get(&self, key: String) -> (r: Option<Expr>)
        ensures
            match r {
                Some(e) => lookup(self@, key@) == Some(e@),
                None => lookup(self@, key@) is None,
            },
    {
        self.find(key.as_str())
    }

    /// What a name stands for.
    pub fn find(&self, key: &str) -> (r: Option<Expr>)
        ensures
            match r {
                Some(e) => lookup(self@, key@) == Some(e@),
                None => lookup(self@, key@) is None,
            },
    {
        let mut i: usize = self.frames.len();
        assert(self@.take(i + 1) =~= self@);
        while i > 0
            invariant
                i <= self.frames.len(),
                lookup(self@, key@) == lookup(self@.take(i + 1), key@),
            decreases i,
        {
            proof {
                assert(self@.take(i + 1).drop_last() =~= self@.take(i as int));
                assert(self@.take(i + 1).last() == scope_view(self.frames@[i - 1]@));
            }
            match self.frames[i - 1].get(key) {
                Some(found) => {
                    return Some(found.clone());
                },
                None => {},
            }
            i -= 1;
        }
        proof {
            assert(self@.take(1).drop_last() =~= Seq::<Scope>::empty());
            assert(lookup(Seq::<Scope>::empty(), key@) is None);
            assert(self@.take(1).last() == scope_view(self.globals@));
        }
        match self.globals.get(key) {
            Some(found) => Some(found.clone()),
            None => None,
        }
    }

    /// Opens the frame of a call.
    pub(crate) fn enter(&mut self)
        ensures
            final(self)@ == old(self)@.push(Map::empty()),
    {
        self.frames.push(StringHashMap::new());
        assert(self@ =~~= old(self)@.push(Map::empty()));
    }

    /// Closes the frame of the innermost call.
    pub(crate) fn exit(&mut self)
        requires
            old(self)@.len() >= 2,
        ensures
            final(self)@ == old(self)@.drop_last(),
    {
        self.frames.pop();
        assert(self@ =~~= old(self)@.drop_last());
    }

    /// Evaluates an expression in this session, with at most `DEPTH_LIMIT`
    /// applications nested. Faults come back as `Error` values. Whatever is
    /// evaluated, the calls in progress keep their frames as they were: only
    /// the global scope can change.
    pub fn eval(&mut self, value: &Expr) -> (r: Expr)
        ensures
            gives(r, old(self)@, final(self)@, eval_spec(old(self)@, value@, depth_limit())),
    {
        self.eval_at(value, DEPTH_LIMIT)
    }

    /// Evaluates an expression with a bound on how many applications may be
    /// nested inside it.
    pub fn eval_at(&mut self, value: &Expr, depth: usize) -> (r: Expr)
        ensures
            gives(r, old(self)@, final(self)@, eval_spec(old(self)@, value@, depth as nat)),
        decreases depth, 3int, 0nat,
    {
        match value {
            Expr::Symbol(name) => {
                match self.find(name.as_str()) {
                    Some(bound) => bound,
                    None => {
                        let mut message = String::from_str("Unbound symbol: ");
                        message.append(name.as_str());
                        Expr::Error(message)
                    },
                }
            },
            Expr::Quote(inner) => (&**inner).clone(),
            Expr::List(list) => {
                proof {
                    lemma_list_view(list@);
                }
                if list.len() == 0 {
                    Expr::Nil
                } else {
                    self.eval_list(list, depth)
                }
            },
            _ => value.clone(),
        }
    }

    /// Applies the first item of a list to the others.
    pub(crate) fn eval_list(&mut self, list: &Vec<Expr>, depth: usize) -> (r: Expr)
        requires
            list.len() > 0,
        ensures
            gives(r, old(self)@, final(self)@, apply(old(self)@, values_of(list@), depth as nat)),
        decreases depth, 2int, 0nat,
    {
        proof {
            lemma_list_view(list@);
        }
        if depth == 0 {
            return Expr::Error(String::from_str("Recursion limit exceeded"));
        }
        let inner = depth - 1;
        let ghost items = values_of(list@);
        let head = self.eval_at(&list[0], inner);
        let ghost headed = self@;
        match head {
            Expr::Fun(f, params) => {
                self.enter();
                let ghost entered = self@;
                let mut args: Vec<Expr> = Vec::new();
                let mut i: usize = 1;
                proof {
                    lemma_list_view(args@);
                    assert(items.skip(1) =~= items.drop_first());
                    assert(Seq::<Value>::empty() + eval_each(
                        entered,
                        items.skip(1),
                        inner as nat,
                    ).values =~= eval_each(entered, items.skip(1), inner as nat).values);
                }
                while i < list.len()
                    invariant
                        1 <= i <= list.len(),
                        items == values_of(list@),
                        inner < depth,
                        same_frames(entered, self@),
                        eval_each(entered, items.drop_first(), inner as nat) == (Outcomes {
                            values: values_of(args@) + eval_each(
                                self@,
                                items.skip(i as int),
                                inner as nat,
                            ).values,
                            scopes: eval_each(self@, items.skip(i as int), inner as nat).scopes,
                        }),
                    decreases list.len() - i,
                {
                    let ghost before = self@;
                    let ghost done = values_of(args@);
                    let arg = self.eval_at(&list[i], inner);
                    proof {
                        lemma_list_view(list@);
                        lemma_list_view(args@);
                        lemma_list_view(args@.push(arg));
                        assert(items.skip(i as int)[0] == list@[i as int]@);
                        assert(items.skip(i as int).drop_first() =~= items.skip(i + 1));
                        assert(values_of(args@.push(arg)) =~= done.push(arg@));
                        let rest = eval_each(self@, items.skip(i + 1), inner as nat);
                        assert(done + (seq![arg@] + rest.values) =~= done.push(arg@)
                            + rest.values);
                    }
                    args.push(arg);
                    i += 1;
                }
                proof {
                    lemma_list_view(args@);
                    assert(items.skip(list.len() as int) =~= Seq::<Value>::empty());
                    assert(values_of(args@) + Seq::<Value>::empty() =~= values_of(args@));
                }
                let ghost evaluated = self@;
                let fits = self.bind_args(&args, &params);
                let ghost bound = self@;
                let result = if fits {
                    self.eval_fun(&f, inner)
                } else {
                    Expr::Error(String::from_str("Wrong argument count"))
                };
                let ghost called = self@;
                self.exit();
                proof {
                    lemma_frame_closed(headed, evaluated, bound, called);
                }
                result
            },
            Expr::Special(f, params) => {
                self.enter();
                let mut rest: Vec<Expr> = Vec::new();
                let mut i: usize = 1;
                while i < list.len()
                    invariant
                        1 <= i <= list.len(),
                        rest@.len() == i - 1,
                        forall|j: int| 0 <= j < i - 1 ==> rest@[j]@ == list@[j + 1]@,
                    decreases list.len() - i,
                {
                    rest.push(list[i].clone());
                    i += 1;
                }
                proof {
                    lemma_list_view(rest@);
                    assert(values_of(rest@) =~= items.drop_first());
                }
                let ghost entered = self@;
                let fits = self.bind_args(&rest, &params);
                let ghost bound = self@;
                let result = if fits {
                    self.eval_fun(&f, inner)
                } else {
                    Expr::Error(String::from_str("Wrong argument count"))
                };
                let ghost called = self@;
                self.exit();
                proof {
                    lemma_frame_closed(headed, entered, bound, called);
                }
                result
            },
            other => {
                let mut message = String::from_str("cannot apply ");
                message.append(render(&other).as_str());
                Expr::Error(message)
            },
        }
    }

    /// Calls a callable in the innermost frame.
    pub(crate) fn eval_fun(&mut self, fun: &Function, depth: usize) -> (r: Expr)
        ensures
            gives(r, old(self)@, final(self)@, call(fun@, old(self)@, depth as nat)),
        decreases depth, 7int, 0nat,
    {
        match fun {
            Function::Builtin(b) => run(self, *b, depth),
            Function::Dynamic(body) => self.eval_at(&**body, depth),
        }
    }

    /// Binds the arguments of a call in the innermost frame, and says whether
    /// the call has as many of them as the callable takes.
    pub(crate) fn bind_args(&mut self, exprs: &Vec<Expr>, args: &Arguments) -> (r: bool)
        ensures
            match bind_args(old(self)@, values_of(exprs@), args@) {
                Some(bound) => r && final(self)@ == bound,
                None => !r && final(self)@ == old(self)@,
            },
            final(self)@.len() == old(self)@.len(),
            final(self)@.drop_last() == old(self)@.drop_last(),
    {
        proof {
            lemma_list_view(exprs@);
        }
        match args {
            Arguments::Variadic => {
                let mut all: Vec<Expr> = Vec::new();
                let mut i: usize = 0;
                while i < exprs.len()
                    invariant
                        i <= exprs.len(),
                        all@.len() == i,
                        forall|j: int| 0 <= j < i ==> all@[j]@ == exprs@[j]@,
                    decreases exprs.len() - i,
                {
                    all.push(exprs[i].clone());
                    i += 1;
                }
                proof {
                    lemma_list_view(all@);
                    assert(values_of(all@) =~= values_of(exprs@));
                }
                self.insert(String::from_str("varargs"), Expr::List(all));
                assert(self@.drop_last() =~= old(self)@.drop_last());
                true
            },
            Arguments::Fixed(names) => {
                if names.len() != exprs.len() {
                    return false;
                }
                let ghost all_names = args@->Fixed_0;
                let ghost all_values = values_of(exprs@);
                let mut i: usize = 0;
                assert(all_names.skip(0) =~= all_names);
                assert(all_values.skip(0) =~= all_values);
                while i < names.len()
                    invariant
                        i <= names.len(),
                        names.len() == exprs.len(),
                        all_names == names@.map_values(|s: String| s@),
                        all_values == values_of(exprs@),
                        self@.len() == old(self)@.len(),
                        self@.drop_last() == old(self)@.drop_last(),
                        bind_each(old(self)@, all_names, all_values) == bind_each(
                            self@,
                            all_names.skip(i as int),
                            all_values.skip(i as int),
                        ),
                    decreases names.len() - i,
                {
                    let ghost before = self@;
                    proof {
                        lemma_list_view(exprs@);
                        assert(all_names.skip(i as int).drop_first() =~= all_names.skip(i + 1));
                        assert(all_values.skip(i as int).drop_first() =~= all_values.skip(
                            i + 1,
                        ));
                    }
                    self.insert(names[i].clone(), exprs[i].clone());
                    assert(self@.drop_last() =~= before.drop_last());
                    i += 1;
                }
                true
            },
        }
    }
}

} // verus!
