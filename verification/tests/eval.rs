use libchao::parse;
use libchao::Env;
use libchao::Expr;
use libchao::Expr::{Bool, Error, Float, Int, List, Nil, Quote, Str, Symbol};

fn run(env: &mut Env, source: &str) -> Expr {
    let expr = parse(source).expect("the source is an expression");
    env.eval(&expr)
}

fn eval(source: &str) -> Expr {
    let mut env = Env::new();
    run(&mut env, source)
}

fn float(x: f64) -> Expr {
    Float(x.to_bits())
}

fn less(a: Expr, b: Expr) -> Expr {
    Env::new().eval(&List(vec![Symbol("<".to_string()), a, b]))
}

fn greater(a: Expr, b: Expr) -> Expr {
    Env::new().eval(&List(vec![Symbol(">".to_string()), a, b]))
}

fn text(s: &str) -> Expr {
    Str(s.to_string())
}

fn quoted(e: Expr) -> Expr {
    Quote(Box::new(e))
}

fn is_error(e: &Expr) -> bool {
    matches!(e, Error(_))
}

#[test]
fn literals_evaluate_to_themselves() {
    let mut env = Env::new();
    for e in [
        Nil,
        Int(-7),
        float(2.5),
        Bool(true),
        Str("text".to_string()),
        Error("kept".to_string()),
    ] {
        assert_eq!(env.eval(&e), e);
    }
}

#[test]
fn quote_gives_what_it_quotes() {
    assert_eq!(eval("'a"), Symbol("a".to_string()));
    assert_eq!(
        eval("'(+ 1 2)"),
        List(vec![Symbol("+".to_string()), Int(1), Int(2)])
    );
    assert_eq!(eval("''1"), Quote(Box::new(Int(1))));
}

#[test]
fn empty_list_evaluates_to_nil() {
    let mut env = Env::new();
    assert_eq!(env.eval(&List(vec![])), Nil);
    assert_eq!(eval("()"), Nil);
}

#[test]
fn unbound_symbol_is_an_error() {
    assert_eq!(eval("nowhere"), Error("Unbound symbol: nowhere".to_string()));
}

#[test]
fn arithmetic_coercion_table() {
    assert_eq!(eval("(+ 1 2)"), Int(3));
    assert_eq!(eval("(+ 1 2.0)"), float(3.0));
    assert_eq!(eval("(+ 1.5 2)"), float(3.5));
    assert_eq!(eval("(+ 0.5 0.25)"), float(0.75));
    assert_eq!(eval("(+ \"a\" \"b\")"), Str("ab".to_string()));
    assert_eq!(eval("(+ \"a\" \"b\" \"c\")"), Str("abc".to_string()));
    assert_eq!(eval("(+ \"a\")"), Str("a".to_string()));
    assert_eq!(
        eval("(+ \"a\" 1)"),
        Error("Can't add \"a\" and 1".to_string())
    );
    assert_eq!(eval("(+ nil)"), Error("Can't add 0 and nil".to_string()));
    assert_eq!(
        eval("(+ 1 \"a\")"),
        Error("Can't add 1 and \"a\"".to_string())
    );
    assert_eq!(eval("(- 5 2)"), Int(3));
    assert_eq!(eval("(- 5 2.0)"), float(3.0));
    assert_eq!(eval("(* 3 4)"), Int(12));
    assert_eq!(eval("(* 3 0.5)"), float(1.5));
    assert_eq!(eval("(/ 7 2)"), Int(3));
    assert_eq!(eval("(/ 7 2.0)"), float(3.5));
    assert_eq!(eval("(/ 1.0 4)"), float(0.25));
    assert_eq!(
        eval("(- \"a\" 1)"),
        Error("Can't subtract 1 from \"a\"".to_string())
    );
    assert_eq!(
        eval("(* 2 nil)"),
        Error("Can't multiply 2 with nil".to_string())
    );
    assert_eq!(
        eval("(/ 1 true)"),
        Error("Can't divide 1 by true".to_string())
    );
}

#[test]
fn variadic_folds() {
    assert_eq!(eval("(+)"), Int(0));
    assert_eq!(eval("(*)"), Int(1));
    assert_eq!(eval("(+ 1 2 3 4)"), Int(10));
    assert_eq!(eval("(* 1 2 3 4)"), Int(24));
    assert_eq!(eval("(- 10 1 2 3)"), Int(4));
    assert_eq!(eval("(/ 100 2 5)"), Int(10));
    assert_eq!(eval("(- 3)"), Int(-3));
    assert_eq!(eval("(/ 2)"), Int(0));
    assert_eq!(eval("(/ 2.0)"), float(0.5));
    assert_eq!(
        eval("(-)"),
        Error("sub requires at least one argument".to_string())
    );
    assert_eq!(
        eval("(/)"),
        Error("div requires at least one argument".to_string())
    );
}

#[test]
fn integer_division_by_zero_is_an_error() {
    assert_eq!(eval("(/ 1 0)"), Error("Division by zero".to_string()));
    assert_eq!(eval("(/ 0)"), Error("Division by zero".to_string()));
}

#[test]
fn float_division_by_zero_follows_ieee() {
    assert_eq!(eval("(/ 1.0 0)"), float(f64::INFINITY));
    assert_eq!(eval("(/ 1 0.0)"), float(f64::INFINITY));
    match eval("(/ 0.0 0.0)") {
        Float(bits) => assert!(f64::from_bits(bits).is_nan()),
        other => panic!("not a float: {:?}", other),
    }
}

#[test]
fn integer_overflow_is_an_error() {
    assert_eq!(
        eval("(+ 9223372036854775807 1)"),
        Error("Integer overflow".to_string())
    );
    assert_eq!(
        eval("(* 9223372036854775807 2)"),
        Error("Integer overflow".to_string())
    );
    assert_eq!(
        eval("(- (- 0 9223372036854775807) 2)"),
        Error("Integer overflow".to_string())
    );
    assert_eq!(
        eval("(/ (- (- 0 9223372036854775807) 1) (- 1))"),
        Error("Integer overflow".to_string())
    );
    assert_eq!(
        eval("(- (- 0 9223372036854775807) 1)"),
        Int(i64::MIN)
    );
}

#[test]
fn errors_propagate_through_arithmetic() {
    assert!(is_error(&eval("(+ 1 (/ 1 0))")));
    assert!(is_error(&eval("(+ 1 nowhere)")));
}

#[test]
fn equality() {
    assert_eq!(eval("(= 1 1)"), Bool(true));
    assert_eq!(eval("(= 1 2)"), Bool(false));
    assert_eq!(eval("(= 1 1 1)"), Bool(true));
    assert_eq!(eval("(= 1 1 2)"), Bool(false));
    assert_eq!(eval("(= \"a\" \"a\")"), Bool(true));
    assert_eq!(eval("(= '(1 2) '(1 2))"), Bool(true));
    assert_eq!(eval("(= '(1 2) '(1 3))"), Bool(false));
    assert_eq!(eval("(= 1 1.0)"), Bool(false));
    assert_eq!(eval("(= 5)"), Bool(true));
    assert_eq!(eval("(= nil)"), Bool(false));
    assert_eq!(eval("(= nil nil)"), Bool(true));
    assert_eq!(
        eval("(=)"),
        Error("eq requires a at least one argument".to_string())
    );
}

#[test]
fn ordering() {
    assert_eq!(less(Int(1), Int(2)), Bool(true));
    assert_eq!(less(Int(2), Int(1)), Bool(false));
    assert_eq!(less(Int(1), Int(1)), Bool(false));
    assert_eq!(greater(Int(2), Int(1)), Bool(true));
    assert_eq!(greater(Int(1), Int(2)), Bool(false));
    assert_eq!(less(Int(-3), Int(2)), Bool(true));
    assert_eq!(less(Int(1), float(1.5)), Bool(true));
    assert_eq!(greater(float(2.5), Int(2)), Bool(true));
    assert_eq!(less(float(0.5), float(0.25)), Bool(false));
    assert_eq!(less(float(-1.0), float(0.0)), Bool(true));
    assert_eq!(less(float(-0.0), float(0.0)), Bool(false));
    assert_eq!(less(text("a"), text("b")), Bool(true));
    assert_eq!(less(text("ab"), text("a")), Bool(false));
    assert_eq!(less(text("a"), text("ab")), Bool(true));
    assert_eq!(less(text("Z"), text("a")), Bool(true));
    assert_eq!(less(text(""), text("")), Bool(false));
    assert_eq!(
        less(quoted(Symbol("a".to_string())), quoted(Symbol("b".to_string()))),
        Bool(true)
    );
    assert_eq!(less(Bool(false), Bool(true)), Bool(true));
    assert_eq!(greater(Bool(false), Bool(true)), Bool(false));
    assert_eq!(
        less(quoted(quoted(Int(1))), quoted(quoted(Int(2)))),
        Bool(true)
    );
    assert_eq!(less(quoted(Nil), quoted(Nil)), Bool(false));
    assert_eq!(
        less(Int(1), text("a")),
        Error("Can't compare 1 and \"a\"".to_string())
    );
    assert_eq!(
        greater(quoted(List(vec![Int(1)])), quoted(List(vec![Int(2)]))),
        Error("Can't compare (1) and (2)".to_string())
    );
    assert!(is_error(&less(float(f64::NAN), float(1.0))));
    let mut env = Env::new();
    let plus = run(&mut env, "+");
    assert!(is_error(&less(plus.clone(), plus)));
    assert_eq!(
        env.eval(&List(vec![Symbol("<".to_string()), Int(1)])),
        Error("Wrong argument count".to_string())
    );
    assert_eq!(
        env.eval(&List(vec![Symbol("<".to_string()), Int(1), Int(2), Int(3)])),
        Error("Wrong argument count".to_string())
    );
}

#[test]
fn if_is_lazy() {
    assert_eq!(eval("(if true 1 (/ 1 0))"), Int(1));
    assert_eq!(eval("(if false (/ 1 0) 2)"), Int(2));
    let mut env = Env::new();
    assert_eq!(run(&mut env, "(if true 1 (set 'touched 1))"), Int(1));
    assert_eq!(
        run(&mut env, "touched"),
        Error("Unbound symbol: touched".to_string())
    );
    assert_eq!(run(&mut env, "(if false 1 (set 'touched 2))"), Int(2));
    assert_eq!(run(&mut env, "touched"), Int(2));
}

#[test]
fn if_wants_a_bool() {
    assert_eq!(eval("(if 1 2 3)"), Error("not a bool".to_string()));
    assert_eq!(eval("(if (/ 1 0) 2 3)"), Error("Division by zero".to_string()));
    assert_eq!(eval("(if (= 1 1) 'yes 'no)"), Symbol("yes".to_string()));
    assert_eq!(eval("(if true 1)"), Error("Wrong argument count".to_string()));
}

#[test]
fn lambda_arity_is_enforced() {
    assert_eq!(
        eval("((lambda (a b) a) 1)"),
        Error("Wrong argument count".to_string())
    );
    assert_eq!(
        eval("((lambda (a b) a) 1 2 3)"),
        Error("Wrong argument count".to_string())
    );
    assert_eq!(eval("((lambda (a b) a) 1 2)"), Int(1));
    assert_eq!(eval("((lambda (a b) b) 1 2)"), Int(2));
    assert_eq!(eval("((lambda () 7))"), Int(7));
    assert_eq!(eval("((lambda (a a) a) 1 2)"), Int(2));
}

#[test]
fn lambda_wants_symbols() {
    assert_eq!(
        eval("(lambda (1) 1)"),
        Error("lambda arguments must be symbols".to_string())
    );
    assert_eq!(
        eval("(lambda 1 1)"),
        Error("First lambda argument must be a list of argument names".to_string())
    );
    assert_eq!(eval("(lambda (a))"), Error("Wrong argument count".to_string()));
}

#[test]
fn functions_are_values() {
    let mut env = Env::new();
    let plus = run(&mut env, "+");
    assert!(matches!(plus, Expr::Fun(_, _)));
    assert_eq!(env.eval(&plus), plus);
    let branch = run(&mut env, "if");
    assert!(matches!(branch, Expr::Special(_, _)));
    assert_eq!(env.eval(&branch), branch);
    let made = run(&mut env, "(lambda (x) (+ x 1))");
    assert!(matches!(made, Expr::Fun(_, _)));
    assert_eq!(env.eval(&List(vec![made, Int(41)])), Int(42));
}

#[test]
fn applying_what_is_no_callable_is_an_error() {
    assert_eq!(eval("(1 2)"), Error("cannot apply 1".to_string()));
    assert_eq!(eval("(\"f\" 2)"), Error("cannot apply \"f\"".to_string()));
    assert_eq!(eval("(())"), Error("cannot apply nil".to_string()));
}

#[test]
fn set_writes_the_global_scope() {
    let mut env = Env::new();
    assert_eq!(run(&mut env, "(set 'x 5)"), Int(5));
    assert_eq!(run(&mut env, "x"), Int(5));
    assert_eq!(
        run(&mut env, "((lambda (a) (set 'y (+ a 1))) 1)"),
        Int(2)
    );
    assert_eq!(run(&mut env, "y"), Int(2));
    assert_eq!(
        run(&mut env, "((lambda (a) ((lambda (b) (set 'z (+ a b))) 10)) 1)"),
        Int(11)
    );
    assert_eq!(run(&mut env, "z"), Int(11));
    assert_eq!(
        run(&mut env, "(set 1 2)"),
        Error("Variable name is not a symbol: 1".to_string())
    );
}

#[test]
fn parameters_are_gone_after_the_call() {
    let mut env = Env::new();
    assert_eq!(run(&mut env, "((lambda (hidden) hidden) 3)"), Int(3));
    assert_eq!(
        run(&mut env, "hidden"),
        Error("Unbound symbol: hidden".to_string())
    );
    assert_eq!(run(&mut env, "(+ 1 2)"), Int(3));
    assert_eq!(
        run(&mut env, "varargs"),
        Error("Unbound symbol: varargs".to_string())
    );
    assert_eq!(
        run(&mut env, "((lambda (a b) a) 1)"),
        Error("Wrong argument count".to_string())
    );
    assert_eq!(run(&mut env, "a"), Error("Unbound symbol: a".to_string()));
}

#[test]
fn closures_resolve_names_when_called() {
    let mut env = Env::new();
    run(&mut env, "(set 'addn (lambda (x) (+ x n)))");
    assert!(is_error(&run(&mut env, "(addn 1)")));
    run(&mut env, "(set 'n 10)");
    assert_eq!(run(&mut env, "(addn 1)"), Int(11));
    assert_eq!(run(&mut env, "((lambda (n) (addn 1)) 100)"), Int(101));
}

#[test]
fn recursion_works_and_is_bounded() {
    let mut env = Env::new();
    run(
        &mut env,
        "(set 'fact (lambda (n) (if (= n 0) 1 (* n (fact (- n 1))))))",
    );
    assert_eq!(run(&mut env, "(fact 10)"), Int(3628800));
    run(&mut env, "(set 'loop (lambda () (loop)))");
    assert_eq!(
        run(&mut env, "(loop)"),
        Error("Recursion limit exceeded".to_string())
    );
    assert_eq!(run(&mut env, "(+ 1 2)"), Int(3));
}

#[test]
fn intern_makes_symbols() {
    assert_eq!(eval("(intern \"abc\")"), Symbol("abc".to_string()));
    assert_eq!(eval("(intern 1)"), Error("Can't intern 1".to_string()));
}

#[test]
fn insert_and_get() {
    let mut env = Env::new();
    assert_eq!(env.get("x".to_string()), None);
    env.insert("x".to_string(), Int(1));
    assert_eq!(env.get("x".to_string()), Some(Int(1)));
    env.insert_parent("x".to_string(), Int(2));
    assert_eq!(env.get("x".to_string()), Some(Int(2)));
    assert_eq!(env.eval(&Symbol("x".to_string())), Int(2));
    assert!(matches!(env.get("+".to_string()), Some(Expr::Fun(_, _))));
    assert!(matches!(env.get("if".to_string()), Some(Expr::Special(_, _))));
}

#[test]
fn floats_are_equal_by_their_bits() {
    assert_eq!(eval("(= 0.5 0.5)"), Bool(true));
    assert_eq!(eval("(= 0.5 0.25)"), Bool(false));
    assert_eq!(eval("(= 0.0 (* (- 1) 0.0))"), Bool(false));
    assert_eq!(eval("(= (/ 0.0 0.0) (/ 0.0 0.0))"), Bool(true));
}

#[test]
fn nested_calls_keep_their_frames_apart() {
    let mut env = Env::new();
    run(&mut env, "(set 'first (lambda (a b) a))");
    run(&mut env, "(set 'second (lambda (a b) b))");
    assert_eq!(
        run(&mut env, "(first (second 1 2) (first 3 4))"),
        Int(2)
    );
    assert_eq!(
        run(&mut env, "((lambda (a) (+ a ((lambda (a) (* a a)) 3) a)) 1)"),
        Int(11)
    );
    env.insert("kept".to_string(), Int(1));
    assert_eq!(run(&mut env, "((lambda (kept) kept) 2)"), Int(2));
    assert_eq!(run(&mut env, "kept"), Int(1));
}

#[test]
fn depth_can_be_chosen() {
    let mut env = Env::new();
    let sum = parse("(+ 1 (+ 2 3))").unwrap();
    assert_eq!(env.eval_at(&sum, 2), Int(6));
    assert_eq!(
        env.eval_at(&sum, 0),
        Error("Recursion limit exceeded".to_string())
    );
    assert!(is_error(&env.eval_at(&sum, 1)));
    assert_eq!(env.eval_at(&Int(1), 0), Int(1));
    assert_eq!(env.eval_at(&Symbol("nowhere".to_string()), 0), Error("Unbound symbol: nowhere".to_string()));
}

#[test]
fn empty_environment_knows_nothing() {
    let mut env = Env::empty();
    assert_eq!(env.get("+".to_string()), None);
    assert_eq!(
        env.eval(&parse("(+ 1 2)").unwrap()),
        Error("cannot apply ERROR: Unbound symbol: +".to_string())
    );
    libchao::builtin::load(&mut env);
    assert_eq!(env.eval(&parse("(+ 1 2)").unwrap()), Int(3));
}

fn call_bare(builtin: libchao::expr::Builtin) -> Expr {
    let callable = Expr::Fun(
        libchao::expr::Function::Builtin(builtin),
        libchao::expr::Arguments::Fixed(vec![]),
    );
    Env::new().eval(&List(vec![callable]))
}

#[test]
fn builtins_called_without_their_arguments() {
    assert_eq!(
        call_bare(libchao::expr::Builtin::Plus),
        Error("could not fetch arguments".to_string())
    );
    assert_eq!(
        call_bare(libchao::expr::Builtin::Minus),
        Error("could not fetch arguments".to_string())
    );
    assert_eq!(
        call_bare(libchao::expr::Builtin::Times),
        Error("could not fetch arguments".to_string())
    );
    assert_eq!(
        call_bare(libchao::expr::Builtin::Divide),
        Error("could not fetch arguments".to_string())
    );
    assert_eq!(
        call_bare(libchao::expr::Builtin::Equal),
        Error("eq requires a at least one argument".to_string())
    );
    assert_eq!(
        call_bare(libchao::expr::Builtin::Less),
        Error("< requires two arguments".to_string())
    );
    assert_eq!(
        call_bare(libchao::expr::Builtin::Greater),
        Error("> requires two arguments".to_string())
    );
    assert_eq!(
        call_bare(libchao::expr::Builtin::Branch),
        Error("not enough arguments supplied to if".to_string())
    );
    assert_eq!(
        call_bare(libchao::expr::Builtin::Lambda),
        Error("lambda requires two arguments".to_string())
    );
    assert_eq!(
        call_bare(libchao::expr::Builtin::Assign),
        Error("set requires two arguments".to_string())
    );
    assert_eq!(
        call_bare(libchao::expr::Builtin::Intern),
        Error("intern requires one argument".to_string())
    );
}

#[test]
fn variadic_callables_take_any_number_of_arguments() {
    let mut env = Env::new();
    let collect = Expr::Fun(
        libchao::expr::Function::Dynamic(Box::new(Symbol("varargs".to_string()))),
        libchao::expr::Arguments::Variadic,
    );
    assert_eq!(
        env.eval(&List(vec![collect.clone(), Int(1), Str("two".to_string())])),
        List(vec![Int(1), Str("two".to_string())])
    );
    assert_eq!(env.eval(&List(vec![collect])), List(vec![]));
    let keep = Expr::Special(
        libchao::expr::Function::Dynamic(Box::new(Symbol("varargs".to_string()))),
        libchao::expr::Arguments::Variadic,
    );
    assert_eq!(
        env.eval(&List(vec![keep, Symbol("unbound".to_string())])),
        List(vec![Symbol("unbound".to_string())])
    );
}
