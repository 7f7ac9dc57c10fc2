use libchao::expr::{Arguments, Builtin, Function};
use std::cmp::Ordering;
use libchao::parse;
use libchao::render::render;
use libchao::Expr;
use libchao::Expr::{Bool, Error, Float, Int, List, Nil, Quote, Str, Symbol};

fn sym(name: &str) -> Expr {
    Symbol(name.to_string())
}

#[test]
fn renders_each_kind() {
    assert_eq!(render(&Nil), "nil");
    assert_eq!(render(&Bool(true)), "true");
    assert_eq!(render(&Bool(false)), "false");
    assert_eq!(render(&Int(0)), "0");
    assert_eq!(render(&Int(42)), "42");
    assert_eq!(render(&Int(-42)), "-42");
    assert_eq!(render(&Int(i64::MAX)), "9223372036854775807");
    assert_eq!(render(&Int(i64::MIN)), "-9223372036854775808");
    assert_eq!(render(&Str("a\"b\\c\nd\re\tf".to_string())), "\"a\\\"b\\\\c\\nd\\re\\tf\"");
    assert_eq!(render(&Str(String::new())), "\"\"");
    assert_eq!(render(&sym("abc")), "abc");
    assert_eq!(render(&Quote(Box::new(sym("a")))), "'a");
    assert_eq!(render(&List(vec![sym("+"), Int(1), Nil])), "(+ 1 nil)");
    assert_eq!(render(&List(vec![Int(1)])), "(1)");
    assert_eq!(render(&List(vec![])), "()");
    assert_eq!(render(&List(vec![List(vec![Int(1), Int(2)]), Int(3)])), "((1 2) 3)");
    assert_eq!(render(&Error("bad".to_string())), "ERROR: bad");
    assert_eq!(
        render(&Expr::Fun(Function::Builtin(Builtin::Plus), Arguments::Variadic)),
        "<function ...>"
    );
    assert_eq!(
        render(&Expr::Fun(
            Function::Dynamic(Box::new(Nil)),
            Arguments::Fixed(vec!["a".to_string(), "b".to_string()])
        )),
        "<function (a, b)>"
    );
    assert_eq!(
        render(&Expr::Fun(Function::Dynamic(Box::new(Nil)), Arguments::Fixed(vec![]))),
        "<function ()>"
    );
    assert_eq!(
        render(&Expr::Special(Function::Builtin(Builtin::Branch), Arguments::Variadic)),
        "<special>"
    );
}

#[test]
fn renders_floats() {
    assert_eq!(render(&Float(0.5f64.to_bits())), "0.5");
    assert_eq!(render(&Float(3.0f64.to_bits())), "3.0");
    assert_eq!(render(&Float((-3.0f64).to_bits())), "-3.0");
    assert_eq!(render(&Float(0.0f64.to_bits())), "0.0");
    assert_eq!(render(&Float(1234.5678f64.to_bits())), "1234.5678");
}

#[test]
fn reads_back_what_it_renders() {
    let samples = vec![
        Nil,
        Bool(true),
        Bool(false),
        Int(0),
        Int(7),
        Int(i64::MAX),
        Str(String::new()),
        Str("plain".to_string()),
        Str("q\"b\\n\n\r\t é ()'".to_string()),
        sym("x"),
        sym("+-*/^&|%!="),
        sym("tru"),
        sym("isnil"),
        Quote(Box::new(Int(1))),
        Quote(Box::new(Quote(Box::new(sym("a"))))),
        Quote(Box::new(Nil)),
        List(vec![Nil]),
        List(vec![sym("+"), Int(1), Int(2)]),
        List(vec![
            List(vec![Str("a b".to_string()), Bool(false)]),
            Quote(Box::new(List(vec![sym("a"), sym("b")]))),
        ]),
        Float(0.5f64.to_bits()),
        Float(3.0f64.to_bits()),
        Float(0.1f64.to_bits()),
        List(vec![Float(2.25f64.to_bits()), Int(2)]),
    ];
    for e in samples {
        assert_eq!(parse(&render(&e)), Ok(e));
    }
}

#[test]
fn clones_and_compares() {
    let e = List(vec![
        Quote(Box::new(sym("a"))),
        Str("s".to_string()),
        Expr::Fun(
            Function::Dynamic(Box::new(Int(1))),
            Arguments::Fixed(vec!["x".to_string()]),
        ),
    ]);
    let copy = e.clone();
    assert_eq!(copy, e);
    assert!(e.equals(&copy));
    assert!(!e.equals(&Nil));
    assert!(!List(vec![Int(1)]).equals(&List(vec![Int(1), Int(2)])));
    assert!(!List(vec![Int(1)]).equals(&List(vec![Int(2)])));
    assert!(!Int(1).equals(&Float(1.0f64.to_bits())));
    assert!(Arguments::Variadic.equals(&Arguments::Variadic));
    assert!(!Arguments::Variadic.equals(&Arguments::Fixed(vec![])));
    assert!(!Arguments::Fixed(vec!["a".to_string()]).equals(&Arguments::Fixed(vec!["b".to_string()])));
    assert!(Function::Builtin(Builtin::Plus).equals(&Function::Builtin(Builtin::Plus)));
    assert!(!Function::Builtin(Builtin::Plus).equals(&Function::Builtin(Builtin::Minus)));
}

#[test]
fn orders_as_the_standard_library_does() {
    assert_eq!(Int(1).partial_cmp(&Int(2)), Some(Ordering::Less));
    assert_eq!(Int(2).partial_cmp(&Int(2)), Some(Ordering::Equal));
    assert_eq!(Int(3).partial_cmp(&Int(2)), Some(Ordering::Greater));
    assert_eq!(Nil.partial_cmp(&Nil), Some(Ordering::Equal));
    assert_eq!(Nil.partial_cmp(&Int(0)), None);
    assert_eq!(
        Str("abc".to_string()).partial_cmp(&Str("abd".to_string())),
        Some(Ordering::Less)
    );
    assert_eq!(
        Str("é".to_string()).partial_cmp(&Str("z".to_string())),
        "é".partial_cmp("z")
    );
    assert_eq!(
        Float(1.5f64.to_bits()).partial_cmp(&Int(1)),
        Some(Ordering::Greater)
    );
    assert_eq!(
        Int(-1).partial_cmp(&Float((-0.5f64).to_bits())),
        Some(Ordering::Less)
    );
    assert_eq!(Float(f64::NAN.to_bits()).partial_cmp(&Float(f64::NAN.to_bits())), None);
    assert_eq!(List(vec![]).partial_cmp(&List(vec![])), None);
    assert_eq!(
        Error("a".to_string()).partial_cmp(&Error("a".to_string())),
        None
    );
}

#[test]
fn arithmetic_on_expressions() {
    assert_eq!(Int(2).add(Int(3)), Int(5));
    assert_eq!(Int(2).sub(Int(3)), Int(-1));
    assert_eq!(Int(2).mul(Int(3)), Int(6));
    assert_eq!(Int(7).div(Int(2)), Int(3));
    assert_eq!(Int(-7).div(Int(2)), Int(-3));
    assert_eq!(Int(7).div(Int(-2)), Int(-3));
    assert_eq!(Int(1).add(Float(0.5f64.to_bits())), Float(1.5f64.to_bits()));
    assert_eq!(Float(0.5f64.to_bits()).sub(Int(1)), Float((-0.5f64).to_bits()));
    assert_eq!(Float(0.1f64.to_bits()).add(Float(0.2f64.to_bits())), Float((0.1f64 + 0.2f64).to_bits()));
    assert_eq!(Float(1.5f64.to_bits()).mul(Float(1.5f64.to_bits())), Float(2.25f64.to_bits()));
    assert_eq!(Float(1.0f64.to_bits()).div(Float(3.0f64.to_bits())), Float((1.0f64 / 3.0f64).to_bits()));
    assert_eq!(
        Int(9007199254740993).add(Float(0.0f64.to_bits())),
        Float((9007199254740993i64 as f64).to_bits())
    );
    assert_eq!(
        Str("a".to_string()).add(Str("b".to_string())),
        Str("ab".to_string())
    );
    assert_eq!(
        Str("a".to_string()).mul(Str("b".to_string())),
        Error("Can't multiply \"a\" with \"b\"".to_string())
    );
    assert_eq!(Int(i64::MAX).add(Int(1)), Error("Integer overflow".to_string()));
    assert_eq!(Int(i64::MIN).div(Int(-1)), Error("Integer overflow".to_string()));
    assert_eq!(Int(1).div(Int(0)), Error("Division by zero".to_string()));
}
