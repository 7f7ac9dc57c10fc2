use libchao::grammar::{ParseError, ParseErrorKind};
use libchao::parse;
use libchao::Expr;
use libchao::Expr::{Bool, Int, List, Nil, Quote, Str, Symbol};

fn assert_parse(input: &str, expected: Expr) {
    assert_eq!(parse(input), Ok(expected));
}

fn assert_parse_err(input: &str) {
    assert!(parse(input).is_err());
}

#[test]
fn parses_whitespace() {
    assert_parse("", Nil);
    assert_parse(" \n\r\t   ", Nil);
}

#[test]
fn parses_nil() {
    assert_parse("nil", Nil);
}

#[test]
fn parses_booleans() {
    assert_parse("true", Bool(true));
    assert_parse("false", Bool(false));
}

#[test]
fn parse_symbols() {
    assert_parse("symbol", Symbol("symbol".to_string()));
    assert_parse_err("sym bol");
    assert_parse("+-/*%|&", Symbol("+-/*%|&".to_string()));
}

#[test]
fn parses_integers() {
    assert_parse("42", Int(42));
    assert_parse("0x2a", Int(42));
    assert_parse_err("0xz2a");
    assert_parse("0b101010", Int(42));
    assert_parse_err("0b2101010");
}

#[test]
fn parses_lists() {
    assert_parse(
        "(+ 1 nil true)",
        List(vec![Symbol("+".to_string()), Int(1), Nil, Bool(true)]),
    );
    assert_parse("()", Nil);
    assert_parse("(())", List(vec![Nil]));
    assert_parse("(1 () 2)", List(vec![Int(1), Nil, Int(2)]));
    assert_parse("((()))", List(vec![List(vec![Nil])]));
    assert_parse("((() ()))", List(vec![List(vec![Nil, Nil])]));
    assert_parse("((42))", List(vec![List(vec![Int(42)])]));
    assert_parse(
        "(+ 1 2 3)",
        List(vec![Symbol("+".to_string()), Int(1), Int(2), Int(3)]),
    );
}

#[test]
fn parses_quotes() {
    assert_parse("'1", Quote(Box::new(Int(1))));
    assert_parse("''1", Quote(Box::new(Quote(Box::new(Int(1))))));
    assert_parse("'()", Quote(Box::new(Nil)));
    assert_parse(
        "'(a b c)",
        Quote(Box::new(List(vec![
            Symbol("a".to_string()),
            Symbol("b".to_string()),
            Symbol("c".to_string()),
        ]))),
    );
    assert_parse(
        "'('(1))",
        Quote(Box::new(List(vec![Quote(Box::new(List(vec![Int(1)])))]))),
    );
}

#[test]
fn parses_strings() {
    assert_parse(r#""""#, Str("".to_string()));
    assert_parse(r#""\"""#, Str("\"".to_string()));
    assert_parse(r#""\n""#, Str("\n".to_string()));
    assert_parse(r#""\r""#, Str("\r".to_string()));
    assert_parse(r#""\t""#, Str("\t".to_string()));
    assert_parse(r#""\\""#, Str("\\".to_string()));
    assert_parse(r#"" a b c ""#, Str(" a b c ".to_string()));
    assert_parse(r#""' \"abc\" '""#, Str("' \"abc\" '".to_string()));
    assert_parse_err(r#"""#);
    assert_parse_err(r#"\"#);
    assert_parse_err(r#"\\"#);
    assert_parse_err(r#"\"""#);
    assert_parse_err(r#""\foo""#);
}

#[test]
fn parses_floats() {
    assert_parse("1.5", Expr::Float(1.5f64.to_bits()));
    assert_parse("0.1", Expr::Float(0.1f64.to_bits()));
    assert_parse("3.0  ", Expr::Float(3.0f64.to_bits()));
    assert_parse("123456789.125", Expr::Float(123456789.125f64.to_bits()));
    assert_parse(
        "(1.5 2)",
        List(vec![Expr::Float(1.5f64.to_bits()), Int(2)]),
    );
    assert_parse_err("1.");
    assert_parse_err(".5");
    assert_parse_err("1.5.2");
}

#[test]
fn reports_where_and_why() {
    assert_eq!(
        parse("sym bol"),
        Err(ParseError { position: 4, kind: ParseErrorKind::TrailingInput })
    );
    assert_eq!(
        parse("0xz2a"),
        Err(ParseError { position: 2, kind: ParseErrorKind::MalformedNumber })
    );
    assert_eq!(
        parse("0b"),
        Err(ParseError { position: 2, kind: ParseErrorKind::MalformedNumber })
    );
    assert_eq!(
        parse("9223372036854775808"),
        Err(ParseError { position: 0, kind: ParseErrorKind::IntegerOutOfRange })
    );
    assert_eq!(parse("9223372036854775807"), Ok(Int(i64::MAX)));
    assert_eq!(parse("0x7fffffffffffffff"), Ok(Int(i64::MAX)));
    assert_eq!(
        parse("0x8000000000000000"),
        Err(ParseError { position: 2, kind: ParseErrorKind::IntegerOutOfRange })
    );
    assert_eq!(
        parse("\"abc"),
        Err(ParseError { position: 4, kind: ParseErrorKind::UnterminatedString })
    );
    assert_eq!(
        parse("\"ab\\"),
        Err(ParseError { position: 4, kind: ParseErrorKind::UnterminatedString })
    );
    assert_eq!(
        parse("\"\\foo\""),
        Err(ParseError { position: 2, kind: ParseErrorKind::UnknownEscape })
    );
    assert_eq!(
        parse("(1 2"),
        Err(ParseError { position: 4, kind: ParseErrorKind::UnclosedList })
    );
    assert_eq!(
        parse("(1 #)"),
        Err(ParseError { position: 3, kind: ParseErrorKind::ExpectedExpression })
    );
    assert_eq!(
        parse("'"),
        Err(ParseError { position: 1, kind: ParseErrorKind::ExpectedExpression })
    );
    assert_eq!(
        parse("' a"),
        Err(ParseError { position: 1, kind: ParseErrorKind::ExpectedExpression })
    );
    assert_eq!(
        parse(")"),
        Err(ParseError { position: 0, kind: ParseErrorKind::ExpectedExpression })
    );
    assert_eq!(
        parse("1 2"),
        Err(ParseError { position: 2, kind: ParseErrorKind::TrailingInput })
    );
    assert_eq!(
        parse("sym bol").unwrap_err().message(),
        "Parse error at position 4: unexpected input behind the expression"
    );
    assert_eq!(
        parse("(1 2").unwrap_err().message(),
        "Parse error at position 4: list without closing parenthesis"
    );
}

#[test]
fn keywords_come_before_symbols() {
    assert_parse(
        "(truex)",
        List(vec![Bool(true), Symbol("x".to_string())]),
    );
    assert_parse(
        "(nile)",
        List(vec![Nil, Symbol("e".to_string())]),
    );
    assert_parse_err("truex");
    assert_parse("tru", Symbol("tru".to_string()));
    assert_parse("ni", Symbol("ni".to_string()));
    assert_parse("  x  ", Symbol("x".to_string()));
    assert_parse("é", Symbol("é".to_string()));
    assert_parse("\u{a0}x\u{2003}", Symbol("x".to_string()));
    assert_parse_err("a1");
    assert_parse_err("<");
}

#[test]
fn parses_strings_with_any_characters() {
    assert_parse("\"(1 'a) é \u{1F600}\"", Str("(1 'a) é \u{1F600}".to_string()));
    assert_parse("\"a\\\\b\\\"c\"  ", Str("a\\b\"c".to_string()));
}

#[test]
fn grammar_examples() {
    assert_parse("0x2a", Int(42));
    assert_parse_err("0xz2a");
    assert_parse("()", Nil);
    assert_parse("(())", List(vec![Nil]));
    assert_parse(
        "'(a b)",
        Quote(Box::new(List(vec![
            Symbol("a".to_string()),
            Symbol("b".to_string()),
        ]))),
    );
    assert_parse_err("sym bol");
    assert_parse("0", Int(0));
    assert_parse("007", Int(7));
    assert_parse("0b0", Int(0));
    assert_parse("0xFf", Int(255));
    assert_parse("(  1   2  )  ", List(vec![Int(1), Int(2)]));
    assert_parse("(1(2)'3\"4\")", List(vec![
        Int(1),
        List(vec![Int(2)]),
        Quote(Box::new(Int(3))),
        Str("4".to_string()),
    ]));
    assert_parse_err("(0bz)");
}
