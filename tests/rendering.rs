use lisp::built_in::BuiltIn;
use lisp::language::Keyword;
use lisp::list::{from_vec, from_vec_with_end};
use lisp::value::Value;

#[test]
fn renders_atoms() {
    assert_eq!(Value::nil().to_string(), "()");
    assert_eq!(Value::i64(-42).to_string(), "-42");
    assert_eq!(Value::i64(i64::MIN).to_string(), "-9223372036854775808");
    assert_eq!(Value::i64(0).to_string(), "0");
    assert_eq!(Value::bool(true).to_string(), "true");
    assert_eq!(Value::bool(false).to_string(), "false");
    assert_eq!(Value::symbol("foo").to_string(), "foo");
    assert_eq!(Value::string("a\"b\\c\nd").to_string(), r#""a\"b\\c\nd""#);
}

#[test]
fn renders_lists() {
    let nested = from_vec(vec![
        Value::symbol("a"),
        from_vec(vec![Value::i64(1), Value::nil()]),
        Value::string("s"),
    ]);
    assert_eq!(nested.to_string(), r#"(a (1 ()) "s")"#);
    let dotted = from_vec_with_end(vec![Value::i64(1), Value::i64(2)], Value::i64(3));
    assert_eq!(dotted.to_string(), "(1 2 . 3)");
}

#[test]
fn renders_functions() {
    assert_eq!(Value::built_in(BuiltIn::Println).to_string(), "#<built-in>");
}

#[test]
fn builtin_names() {
    assert_eq!(BuiltIn::from_str("+"), Some(BuiltIn::Add));
    assert_eq!(BuiltIn::from_str("-"), Some(BuiltIn::Sub));
    assert_eq!(BuiltIn::from_str("*"), Some(BuiltIn::Mul));
    assert_eq!(BuiltIn::from_str("="), Some(BuiltIn::Eq));
    assert_eq!(BuiltIn::from_str("println"), Some(BuiltIn::Println));
    assert_eq!(BuiltIn::from_str("print"), None);
}

#[test]
fn keyword_names() {
    assert_eq!(Keyword::from_str("quote"), Some(Keyword::Quote));
    assert_eq!(Keyword::from_str("define"), Some(Keyword::Define));
    assert_eq!(Keyword::from_str("lambda"), Some(Keyword::Lambda));
    assert_eq!(Keyword::from_str("if"), Some(Keyword::If));
    assert_eq!(Keyword::from_str("iff"), None);
}
