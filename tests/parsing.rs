use lisp::language::quote_value;
use lisp::list::from_vec;
use lisp::parse::{
    parse, parse_atom, parse_list, parse_quote, parse_string, parse_value, parse_values, ParseError,
};
use lisp::value::{Atom, Value};

#[test]
fn empty_text() {
    assert_eq!(parse(""), Ok(vec![]));
}

#[test]
fn nil() {
    assert_eq!(parse("()"), Ok(vec![Value::nil()]));
}

#[test]
fn string() {
    assert_eq!(
        parse("\"Hello, World!\""),
        Ok(vec![Value::Atom(Atom::String("Hello, World!".to_string()))])
    );
}

#[test]
fn list_of_strings() {
    let string = r#"
            ("foo" "bar"
                "baz")
        "#;
    let expected_result = vec![from_vec(vec![
        Value::string("foo"),
        Value::string("bar"),
        Value::string("baz"),
    ])];
    assert_eq!(parse(string), Ok(expected_result));
}

#[test]
fn list_of_i64() {
    let string = r#"
            (42 -1234567890)
        "#;
    let expected_result = vec![from_vec(vec![Value::i64(42), Value::i64(-1234567890)])];
    assert_eq!(parse(string), Ok(expected_result));
}

#[test]
fn list_of_symbols() {
    let string = r#"
            (foo - Bar BAZ42)
        "#;
    let expected_result = vec![from_vec(vec![
        Value::symbol("foo"),
        Value::symbol("-"),
        Value::symbol("Bar"),
        Value::symbol("BAZ42"),
    ])];
    assert_eq!(parse(string), Ok(expected_result));
}

#[test]
fn quoted_list() {
    let string = r#"
            '(foo "bar" (42 ()))
        "#;
    let expected_result = vec![quote_value(from_vec(vec![
        Value::symbol("foo"),
        Value::string("bar"),
        from_vec(vec![Value::i64(42), Value::nil()]),
    ]))];
    assert_eq!(parse(string), Ok(expected_result));
}

#[test]
fn boolean_expression() {
    let string = r#"
            (!= true (&& false false))
        "#;
    let expected_result = vec![from_vec(vec![
        Value::symbol("!="),
        Value::bool(true),
        from_vec(vec![Value::symbol("&&"), Value::bool(false), Value::bool(false)]),
    ])];
    assert_eq!(parse(string), Ok(expected_result));
}

fn round_trip_helper(string: &str) {
    let ast0 = parse(string).unwrap();
    let pretty = ast0[0].to_string();
    let ast1 = parse(pretty.as_ref()).unwrap();
    assert_eq!(ast0, ast1);
}

#[test]
fn round_trip_simple_list() {
    round_trip_helper(
        r#"
            (foo bar baz)
        "#,
    );
}

#[test]
fn round_trip_factorial() {
    round_trip_helper(
        r#"
            (define factorial (lambda (n)
                (if (= n 0)
                    1
                    (* n (factorial (- n 1))))))
        "#,
    );
}

#[test]
fn round_trip_quote() {
    round_trip_helper(
        r#"
            '(1 2 3)
        "#,
    );
}

#[test]
fn round_trip_strings_with_escapes() {
    round_trip_helper(r#"("a\"b" "back\\slash" "line\nbreak" -9223372036854775808 nil)"#);
}

#[test]
fn string_escapes_are_read() {
    assert_eq!(parse(r#""foo\"bar""#), Ok(vec![Value::string("foo\"bar")]));
    assert_eq!(parse(r#""a\nb""#), Ok(vec![Value::string("a\nb")]));
    assert_eq!(parse(r#""""#), Ok(vec![Value::string("")]));
}

#[test]
fn malformed_text_is_rejected() {
    assert_eq!(parse("(1 2"), Err(ParseError));
    assert_eq!(parse(r#""foo\xbar""#), Err(ParseError));
    assert_eq!(parse(">"), Err(ParseError));
    assert_eq!(parse("99999999999999999999"), Err(ParseError));
}

#[test]
fn signs_and_keywords() {
    assert_eq!(parse("+5 -x nil"), Ok(vec![Value::i64(5), Value::symbol("-x"), Value::nil()]));
    assert_eq!(parse("-9223372036854775808"), Ok(vec![Value::i64(i64::MIN)]));
}

fn chars(text: &str) -> Vec<char> {
    text.chars().collect()
}

#[test]
fn parser_pieces_report_positions() {
    let s = chars("\"\"");
    assert_eq!(parse_string(&s, 0), Some((String::new(), 2)));
    assert_eq!(parse_string(&chars("\"foo\" x"), 0), Some(("foo".to_string(), 5)));
    assert_eq!(parse_string(&chars("foo"), 0), None);
    assert_eq!(parse_string(&chars(""), 0), None);
    assert_eq!(parse_atom(&chars("foo-bar? baz"), 0), Some((Value::symbol("foo-bar?"), 8)));
    assert_eq!(parse_atom(&chars(">"), 0), None);
    assert_eq!(parse_atom(&chars("42x"), 0), Some((Value::i64(42), 2)));
    assert_eq!(
        parse_list(&chars("(1 2) 3"), 0),
        Some((from_vec(vec![Value::i64(1), Value::i64(2)]), 5))
    );
    assert_eq!(parse_list(&chars("( )"), 0), None);
    assert_eq!(
        parse_quote(&chars("'a"), 0),
        Some((quote_value(Value::symbol("a")), 2))
    );
    assert_eq!(parse_value(&chars("  7  )"), 0), Some((Value::i64(7), 5)));
    assert_eq!(parse_values(&chars("1 2 )"), 0).1, 4);
}
