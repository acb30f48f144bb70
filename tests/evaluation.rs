use lisp::error::RuntimeError;
use lisp::eval::Runtime;
use lisp::list::from_vec;
use lisp::parse::parse;
use lisp::value::Value;
use std::rc::Rc;

fn run(text: &str) -> (Runtime, Vec<Result<Option<Rc<Value>>, RuntimeError>>) {
    let ast = parse(text).unwrap();
    let mut runtime = Runtime::new();
    let mut results = Vec::new();
    for v in ast {
        results.push(runtime.eval(&Rc::new(v)));
    }
    (runtime, results)
}

fn last_result(text: &str) -> Result<Option<Rc<Value>>, RuntimeError> {
    let (_, mut results) = run(text);
    results.pop().unwrap()
}

fn last_value(text: &str) -> Value {
    (*last_result(text).unwrap().unwrap()).clone()
}

#[test]
fn simple_defines() {
    let string = r#"
            (define my-string "foo")
            (define my-i64 42)
            (define my-symbol 'bar)
        "#;
    let ast = parse(string).unwrap();
    let mut runtime = Runtime::new();
    for v in ast {
        runtime.eval(&Rc::new(v)).unwrap();
    }
    assert_eq!(*runtime.get_top_level_variable("my-string").unwrap(), Value::string("foo"));
    assert_eq!(*runtime.get_top_level_variable("my-i64").unwrap(), Value::i64(42));
    assert_eq!(*runtime.get_top_level_variable("my-symbol").unwrap(), Value::symbol("bar"));
}

#[test]
fn arithmetic() {
    let string = r#"
            (define answer (* (+ 2 4) (- 10 3)))
        "#;
    let ast = parse(string).unwrap();
    let mut runtime = Runtime::new();
    for v in ast {
        runtime.eval(&Rc::new(v)).unwrap();
    }
    assert_eq!(*runtime.get_top_level_variable("answer").unwrap(), Value::i64(42));
}

#[test]
fn variable() {
    let string = r#"
            (define foo 12)
            (define bar 30)
            (define baz (+ foo bar))
        "#;
    let ast = parse(string).unwrap();
    let mut runtime = Runtime::new();
    for v in ast {
        runtime.eval(&Rc::new(v)).unwrap();
    }
    assert_eq!(*runtime.get_top_level_variable("baz").unwrap(), Value::i64(42));
}

#[test]
fn factorial() {
    let string = r#"
            (define factorial (lambda (n)
                (if (= n 0)
                    1
                    (* n (factorial (- n 1))))))

            (define result (factorial 5))
        "#;
    let ast = parse(string).unwrap();
    let mut runtime = Runtime::new();
    for v in ast {
        runtime.eval(&Rc::new(v)).unwrap();
    }
    assert_eq!(*runtime.get_top_level_variable("result").unwrap(), Value::i64(120));
}

#[test]
fn define_then_use_at_top_level() {
    let (runtime, results) = run("(define x 5)(define y (+ x 3))");
    assert!(results.iter().all(|r| matches!(r, Ok(None))));
    assert_eq!(*runtime.get_top_level_variable("y").unwrap(), Value::i64(8));
}

#[test]
fn quote_returns_literal_list() {
    let expected = from_vec(vec![Value::i64(1), Value::i64(2), Value::i64(3)]);
    assert_eq!(last_value("(quote (1 2 3))"), expected);
    assert_eq!(last_value("'(1 2 3)"), expected);
}

#[test]
fn builtin_arity_error() {
    assert_eq!(
        last_result("(+ 1)").unwrap_err(),
        RuntimeError::ArityMismatch { expected: 2, found: 1 }
    );
}

#[test]
fn unbound_symbol_error() {
    assert_eq!(last_result("(foo)").unwrap_err(), RuntimeError::Unbound("foo".to_string()));
}

#[test]
fn lambda_arity_error() {
    assert_eq!(
        last_result("((lambda (n) n) 1 2)").unwrap_err(),
        RuntimeError::ArityMismatch { expected: 1, found: 2 }
    );
}

#[test]
fn shadowing_leaves_outer_binding() {
    let (runtime, results) = run(
        "(define x 1)
         (define shadow (lambda (x) x))
         (shadow 5)
         (define inner (lambda (n) (define x 99)))
         (inner 0)",
    );
    assert_eq!(*results[2].as_ref().unwrap().as_ref().unwrap().as_ref(), Value::i64(5));
    assert!(matches!(results[4], Ok(None)));
    assert_eq!(*runtime.get_top_level_variable("x").unwrap(), Value::i64(1));
}

#[test]
fn lookup_after_define_in_same_scope() {
    assert_eq!(last_value("(define z 7) z"), Value::i64(7));
    assert_eq!(last_value("(define z 7) (define z 8) z"), Value::i64(8));
}

#[test]
fn invocations_do_not_share_bindings() {
    let text = "(define make (lambda (a) (lambda (b) a)))
                (define one (make 1))
                (define two (make 2))
                (one 0)
                (two 0)
                (one 0)";
    let (_, results) = run(text);
    let got: Vec<Value> = results[3..]
        .iter()
        .map(|r| (**r.as_ref().unwrap().as_ref().unwrap()).clone())
        .collect();
    assert_eq!(got, vec![Value::i64(1), Value::i64(2), Value::i64(1)]);
}

#[test]
fn closure_called_twice_sees_each_argument() {
    let (_, results) = run("(define id (lambda (a) a)) (id 1) (id 2)");
    assert_eq!(*results[1].as_ref().unwrap().as_ref().unwrap().as_ref(), Value::i64(1));
    assert_eq!(*results[2].as_ref().unwrap().as_ref().unwrap().as_ref(), Value::i64(2));
}

#[test]
fn if_requires_a_boolean() {
    assert_eq!(last_result("(if 1 2 3)").unwrap_err(), RuntimeError::TypeMismatch);
}

#[test]
fn if_true_skips_the_else_branch() {
    assert_eq!(last_value("(if true 1 (foo))"), Value::i64(1));
    assert_eq!(last_value("(if false (foo) 2)"), Value::i64(2));
}

#[test]
fn calling_a_non_function_fails() {
    assert_eq!(last_result("(1 2)").unwrap_err(), RuntimeError::NotCallable);
}

#[test]
fn overflow_is_reported() {
    assert_eq!(
        last_result("(* 9223372036854775807 2)").unwrap_err(),
        RuntimeError::Overflow
    );
    assert_eq!(last_value("(- 0 9223372036854775807)"), Value::i64(-9223372036854775807));
}

#[test]
fn equality_and_subtraction() {
    assert_eq!(last_value("(= 3 3)"), Value::bool(true));
    assert_eq!(last_value("(= 3 4)"), Value::bool(false));
    assert_eq!(last_value("(- 10 3)"), Value::i64(7));
}

#[test]
fn arithmetic_on_non_integers_fails() {
    assert_eq!(last_result("(+ 1 \"a\")").unwrap_err(), RuntimeError::TypeMismatch);
    assert_eq!(last_result("(= true 1)").unwrap_err(), RuntimeError::TypeMismatch);
}

#[test]
fn define_needs_a_symbol() {
    assert_eq!(last_result("(define 1 2)").unwrap_err(), RuntimeError::NotASymbol);
    assert_eq!(last_result("(lambda (1) 2)").unwrap_err(), RuntimeError::NotASymbol);
}

#[test]
fn define_as_argument_has_no_value() {
    assert_eq!(last_result("(+ (define a 1) 2)").unwrap_err(), RuntimeError::NoValue);
}

#[test]
fn quote_without_operand_fails() {
    assert_eq!(last_result("(quote)").unwrap_err(), RuntimeError::EmptyList);
}

#[test]
fn improper_argument_list_fails() {
    let call = lisp::list::from_vec_with_end(
        vec![Value::symbol("+"), Value::i64(1)],
        Value::i64(2),
    );
    let mut runtime = Runtime::new();
    assert_eq!(runtime.eval(&Rc::new(call)).unwrap_err(), RuntimeError::NotAList);
}

#[test]
fn runaway_recursion_is_exhausted() {
    assert_eq!(
        last_result("(define spin (lambda (n) (spin n))) (spin 1)").unwrap_err(),
        RuntimeError::Exhausted
    );
}

#[test]
fn builtins_evaluate_to_themselves_as_values() {
    assert_eq!(last_value("+"), Value::built_in(lisp::built_in::BuiltIn::Add));
    assert_eq!(last_value("42"), Value::i64(42));
    assert_eq!(last_value("\"s\""), Value::string("s"));
}

#[test]
fn println_writes_rendered_value() {
    let (runtime, results) = run("(println '(1 \"two\" three)) (println -5)");
    assert_eq!(*results[0].as_ref().unwrap().as_ref().unwrap().as_ref(), Value::nil());
    assert_eq!(
        runtime.output().clone(),
        vec!["(1 \"two\" three)".to_string(), "-5".to_string()]
    );
}

#[test]
fn failed_form_keeps_earlier_bindings() {
    let (runtime, results) = run("(define a 1) (undefined-thing) (define b 2)");
    assert!(results[1].is_err());
    assert_eq!(*runtime.get_top_level_variable("a").unwrap(), Value::i64(1));
    assert_eq!(*runtime.get_top_level_variable("b").unwrap(), Value::i64(2));
    assert!(runtime.get_top_level_variable("c").is_none());
}
