use lisp::list::{
    from_vec, from_vec_with_end, head, is_list, length, split_head, take2, take3, to_vec,
};
use lisp::error::RuntimeError;
use lisp::value::{Atom, Value};
use std::rc::Rc;

fn ints(xs: &[i64]) -> Value {
    from_vec(xs.iter().map(|x| Value::i64(*x)).collect())
}

#[test]
fn to_vec_reads_elements_in_order() {
    let list = ints(&[1, 2, 3]);
    let items = to_vec(&list).unwrap();
    let got: Vec<Value> = items.iter().map(|v| (**v).clone()).collect();
    assert_eq!(got, vec![Value::i64(1), Value::i64(2), Value::i64(3)]);
}

#[test]
fn list_round_trip_through_vec() {
    let list = ints(&[4, 5, 6]);
    let items: Vec<Value> = to_vec(&list).unwrap().iter().map(|v| (**v).clone()).collect();
    let rebuilt = from_vec(items);
    assert_eq!(rebuilt, list);
}

#[test]
fn improper_list_is_rejected() {
    let list = from_vec_with_end(vec![Value::i64(1)], Value::i64(2));
    assert_eq!(to_vec(&list), Err(RuntimeError::NotAList));
    assert!(!is_list(&Rc::new(list.clone())));
    assert_eq!(length(&Rc::new(list)), Err(RuntimeError::NotAList));
}

#[test]
fn length_and_is_list_of_proper_list() {
    let list = Rc::new(ints(&[7, 8]));
    assert!(is_list(&list));
    assert_eq!(length(&list), Ok(2));
    assert_eq!(length(&Rc::new(Value::nil())), Ok(0));
}

#[test]
fn destructuring_past_the_end_fails() {
    let list = ints(&[1, 2]);
    assert_eq!(take3(&list).unwrap_err(), RuntimeError::EmptyList);
    let (a, b) = take2(&list).unwrap();
    assert_eq!((*a).clone(), Value::i64(1));
    assert_eq!((*b).clone(), Value::i64(2));
    assert_eq!(split_head(&Value::nil()).unwrap_err(), RuntimeError::EmptyList);
    assert_eq!(split_head(&Value::i64(3)).unwrap_err(), RuntimeError::NotAList);
    assert_eq!(head(&Rc::new(Value::i64(3))).unwrap_err(), RuntimeError::NotAList);
}

fn times_ten(v: &Rc<Value>) -> Result<Rc<Value>, RuntimeError> {
    match &**v {
        Value::Atom(Atom::I64(n)) => Ok(Rc::new(Value::i64(n * 10))),
        _ => Err(RuntimeError::TypeMismatch),
    }
}

#[test]
fn map_applies_in_order() {
    let list = Rc::new(ints(&[1, 2, 3]));
    let mapped = lisp::list::map(&list, times_ten).unwrap();
    assert_eq!(*mapped, ints(&[10, 20, 30]));
    assert_eq!(*lisp::list::map(&Rc::new(Value::nil()), times_ten).unwrap(), Value::nil());
}

#[test]
fn map_propagates_failure() {
    let list = Rc::new(from_vec(vec![Value::i64(1), Value::string("x")]));
    assert_eq!(lisp::list::map(&list, times_ten).unwrap_err(), RuntimeError::TypeMismatch);
    let improper = Rc::new(from_vec_with_end(vec![Value::i64(1)], Value::i64(2)));
    assert_eq!(lisp::list::map(&improper, times_ten).unwrap_err(), RuntimeError::NotAList);
}
