use crate::text::str_eq;
use crate::value::{Val, Value};
use std::rc::Rc;
use vstd::prelude::*;

verus! {

/// The special forms, whose operands are not evaluated up front.
#[derive(Clone, Copy, Debug, PartialEq, Eq, Structural)]
pub enum Keyword {
    Quote,
    Define,
    Lambda,
    If,
}

/// The special form that a symbol names, if any.
pub open spec fn keyword_of(name: Seq<char>) -> Option<Keyword> {
    if name == "quote"@ {
        Some(Keyword::Quote)
    } else if name == "define"@ {
        Some(Keyword::Define)
    } else if name == "lambda"@ {
        Some(Keyword::Lambda)
    } else if name == "if"@ {
        Some(Keyword::If)
    } else {
        None
    }
}

impl Keyword {
    /// The special form named by `s`, if any.
    pub fn from_str(s: &str) -> (r: Option<Keyword>)
        ensures
            r == keyword_of(s@),
    {
        if str_eq(s, "quote") {
            Some(Keyword::Quote)
        } else if str_eq(s, "define") {
            Some(Keyword::Define)
        } else if str_eq(s, "lambda") {
            Some(Keyword::Lambda)
        } else if str_eq(s, "if") {
            Some(Keyword::If)
        } else {
            None
        }
    }
}

/// The symbol `quote`.
pub fn quote() -> (r: Value)
    ensures
        r@ == Val::Sym("quote"@),
{
    Value::symbol("quote")
}

/// The form `(quote value)`.
pub fn quote_value(value: Value) -> (r: Value)
    ensures
        r@ == Val::Cons(
            Box::new(Val::Sym("quote"@)),
            Box::new(Val::Cons(Box::new(value@), Box::new(Val::Nil))),
        ),
{
    Value::pair(Rc::new(quote()), Rc::new(Value::pair(Rc::new(value), Rc::new(Value::nil()))))
}

} // verus!
