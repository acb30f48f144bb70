use crate::error::{Fault, RuntimeError};
use crate::list::{self, list_items};
use crate::pretty::render;
use crate::text::str_eq;
use crate::value::{Atom, Val, Value};
use std::rc::Rc;
use vstd::prelude::*;

verus! {

/// The native procedures, each named by a fixed symbol.
#[derive(Clone, Copy, Debug, PartialEq, Eq, Structural)]
pub enum BuiltIn {
    Add,
    Sub,
    Mul,
    Eq,
    Println,
}

/// The built-in that a symbol names, if any.
pub open spec fn builtin_of(name: Seq<char>) -> Option<BuiltIn> {
    if name == "+"@ {
        Some(BuiltIn::Add)
    } else if name == "-"@ {
        Some(BuiltIn::Sub)
    } else if name == "*"@ {
        Some(BuiltIn::Mul)
    } else if name == "="@ {
        Some(BuiltIn::Eq)
    } else if name == "println"@ {
        Some(BuiltIn::Println)
    } else {
        None
    }
}

/// How many arguments a built-in takes.
pub open spec fn arity(b: BuiltIn) -> nat {
    match b {
        BuiltIn::Println => 1,
        _ => 2,
    }
}

/// An integer result, or `Overflow` when it does not fit in 64 bits.
pub open spec fn int_result(n: int) -> Result<Val, Fault> {
    if i64::MIN <= n <= i64::MAX {
        Ok(Val::Int(n as i64))
    } else {
        Err(Fault::Overflow)
    }
}

/// The two integer operands of an arithmetic or comparison built-in.
pub open spec fn int_pair(args: Val) -> Result<(i64, i64), Fault> {
    match list_items(args) {
        None => Err(Fault::NotAList),
        Some(items) => if items.len() != 2 {
            Err(Fault::Arity(2, items.len()))
        } else {
            match (items[0], items[1]) {
                (Val::Int(x), Val::Int(y)) => Ok((x, y)),
                _ => Err(Fault::TypeMismatch),
            }
        },
    }
}

/// What a built-in returns for the argument list `args`.
pub open spec fn builtin_result(b: BuiltIn, args: Val) -> Result<Val, Fault> {
    match b {
        BuiltIn::Println => match list_items(args) {
            None => Err(Fault::NotAList),
            Some(items) => if items.len() != 1 {
                Err(Fault::Arity(1, items.len()))
            } else {
                Ok(Val::Nil)
            },
        },
        _ => match int_pair(args) {
            Err(f) => Err(f),
            Ok((x, y)) => match b {
                BuiltIn::Add => int_result(x + y),
                BuiltIn::Sub => int_result(x - y),
                BuiltIn::Mul => int_result(x * y),
                _ => Ok(Val::Bool(x == y)),
            },
        },
    }
}

/// The lines a built-in writes for the argument list `args`.
pub open spec fn builtin_output(b: BuiltIn, args: Val) -> Seq<Seq<char>> {
    if b == BuiltIn::Println && builtin_result(b, args) is Ok {
        seq![render(list_items(args).unwrap()[0])]
    } else {
        Seq::empty()
    }
}

pub open spec fn texts(lines: Seq<String>) -> Seq<Seq<char>> {
    lines.map_values(|s: String| s@)
}

fn check_args_length(args: &Rc<Value>, required_length: usize) -> (r: Result<(), RuntimeError>)
    ensures
        match list_items((**args)@) {
            None => r == Err::<(), RuntimeError>(RuntimeError::NotAList),
            Some(items) => items.len() <= usize::MAX && if items.len() == required_length {
                r is Ok
            } else {
                r == Err::<(), RuntimeError>(
                    RuntimeError::ArityMismatch {
                        expected: required_length,
                        found: items.len() as usize,
                    },
                )
            },
        },
{
    let found_length = match list::length(args) {
        Ok(n) => n,
        Err(e) => return Err(e),
    };
    if found_length != required_length {
        return Err(RuntimeError::ArityMismatch { expected: required_length, found: found_length });
    }
    Ok(())
}

/// The two integer operands of an arithmetic or comparison built-in.
fn int_operands(args: &Rc<Value>) -> (r: Result<(i64, i64), RuntimeError>)
    ensures
        match int_pair((**args)@) {
            Err(f) => r matches Err(e) && e@ == f,
            Ok(p) => r == Ok::<(i64, i64), RuntimeError>(p),
        },
{
    if let Err(e) = check_args_length(args, 2) {
        return Err(e);
    }
    proof {
        let items = list_items((**args)@).unwrap();
        list::lemma_list_items_unfold((**args)@);
        if let Val::Cons(_, t) = (**args)@ {
            list::lemma_list_items_unfold(*t);
        }
        assert(items =~= seq![items[0], items[1]]);
    }
    let (lhs, rhs) = match list::take2(&**args) {
        Ok(p) => p,
        Err(e) => return Err(e),
    };
    match (&*lhs, &*rhs) {
        (Value::Atom(Atom::I64(x)), Value::Atom(Atom::I64(y))) => Ok((*x, *y)),
        _ => Err(RuntimeError::TypeMismatch),
    }
}

fn add(args: &Rc<Value>) -> (r: Result<Rc<Value>, RuntimeError>)
    ensures
        match builtin_result(BuiltIn::Add, (**args)@) {
            Ok(v) => r matches Ok(x) && (*x)@ == v,
            Err(f) => r matches Err(e) && e@ == f,
        },
{
    let (x, y) = match int_operands(args) {
        Ok(p) => p,
        Err(e) => return Err(e),
    };
    match x.checked_add(y) {
        Some(n) => Ok(Rc::new(Value::Atom(Atom::I64(n)))),
        None => Err(RuntimeError::Overflow),
    }
}

fn sub(args: &Rc<Value>) -> (r: Result<Rc<Value>, RuntimeError>)
    ensures
        match builtin_result(BuiltIn::Sub, (**args)@) {
            Ok(v) => r matches Ok(x) && (*x)@ == v,
            Err(f) => r matches Err(e) && e@ == f,
        },
{
    let (x, y) = match int_operands(args) {
        Ok(p) => p,
        Err(e) => return Err(e),
    };
    match x.checked_sub(y) {
        Some(n) => Ok(Rc::new(Value::Atom(Atom::I64(n)))),
        None => Err(RuntimeError::Overflow),
    }
}

fn mul(args: &Rc<Value>) -> (r: Result<Rc<Value>, RuntimeError>)
    ensures
        match builtin_result(BuiltIn::Mul, (**args)@) {
            Ok(v) => r matches Ok(x) && (*x)@ == v,
            Err(f) => r matches Err(e) && e@ == f,
        },
{
    let (x, y) = match int_operands(args) {
        Ok(p) => p,
        Err(e) => return Err(e),
    };
    match x.checked_mul(y) {
        Some(n) => Ok(Rc::new(Value::Atom(Atom::I64(n)))),
        None => Err(RuntimeError::Overflow),
    }
}

fn eq(args: &Rc<Value>) -> (r: Result<Rc<Value>, RuntimeError>)
    ensures
        match builtin_result(BuiltIn::Eq, (**args)@) {
            Ok(v) => r matches Ok(x) && (*x)@ == v,
            Err(f) => r matches Err(e) && e@ == f,
        },
{
    let (x, y) = match int_operands(args) {
        Ok(p) => p,
        Err(e) => return Err(e),
    };
    Ok(Rc::new(Value::Atom(Atom::Bool(x == y))))
}

fn println(args: &Rc<Value>, output: &mut Vec<String>) -> (r: Result<Rc<Value>, RuntimeError>)
    ensures
        match builtin_result(BuiltIn::Println, (**args)@) {
            Ok(v) => r matches Ok(x) && (*x)@ == v,
            Err(f) => r matches Err(e) && e@ == f,
        },
        texts(final(output)@) == texts(old(output)@) + builtin_output(BuiltIn::Println, (**args)@),
{
    if let Err(e) = check_args_length(args, 1) {
        proof {
            assert(texts(output@) =~= texts(old(output)@) + Seq::<Seq<char>>::empty());
        }
        return Err(e);
    }
    proof {
        list::lemma_list_items_unfold((**args)@);
    }
    let arg = match list::head(args) {
        Ok(a) => a,
        Err(e) => return Err(e),
    };
    output.push(arg.to_string());
    proof {
        assert(texts(output@) =~= texts(old(output)@) + builtin_output(BuiltIn::Println, (**args)@));
    }
    Ok(Rc::new(Value::Atom(Atom::Nil)))
}

impl BuiltIn {
    /// The built-in named by `s`, if any.
    pub fn from_str(s: &str) -> (r: Option<Self>)
        ensures
            r == builtin_of(s@),
    {
        if str_eq(s, "+") {
            Some(BuiltIn::Add)
        } else if str_eq(s, "-") {
            Some(BuiltIn::Sub)
        } else if str_eq(s, "*") {
            Some(BuiltIn::Mul)
        } else if str_eq(s, "=") {
            Some(BuiltIn::Eq)
        } else if str_eq(s, "println") {
            Some(BuiltIn::Println)
        } else {
            None
        }
    }

    /// Applies the built-in to the list of evaluated arguments `args`; what
    /// `println` writes is appended to `output`.
    pub fn eval(&self, args: &Rc<Value>, output: &mut Vec<String>) -> (r: Result<
        Rc<Value>,
        RuntimeError,
    >)
        ensures
            match builtin_result(*self, (**args)@) {
                Ok(v) => r matches Ok(x) && (*x)@ == v,
                Err(f) => r matches Err(e) && e@ == f,
            },
            texts(final(output)@) == texts(old(output)@) + builtin_output(*self, (**args)@),
    {
        proof {
            assert(texts(output@) =~= texts(old(output)@) + Seq::<Seq<char>>::empty());
        }
        match self {
            BuiltIn::Add => self::add(args),
            BuiltIn::Sub => self::sub(args),
            BuiltIn::Mul => self::mul(args),
            BuiltIn::Eq => eq(args),
            BuiltIn::Println => println(args, output),
        }
    }
}

} // verus!
