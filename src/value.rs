use crate::built_in::BuiltIn;
use crate::eval::Lambda;
use std::rc::Rc;
use vstd::prelude::*;
use vstd::string::StringExecFns;

verus! {

/// An indivisible literal.
#[derive(Clone, Debug, PartialEq, Eq)]
pub enum Atom {
    Nil,
    Symbol(String),
    String(String),
    I64(i64),
    Bool(bool),
}

/// A two-slot cell: `first` and `rest`.
#[derive(Clone, Debug, PartialEq, Eq)]
pub struct Pair(pub Rc<Value>, pub Rc<Value>);

/// Something that can be called.
#[derive(Clone, Debug, PartialEq, Eq)]
pub enum Function {
    Lambda(Lambda),
    BuiltIn(BuiltIn),
}

/// A datum, which is at once program text and run-time value.
#[derive(Clone, Debug, PartialEq, Eq)]
pub enum Value {
    Atom(Atom),
    Pair(Pair),
    Function(Function),
}

/// The mathematical model of a value.
pub enum Val {
    Nil,
    Sym(Seq<char>),
    Str(Seq<char>),
    Int(i64),
    Bool(bool),
    Cons(Box<Val>, Box<Val>),
    Prim(BuiltIn),
    Closure(Seq<Seq<char>>, Box<Val>, Seq<usize>),
}

pub open spec fn names_view(names: Seq<String>) -> Seq<Seq<char>> {
    names.map_values(|s: String| s@)
}

impl View for Value {
    type V = Val;

    open spec fn view(&self) -> Val
        decreases self,
    {
        match self {
            Value::Atom(Atom::Nil) => Val::Nil,
            Value::Atom(Atom::Symbol(s)) => Val::Sym(s@),
            Value::Atom(Atom::String(s)) => Val::Str(s@),
            Value::Atom(Atom::I64(i)) => Val::Int(*i),
            Value::Atom(Atom::Bool(b)) => Val::Bool(*b),
            Value::Pair(Pair(a, b)) => Val::Cons(Box::new((**a)@), Box::new((**b)@)),
            Value::Function(Function::BuiltIn(b)) => Val::Prim(*b),
            Value::Function(Function::Lambda(l)) => Val::Closure(
                names_view(l.argument_names@),
                Box::new((*l.code_ast)@),
                l.scope_path@,
            ),
        }
    }
}

impl Atom {
    /// Whether this is nil.
    pub fn is_nil(&self) -> (r: bool)
        ensures
            r == (*self is Nil),
    {
        if let Atom::Nil = self {
            true
        } else {
            false
        }
    }

    /// The name of a symbol.
    pub fn symbol(&self) -> (r: Option<&str>)
        ensures
            match self {
                Atom::Symbol(s) => r matches Some(x) && x@ == s@,
                _ => r is None,
            },
    {
        if let Atom::Symbol(s) = self {
            Some(s.as_str())
        } else {
            None
        }
    }
}

impl Value {
    pub fn nil() -> (r: Self)
        ensures
            r@ == Val::Nil,
    {
        Value::Atom(Atom::Nil)
    }

    pub fn string(s: &str) -> (r: Self)
        ensures
            r@ == Val::Str(s@),
    {
        Value::Atom(Atom::String(String::from_str(s)))
    }

    pub fn symbol(s: &str) -> (r: Self)
        ensures
            r@ == Val::Sym(s@),
    {
        Value::Atom(Atom::Symbol(String::from_str(s)))
    }

    pub fn i64(i: i64) -> (r: Self)
        ensures
            r@ == Val::Int(i),
    {
        Value::Atom(Atom::I64(i))
    }

    pub fn bool(b: bool) -> (r: Self)
        ensures
            r@ == Val::Bool(b),
    {
        Value::Atom(Atom::Bool(b))
    }

    pub fn pair(a: Rc<Self>, b: Rc<Self>) -> (r: Self)
        ensures
            r@ == Val::Cons(Box::new((*a)@), Box::new((*b)@)),
    {
        Value::Pair(Pair(a, b))
    }

    pub fn built_in(built_in: BuiltIn) -> (r: Self)
        ensures
            r@ == Val::Prim(built_in),
    {
        Value::Function(Function::BuiltIn(built_in))
    }
}

} // verus!
