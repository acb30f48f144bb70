use vstd::prelude::*;

verus! {

/// The kinds of failure an evaluation can end in, as contracts state them.
pub enum Fault {
    NotAList,
    EmptyList,
    NotASymbol,
    NoValue,
    Arity(nat, nat),
    TypeMismatch,
    Overflow,
    Unbound(Seq<char>),
    NotCallable,
    UnknownScope,
    Exhausted,
}

/// Why an evaluation stopped.
#[derive(Clone, Debug, PartialEq, Eq)]
pub enum RuntimeError {
    /// A value that had to be a proper list was not.
    NotAList,
    /// A list was destructured past its end.
    EmptyList,
    /// A value that had to be a symbol was not.
    NotASymbol,
    /// A `define` stood where a value was needed.
    NoValue,
    /// A procedure received the wrong number of arguments.
    ArityMismatch { expected: usize, found: usize },
    /// An operand was not of the kind the operation requires.
    TypeMismatch,
    /// An integer result does not fit in 64 bits.
    Overflow,
    /// A symbol named neither a built-in nor a binding in scope.
    Unbound(String),
    /// The operator of a call was not a function.
    NotCallable,
    /// A closure refers to a scope that this runtime does not hold.
    UnknownScope,
    /// The evaluation nested deeper than the runtime allows.
    Exhausted,
}

impl View for RuntimeError {
    type V = Fault;

    open spec fn view(&self) -> Fault {
        match self {
            RuntimeError::NotAList => Fault::NotAList,
            RuntimeError::EmptyList => Fault::EmptyList,
            RuntimeError::NotASymbol => Fault::NotASymbol,
            RuntimeError::NoValue => Fault::NoValue,
            RuntimeError::ArityMismatch { expected, found } => Fault::Arity(
                *expected as nat,
                *found as nat,
            ),
            RuntimeError::TypeMismatch => Fault::TypeMismatch,
            RuntimeError::Overflow => Fault::Overflow,
            RuntimeError::Unbound(name) => Fault::Unbound(name@),
            RuntimeError::NotCallable => Fault::NotCallable,
            RuntimeError::UnknownScope => Fault::UnknownScope,
            RuntimeError::Exhausted => Fault::Exhausted,
        }
    }
}

} // verus!
