//! The errors of reading and evaluation.

use vstd::prelude::*;

verus! {

/// Why a parse or an evaluation was abandoned. An error ends the whole
/// top-level expression: nothing is recovered below that level.
#[derive(Clone, Copy, Debug, PartialEq, Eq, Structural)]
pub enum LispError {
    /// A symbol was looked up that the scope does not bind.
    UnboundSymbol,
    /// An arithmetic operator was handed something that is not a number.
    NonNumericOperand,
    /// A list was required: the target of `push`, `car` or `cdr`, or the
    /// parameter list of `defn` or `lambda`.
    NotAList,
    /// An operator or a quote was given the wrong number of operands.
    ArityMismatch,
    /// A value of the wrong kind: a predicate that is not a boolean, a name
    /// that is not an atom, or a cell that cannot be evaluated.
    TypeMismatch,
    /// The head of a call did not evaluate to a function.
    NotCallable,
    /// A closing parenthesis without an opening one.
    UnmatchedParen,
    /// A division whose divisor is zero.
    DivisionByZero,
    /// An arithmetic result that a number cannot hold.
    NumericOverflow,
    /// Nesting went deeper than the depth budget allows.
    DepthExceeded,
}

impl LispError {
    /// A short description, for diagnostics.
    pub fn message(&self) -> (r: &'static str)
        ensures
            r@ == error_text(*self),
    {
        match self {
            LispError::UnboundSymbol => "unbound symbol",
            LispError::NonNumericOperand => "non-numeric operand",
            LispError::NotAList => "not a list",
            LispError::ArityMismatch => "wrong number of arguments",
            LispError::TypeMismatch => "type mismatch",
            LispError::NotCallable => "not callable",
            LispError::UnmatchedParen => "unmatched parenthesis",
            LispError::DivisionByZero => "division by zero",
            LispError::NumericOverflow => "numeric overflow",
            LispError::DepthExceeded => "depth exceeded",
        }
    }
}

/// The text that `LispError::message` gives for each error.
pub open spec fn error_text(e: LispError) -> Seq<char> {
    match e {
        LispError::UnboundSymbol => "unbound symbol"@,
        LispError::NonNumericOperand => "non-numeric operand"@,
        LispError::NotAList => "not a list"@,
        LispError::ArityMismatch => "wrong number of arguments"@,
        LispError::TypeMismatch => "type mismatch"@,
        LispError::NotCallable => "not callable"@,
        LispError::UnmatchedParen => "unmatched parenthesis"@,
        LispError::DivisionByZero => "division by zero"@,
        LispError::NumericOverflow => "numeric overflow"@,
        LispError::DepthExceeded => "depth exceeded"@,
    }
}

} // verus!
