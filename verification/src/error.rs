//! What can go wrong when a profile is compiled or evaluated.

use vstd::prelude::*;
use crate::text::{debug_quoted, decimal, push_decimal, quote};
use crate::value::Value;

verus! {

/// Why an evaluation did not end in a value.
#[derive(Debug, PartialEq, Eq)]
pub enum RuntimeError {
    /// The compiled expression breaks a rule that the compiler keeps.
    Internal(String),
    /// A value of the wrong type: the value found, and the types accepted.
    TypeError { have: String, expected: String },
    /// No clause of a `when` was taken.
    WhenFallthrough,
    /// Not a failure: a `return!` block ended the evaluation with this value.
    EarlyReturn(Value),
}

/// A runtime error as a mathematical value.
pub enum RuntimeErrorView {
    Internal(Seq<char>),
    TypeError { have: Seq<char>, expected: Seq<char> },
    WhenFallthrough,
    EarlyReturn(Value),
}

impl View for RuntimeError {
    type V = RuntimeErrorView;

    open spec fn view(&self) -> RuntimeErrorView {
        match self {
            RuntimeError::Internal(message) => RuntimeErrorView::Internal(message@),
            RuntimeError::TypeError { have, expected } => RuntimeErrorView::TypeError {
                have: have@,
                expected: expected@,
            },
            RuntimeError::WhenFallthrough => RuntimeErrorView::WhenFallthrough,
            RuntimeError::EarlyReturn(value) => RuntimeErrorView::EarlyReturn(*value),
        }
    }
}

/// How an evaluation ends: in a value or in an error.
pub type Outcome = Result<Value, RuntimeErrorView>;

/// The outcome that a result of the interpreter stands for.
pub open spec fn outcome(r: Result<Value, RuntimeError>) -> Outcome {
    match r {
        Ok(value) => Ok(value),
        Err(error) => Err(error@),
    }
}

impl RuntimeErrorView {
    /// A constant is looked up at an index that holds none.
    pub open spec fn bad_constant(index: u8) -> RuntimeErrorView {
        RuntimeErrorView::Internal("bad constant reference: "@ + decimal(index as nat))
    }

    /// A global is looked up that the lookup does not offer.
    pub open spec fn bad_global(name: Seq<char>) -> RuntimeErrorView {
        RuntimeErrorView::Internal("bad global reference: "@ + debug_quoted(name))
    }

    /// A variable refers to a slot that the evaluation does not have.
    pub open spec fn bad_variable(slot: u16) -> RuntimeErrorView {
        RuntimeErrorView::Internal("bad variable reference: "@ + decimal(slot as nat))
    }

    /// A block has no argument to work on.
    pub open spec fn improper_arity() -> RuntimeErrorView {
        RuntimeErrorView::Internal("improper arity"@)
    }

    /// A tag pattern is evaluated where no feature is at hand.
    pub open spec fn no_tags() -> RuntimeErrorView {
        RuntimeErrorView::Internal("no tags supported here"@)
    }

    /// An operand of an arithmetic block is neither a number nor invalid.
    pub open spec fn bad_operand(value: Value) -> RuntimeErrorView {
        RuntimeErrorView::TypeError { have: value.text(), expected: "invalid|number"@ }
    }

    /// A score is neither a number nor invalid.
    pub open spec fn bad_score(value: Value) -> RuntimeErrorView {
        RuntimeErrorView::TypeError { have: value.text(), expected: "number|invalid"@ }
    }
}

impl RuntimeError {
    pub fn bad_constant(index: u8) -> (r: RuntimeError)
        ensures
            r@ == RuntimeErrorView::bad_constant(index),
    {
        let mut message = String::from_str("bad constant reference: ");
        push_decimal(&mut message, index as u64);
        RuntimeError::Internal(message)
    }

    pub fn bad_global(name: &str) -> (r: RuntimeError)
        ensures
            r@ == RuntimeErrorView::bad_global(name@),
    {
        let mut message = String::from_str("bad global reference: ");
        let quoted = quote(name);
        message.append(quoted.as_str());
        RuntimeError::Internal(message)
    }

    pub fn bad_variable(slot: u16) -> (r: RuntimeError)
        ensures
            r@ == RuntimeErrorView::bad_variable(slot),
    {
        let mut message = String::from_str("bad variable reference: ");
        push_decimal(&mut message, slot as u64);
        RuntimeError::Internal(message)
    }

    pub fn improper_arity() -> (r: RuntimeError)
        ensures
            r@ == RuntimeErrorView::improper_arity(),
    {
        RuntimeError::Internal(String::from_str("improper arity"))
    }

    pub fn no_tags() -> (r: RuntimeError)
        ensures
            r@ == RuntimeErrorView::no_tags(),
    {
        RuntimeError::Internal(String::from_str("no tags supported here"))
    }

    pub fn bad_operand(value: &Value) -> (r: RuntimeError)
        requires
            !(value is Number),
        ensures
            r@ == RuntimeErrorView::bad_operand(*value),
    {
        RuntimeError::TypeError {
            have: value.describe(),
            expected: String::from_str("invalid|number"),
        }
    }

    pub fn bad_score(value: &Value) -> (r: RuntimeError)
        requires
            !(value is Number),
        ensures
            r@ == RuntimeErrorView::bad_score(*value),
    {
        RuntimeError::TypeError {
            have: value.describe(),
            expected: String::from_str("number|invalid"),
        }
    }
}

/// Why a profile was not compiled.
#[derive(Debug, PartialEq, Eq)]
pub enum CompileError {
    /// A block has a name that stands for no kind of block.
    UnknownBlockTy(String),
    /// A name is neither defined, nor a constant, nor a known global.
    UnknownIdent(String),
    /// The block of this name has too few or too many arguments.
    InvalidArity(String),
    /// There are more constants than an index can tell apart.
    TooManyConstants,
    /// One expression uses more variables than there are slots.
    TooManyVariables,
    /// The definition of a constant did not evaluate to a value.
    ConstEval(RuntimeError),
    /// The profile's text is not a profile.
    Syntax(String),
}

/// A compile error as a mathematical value.
pub enum CompileErrorView {
    UnknownBlockTy(Seq<char>),
    UnknownIdent(Seq<char>),
    InvalidArity(Seq<char>),
    TooManyConstants,
    TooManyVariables,
    ConstEval(RuntimeErrorView),
    Syntax(Seq<char>),
}

impl View for CompileError {
    type V = CompileErrorView;

    open spec fn view(&self) -> CompileErrorView {
        match self {
            CompileError::UnknownBlockTy(name) => CompileErrorView::UnknownBlockTy(name@),
            CompileError::UnknownIdent(name) => CompileErrorView::UnknownIdent(name@),
            CompileError::InvalidArity(name) => CompileErrorView::InvalidArity(name@),
            CompileError::TooManyConstants => CompileErrorView::TooManyConstants,
            CompileError::TooManyVariables => CompileErrorView::TooManyVariables,
            CompileError::ConstEval(error) => CompileErrorView::ConstEval(error@),
            CompileError::Syntax(message) => CompileErrorView::Syntax(message@),
        }
    }
}

} // verus!
