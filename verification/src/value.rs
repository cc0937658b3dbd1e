//! The values of the scoring language.
//!
//! Numbers are IEEE-754 single-precision values, held by their bit
//! patterns. No decision of the language depends on how large a number
//! is, so arithmetic is not carried out here: an arithmetic block yields
//! the term that says which operation is to be applied to which operands,
//! and `Number::compute` folds such a term with the operation it is given.

use vstd::prelude::*;
use crate::text::{debug_quoted, quote};

verus! {

/// The bit pattern of `0.0`.
pub const ZERO: u32 = 0;

/// The bit pattern of `1.0`.
pub const ONE: u32 = 0x3F80_0000;

/// The bit pattern of `500000.0`, the score that stands for "impassable".
pub const IMPASSABLE: u32 = 0x48F4_2400;

/// A binary arithmetic operation, named after the block that applies it.
#[derive(Clone, Copy, Debug, PartialEq, Eq)]
pub enum ArithOp {
    Sum,
    Sub,
    Mul,
    Div,
}

/// A number: either given by its bits, or the result of an operation on
/// two numbers, left operand first.
#[derive(Debug, PartialEq, Eq)]
pub enum Number {
    Bits(u32),
    Apply(ArithOp, Box<Number>, Box<Number>),
}

impl Number {
    /// Holds when folding `self` with `apply` can give `r`: a number given
    /// by its bits folds to those bits, and an operation folds to what
    /// `apply` returns on the folded operands.
    pub open spec fn folds_to<F: Fn(ArithOp, u32, u32) -> u32>(self, apply: &F, r: u32) -> bool
        decreases self,
    {
        match self {
            Number::Bits(bits) => r == bits,
            Number::Apply(op, lhs, rhs) => exists|a: u32, b: u32|
                lhs.folds_to(apply, a) && rhs.folds_to(apply, b) && #[trigger] call_ensures(
                    apply,
                    (op, a, b),
                    r,
                ),
        }
    }

    /// Folds the term bottom-up, left operand first, calling `apply` once
    /// for each operation in it.
    pub fn compute<F: Fn(ArithOp, u32, u32) -> u32>(&self, apply: &F) -> (r: u32)
        requires
            forall|op: ArithOp, a: u32, b: u32| call_requires(apply, (op, a, b)),
        ensures
            self.folds_to(apply, r),
        decreases self,
    {
        match self {
            Number::Bits(bits) => *bits,
            Number::Apply(op, lhs, rhs) => {
                let a = lhs.compute(apply);
                let b = rhs.compute(apply);
                let r = apply(*op, a, b);
                r
            },
        }
    }
}

impl Clone for Number {
    fn clone(&self) -> (r: Self)
        ensures
            r == *self,
        decreases self,
    {
        match self {
            Number::Bits(bits) => Number::Bits(*bits),
            Number::Apply(op, lhs, rhs) => {
                let l = (&**lhs).clone();
                let r = (&**rhs).clone();
                Number::Apply(*op, Box::new(l), Box::new(r))
            },
        }
    }
}

/// A value of the language.
#[derive(Debug, PartialEq, Eq)]
pub enum Value {
    Invalid,
    Bool(bool),
    Number(Number),
    String(String),
}

impl Value {
    /// `Bool(false)` and `Invalid` are falsy; every other value is truthy,
    /// whatever number or text it holds.
    pub open spec fn truthy(self) -> bool {
        !(self == Value::Bool(false) || self is Invalid)
    }

    pub fn is_truthy(&self) -> (r: bool)
        ensures
            r == self.truthy(),
    {
        match self {
            Value::Invalid => false,
            Value::Bool(b) => *b,
            _ => true,
        }
    }

    /// How a type error names a value. Numbers are never named: a number is
    /// accepted wherever a value can be refused.
    pub open spec fn text(self) -> Seq<char>
        recommends
            !(self is Number),
    {
        match self {
            Value::Invalid => "Invalid"@,
            Value::Bool(true) => "Bool(true)"@,
            Value::Bool(false) => "Bool(false)"@,
            Value::Number(_) => "Number"@,
            Value::String(s) => "String("@ + debug_quoted(s@) + ")"@,
        }
    }

    /// The text that names this value in a type error.
    pub fn describe(&self) -> (r: String)
        requires
            !(self is Number),
        ensures
            r@ == self.text(),
    {
        match self {
            Value::Invalid => String::from_str("Invalid"),
            Value::Bool(true) => String::from_str("Bool(true)"),
            Value::Bool(false) => String::from_str("Bool(false)"),
            Value::Number(_) => String::from_str("Number"),
            Value::String(s) => {
                let mut out = String::from_str("String(");
                let inner = quote(s.as_str());
                out.append(inner.as_str());
                out.append(")");
                out
            },
        }
    }
}

impl Clone for Value {
    fn clone(&self) -> (r: Self)
        ensures
            r == *self,
    {
        match self {
            Value::Invalid => Value::Invalid,
            Value::Bool(b) => Value::Bool(*b),
            Value::Number(n) => Value::Number(n.clone()),
            Value::String(s) => Value::String(s.clone()),
        }
    }
}

} // verus!
