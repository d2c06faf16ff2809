//! Witness values that may not be known yet.

use vstd::prelude::*;
use crate::error::Error;
use crate::field::{add_mod, mul_mod, neg_mod, sub_mod, Field};

verus! {

/// A field element that is either known or not yet known. Arithmetic on
/// values yields an unknown value as soon as one operand is unknown.
#[derive(Clone, Copy, Debug)]
pub enum Value<F> {
    /// A concrete witness.
    Known(F),
    /// A witness that has not been supplied.
    Unknown,
}

impl<F: Field> View for Value<F> {
    type V = Option<nat>;

    /// The residue of a known value, `None` for an unknown one.
    open spec fn view(&self) -> Option<nat> {
        match self {
            Value::Known(v) => Some(v.value()),
            Value::Unknown => None,
        }
    }
}

/// The sum of two optional residues: unknown as soon as one of them is.
pub open spec fn add_known(a: Option<nat>, b: Option<nat>, p: nat) -> Option<nat> {
    match (a, b) {
        (Some(x), Some(y)) => Some(add_mod(x, y, p)),
        _ => None,
    }
}

/// The difference of two optional residues: unknown as soon as one of them is.
pub open spec fn sub_known(a: Option<nat>, b: Option<nat>, p: nat) -> Option<nat> {
    match (a, b) {
        (Some(x), Some(y)) => Some(sub_mod(x, y, p)),
        _ => None,
    }
}

/// The product of two optional residues: unknown as soon as one of them is.
pub open spec fn mul_known(a: Option<nat>, b: Option<nat>, p: nat) -> Option<nat> {
    match (a, b) {
        (Some(x), Some(y)) => Some(mul_mod(x, y, p)),
        _ => None,
    }
}

impl<F: Field> Value<F> {
    /// A known value.
    pub fn known(v: F) -> (r: Self)
        ensures
            r == Value::Known(v),
    {
        Value::Known(v)
    }

    /// The unknown value.
    pub fn unknown() -> (r: Self)
        ensures
            r == Value::<F>::Unknown,
    {
        Value::Unknown
    }

    /// Whether the value is known.
    pub fn is_known(&self) -> (b: bool)
        ensures
            b == (self@ is Some),
    {
        match self {
            Value::Known(_) => true,
            Value::Unknown => false,
        }
    }

    /// The concrete element, or `AssignmentError` where there is none.
    pub fn assign(&self) -> (r: Result<F, Error>)
        ensures
            match *self {
                Value::Known(v) => r == Ok::<F, Error>(v),
                Value::Unknown => r == Err::<F, Error>(Error::AssignmentError),
            },
    {
        match self {
            Value::Known(v) => Ok(*v),
            Value::Unknown => Err(Error::AssignmentError),
        }
    }

    /// The sum of two values.
    pub fn add(&self, rhs: &Self) -> (r: Self)
        ensures
            r@ == add_known(self@, rhs@, F::modulus()),
    {
        match (self, rhs) {
            (Value::Known(a), Value::Known(b)) => Value::Known(a.add(b)),
            _ => Value::Unknown,
        }
    }

    /// The difference of two values.
    pub fn sub(&self, rhs: &Self) -> (r: Self)
        ensures
            r@ == sub_known(self@, rhs@, F::modulus()),
    {
        match (self, rhs) {
            (Value::Known(a), Value::Known(b)) => Value::Known(a.sub(b)),
            _ => Value::Unknown,
        }
    }

    /// The product of two values.
    pub fn mul(&self, rhs: &Self) -> (r: Self)
        ensures
            r@ == mul_known(self@, rhs@, F::modulus()),
    {
        match (self, rhs) {
            (Value::Known(a), Value::Known(b)) => Value::Known(a.mul(b)),
            _ => Value::Unknown,
        }
    }

    /// The additive inverse of a value.
    pub fn neg(&self) -> (r: Self)
        ensures
            r@ == match self@ {
                Some(x) => Some(neg_mod(x, F::modulus())),
                None => None,
            },
    {
        match self {
            Value::Known(a) => Value::Known(a.neg()),
            Value::Unknown => Value::Unknown,
        }
    }
}

impl<F: Field> Default for Value<F> {
    /// The default value is unknown.
    fn default() -> (r: Self)
        ensures
            r == Value::<F>::Unknown,
    {
        Value::Unknown
    }
}

} // verus!
