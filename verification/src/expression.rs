//! Columns, selectors, rotations and the polynomial expressions that gates
//! are made of.

use vstd::prelude::*;
use crate::field::Field;

verus! {

/// What a column carries.
#[derive(Clone, Copy, Debug, PartialEq, Eq, Structural)]
pub enum ColumnKind {
    /// Private witness values.
    Advice,
    /// Public inputs.
    Instance,
    /// Constants of the circuit.
    Fixed,
}

/// A vertical lane of the trace: the `index`-th column of its kind.
#[derive(Clone, Copy, Debug, PartialEq, Eq, Structural)]
pub struct Column {
    pub kind: ColumnKind,
    pub index: usize,
}

/// A per-row flag that switches gates on.
#[derive(Clone, Copy, Debug, PartialEq, Eq, Structural)]
pub struct Selector {
    pub index: usize,
}

/// A row offset relative to the row at which a gate is evaluated.
#[derive(Clone, Copy, Debug, PartialEq, Eq, Structural)]
pub struct Rotation(pub i32);

impl Rotation {
    /// The current row.
    pub fn cur() -> (r: Rotation)
        ensures
            r == Rotation(0),
    {
        Rotation(0)
    }

    /// The row after the current one.
    pub fn next() -> (r: Rotation)
        ensures
            r == Rotation(1),
    {
        Rotation(1)
    }

    /// The row before the current one.
    pub fn prev() -> (r: Rotation)
        ensures
            r.0 == -1,
    {
        Rotation(-1)
    }
}

/// A polynomial over the cells of the trace, relative to a current row.
#[derive(Debug)]
pub enum Expression<F> {
    /// A constant of the field.
    Constant(F),
    /// One where the selector is enabled at the current row, zero elsewhere.
    Selector(Selector),
    /// The value of a column at a rotation of the current row.
    Cell(Column, Rotation),
    /// The additive inverse of an expression.
    Negated(Box<Expression<F>>),
    /// The sum of two expressions.
    Sum(Box<Expression<F>>, Box<Expression<F>>),
    /// The product of two expressions.
    Product(Box<Expression<F>>, Box<Expression<F>>),
}

impl<F: Field> Expression<F> {
    /// The sum `self + rhs`.
    pub fn add(self, rhs: Expression<F>) -> (r: Expression<F>)
        ensures
            r == Expression::Sum(Box::new(self), Box::new(rhs)),
    {
        Expression::Sum(Box::new(self), Box::new(rhs))
    }

    /// The difference `self - rhs`, built as `self + (-rhs)`.
    pub fn sub(self, rhs: Expression<F>) -> (r: Expression<F>)
        ensures
            r == Expression::Sum(Box::new(self), Box::new(Expression::Negated(Box::new(rhs)))),
    {
        Expression::Sum(Box::new(self), Box::new(Expression::Negated(Box::new(rhs))))
    }

    /// The product `self * rhs`.
    pub fn mul(self, rhs: Expression<F>) -> (r: Expression<F>)
        ensures
            r == Expression::Product(Box::new(self), Box::new(rhs)),
    {
        Expression::Product(Box::new(self), Box::new(rhs))
    }

    /// The additive inverse `-self`.
    pub fn neg(self) -> (r: Expression<F>)
        ensures
            r == Expression::Negated(Box::new(self)),
    {
        Expression::Negated(Box::new(self))
    }
}

} // verus!
