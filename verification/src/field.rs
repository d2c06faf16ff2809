//! The contract between the engine and the prime field it computes in.
//!
//! An element is modelled by its canonical residue, a natural number below the
//! field's modulus; every operation is specified on residues.

use vstd::prelude::*;
use vstd::arithmetic::div_mod::{
    lemma_add_mod_noop_right, lemma_mod_add_multiples_vanish, lemma_small_mod,
};

verus! {

/// The residue of `a + b` modulo `p`.
pub open spec fn add_mod(a: nat, b: nat, p: nat) -> nat {
    (a + b) % p
}

/// The residue of `a - b` modulo `p`.
pub open spec fn sub_mod(a: nat, b: nat, p: nat) -> nat {
    ((a - b) % (p as int)) as nat
}

/// The residue of `a * b` modulo `p`.
pub open spec fn mul_mod(a: nat, b: nat, p: nat) -> nat {
    (a * b) % p
}

/// The residue of `-a` modulo `p`.
pub open spec fn neg_mod(a: nat, p: nat) -> nat {
    ((0 - a) % (p as int)) as nat
}

/// An element and its additive inverse sum to zero.
pub proof fn lemma_add_neg(a: nat, p: nat)
    requires
        0 < p,
    ensures
        add_mod(a, neg_mod(a, p), p) == 0,
{
    lemma_add_mod_noop_right(a as int, 0 - a, p as int);
    lemma_small_mod(0, p);
    assert(a + (0 - a) == 0);
}

/// The difference of two distinct residues is not zero.
pub proof fn lemma_sub_distinct(a: nat, b: nat, p: nat)
    requires
        a < p,
        b < p,
        a != b,
    ensures
        add_mod(a, neg_mod(b, p), p) != 0,
{
    lemma_add_mod_noop_right(a as int, 0 - b, p as int);
    if a > b {
        lemma_small_mod((a - b) as nat, p);
    } else {
        lemma_mod_add_multiples_vanish(a - b, p as int);
        lemma_small_mod((p + a - b) as nat, p);
    }
}

/// A prime field whose elements the engine can add, subtract, multiply and
/// compare.
pub trait Field: Sized + Copy {
    /// The number of elements of the field.
    spec fn modulus() -> nat;

    /// The canonical residue of an element.
    spec fn value(&self) -> nat;

    /// Residues lie below the modulus, and the field has at least two elements.
    proof fn lemma_residue(&self)
        ensures
            1 < Self::modulus(),
            self.value() < Self::modulus(),
    ;

    /// The additive identity.
    fn zero() -> (r: Self)
        ensures
            r.value() == 0,
    ;

    /// The multiplicative identity.
    fn one() -> (r: Self)
        ensures
            r.value() == 1,
    ;

    /// The element that a small integer stands for.
    fn from_u64(v: u64) -> (r: Self)
        ensures
            r.value() == (v as nat) % Self::modulus(),
    ;

    /// Field addition.
    fn add(&self, rhs: &Self) -> (r: Self)
        ensures
            r.value() == add_mod(self.value(), rhs.value(), Self::modulus()),
    ;

    /// Field subtraction.
    fn sub(&self, rhs: &Self) -> (r: Self)
        ensures
            r.value() == sub_mod(self.value(), rhs.value(), Self::modulus()),
    ;

    /// Field multiplication.
    fn mul(&self, rhs: &Self) -> (r: Self)
        ensures
            r.value() == mul_mod(self.value(), rhs.value(), Self::modulus()),
    ;

    /// The additive inverse.
    fn neg(&self) -> (r: Self)
        ensures
            r.value() == neg_mod(self.value(), Self::modulus()),
    ;

    /// Whether two elements are the same element of the field.
    fn is_equal(&self, rhs: &Self) -> (b: bool)
        ensures
            b == (self.value() == rhs.value()),
    ;
}

} // verus!
