//! A small prime field, computed in machine words.

use vstd::prelude::*;
use crate::field::Field;

verus! {

/// The modulus of the small field: the prime 101.
pub const SMALL_MODULUS: u64 = 101;

/// An element of the field of integers modulo 101.
#[derive(Clone, Copy, Debug, PartialEq, Eq)]
pub struct F101 {
    residue: u64,
}

impl F101 {
    #[verifier::type_invariant]
    spec fn reduced(self) -> bool {
        self.residue < SMALL_MODULUS
    }

    /// The residue of the element, below 101.
    pub fn residue(&self) -> (r: u64)
        ensures
            r == self.value(),
            r < SMALL_MODULUS,
    {
        proof {
            use_type_invariant(self);
        }
        self.residue
    }
}

impl Field for F101 {
    open spec fn modulus() -> nat {
        SMALL_MODULUS as nat
    }

    closed spec fn value(&self) -> nat {
        (self.residue % SMALL_MODULUS) as nat
    }

    proof fn lemma_residue(&self) {
    }

    fn zero() -> (r: Self) {
        F101 { residue: 0 }
    }

    fn one() -> (r: Self) {
        F101 { residue: 1 }
    }

    fn from_u64(v: u64) -> (r: Self) {
        F101 { residue: v % SMALL_MODULUS }
    }

    fn add(&self, rhs: &Self) -> (r: Self) {
        proof {
            use_type_invariant(self);
            use_type_invariant(rhs);
        }
        F101 { residue: (self.residue + rhs.residue) % SMALL_MODULUS }
    }

    fn sub(&self, rhs: &Self) -> (r: Self) {
        proof {
            use_type_invariant(self);
            use_type_invariant(rhs);
        }
        F101 { residue: (self.residue + SMALL_MODULUS - rhs.residue) % SMALL_MODULUS }
    }

    fn mul(&self, rhs: &Self) -> (r: Self) {
        proof {
            use_type_invariant(self);
            use_type_invariant(rhs);
            assert(self.residue * rhs.residue <= 100 * 100) by (nonlinear_arith)
                requires
                    self.residue <= 100,
                    rhs.residue <= 100,
            ;
        }
        F101 { residue: (self.residue * rhs.residue) % SMALL_MODULUS }
    }

    fn neg(&self) -> (r: Self) {
        proof {
            use_type_invariant(self);
        }
        F101 { residue: (SMALL_MODULUS - self.residue) % SMALL_MODULUS }
    }

    fn is_equal(&self, rhs: &Self) -> (b: bool) {
        proof {
            use_type_invariant(self);
            use_type_invariant(rhs);
        }
        self.residue == rhs.residue
    }
}

} // verus!
