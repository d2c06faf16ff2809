//! The base field of the Pallas curve, computed by `halo2_proofs`.
//!
//! An element is held as its canonical little-endian byte representation, so
//! that its residue is a plain function of the bytes. The arithmetic itself is
//! done by `halo2_proofs::pasta::Fp`.

use vstd::prelude::*;
use halo2_proofs::pasta::group::ff::PrimeField;
use crate::field::{add_mod, mul_mod, neg_mod, sub_mod, Field};

verus! {

/// The Pallas base field modulus.
pub open spec fn pasta_modulus() -> nat {
    0x40000000000000000000000000000000224698fc094cf91b992d30ed00000001nat
}

/// The number that a little-endian byte string spells.
pub open spec fn le_value(bytes: Seq<u8>) -> nat
    decreases bytes.len(),
{
    if bytes.len() == 0 {
        0
    } else {
        bytes[0] as nat + 256 * le_value(bytes.skip(1))
    }
}

/// Byte strings of one length that spell the same number are the same string.
pub proof fn lemma_le_value_injective(a: Seq<u8>, b: Seq<u8>)
    requires
        a.len() == b.len(),
        le_value(a) == le_value(b),
    ensures
        a == b,
    decreases a.len(),
{
    if a.len() > 0 {
        lemma_le_value_injective(a.skip(1), b.skip(1));
        assert forall|i: int| 0 <= i < a.len() implies a[i] == b[i] by {
            if i > 0 {
                assert(a.skip(1)[i - 1] == a[i]);
                assert(b.skip(1)[i - 1] == b[i]);
            }
        }
    }
    assert(a =~= b);
}

/// Calls `+` of `halo2_proofs::pasta::Fp` on the elements that two canonical
/// representations stand for, and hands back the canonical representation of
/// the sum: the bytes of `(a + b) mod p`.
#[verifier::external_body]
fn fp_add(a: &[u8; 32], b: &[u8; 32]) -> (r: [u8; 32])
    requires
        le_value(a@) < pasta_modulus(),
        le_value(b@) < pasta_modulus(),
    ensures
        le_value(r@) == add_mod(le_value(a@), le_value(b@), pasta_modulus()),
{
    let x = halo2_proofs::pasta::Fp::from_repr(*a).unwrap();
    let y = halo2_proofs::pasta::Fp::from_repr(*b).unwrap();
    (x + y).to_repr()
}

/// Calls `-` of `halo2_proofs::pasta::Fp` in the same way: the bytes of
/// `(a - b) mod p`.
#[verifier::external_body]
fn fp_sub(a: &[u8; 32], b: &[u8; 32]) -> (r: [u8; 32])
    requires
        le_value(a@) < pasta_modulus(),
        le_value(b@) < pasta_modulus(),
    ensures
        le_value(r@) == sub_mod(le_value(a@), le_value(b@), pasta_modulus()),
{
    let x = halo2_proofs::pasta::Fp::from_repr(*a).unwrap();
    let y = halo2_proofs::pasta::Fp::from_repr(*b).unwrap();
    (x - y).to_repr()
}

/// Calls `*` of `halo2_proofs::pasta::Fp` in the same way: the bytes of
/// `(a * b) mod p`.
#[verifier::external_body]
fn fp_mul(a: &[u8; 32], b: &[u8; 32]) -> (r: [u8; 32])
    requires
        le_value(a@) < pasta_modulus(),
        le_value(b@) < pasta_modulus(),
    ensures
        le_value(r@) == mul_mod(le_value(a@), le_value(b@), pasta_modulus()),
{
    let x = halo2_proofs::pasta::Fp::from_repr(*a).unwrap();
    let y = halo2_proofs::pasta::Fp::from_repr(*b).unwrap();
    (x * y).to_repr()
}

/// Calls the unary `-` of `halo2_proofs::pasta::Fp`: the bytes of `-a mod p`.
#[verifier::external_body]
fn fp_neg(a: &[u8; 32]) -> (r: [u8; 32])
    requires
        le_value(a@) < pasta_modulus(),
    ensures
        le_value(r@) == neg_mod(le_value(a@), pasta_modulus()),
{
    let x = halo2_proofs::pasta::Fp::from_repr(*a).unwrap();
    (-x).to_repr()
}

/// Calls `From<u64>` of `halo2_proofs::pasta::Fp`: the canonical bytes of the
/// element that stands for `v`, which is `v` itself, the modulus being larger
/// than any `u64`.
#[verifier::external_body]
fn fp_from_u64(v: u64) -> (r: [u8; 32])
    ensures
        le_value(r@) == v,
{
    halo2_proofs::pasta::Fp::from(v).to_repr()
}

/// Calls `from_repr` of `halo2_proofs::pasta::Fp`, which accepts a byte string
/// if and only if it is canonical: the number it spells lies below the
/// modulus.
#[verifier::external_body]
fn fp_is_canonical(bytes: &[u8; 32]) -> (b: bool)
    ensures
        b == (le_value(bytes@) < pasta_modulus()),
{
    halo2_proofs::pasta::Fp::from_repr(*bytes).is_some().into()
}

/// An element of the Pallas base field.
#[derive(Clone, Copy, Debug)]
pub struct Fp {
    repr: [u8; 32],
}

impl Fp {
    #[verifier::type_invariant]
    spec fn canonical(self) -> bool {
        le_value(self.repr@) < pasta_modulus()
    }

    /// The canonical little-endian bytes of the element.
    pub closed spec fn bytes(&self) -> Seq<u8> {
        self.repr@
    }

    /// The element that `bytes` spell, least significant byte first, unless
    /// they spell a number that is not below the modulus.
    pub fn from_repr(bytes: [u8; 32]) -> (r: Option<Fp>)
        ensures
            r is Some <==> le_value(bytes@) < pasta_modulus(),
            r is Some ==> r->Some_0.bytes() == bytes@ && r->Some_0.value() == le_value(bytes@),
    {
        if fp_is_canonical(&bytes) {
            Some(Fp { repr: bytes })
        } else {
            None
        }
    }

    /// The canonical little-endian bytes of the element.
    pub fn to_repr(&self) -> (r: [u8; 32])
        ensures
            r@ == self.bytes(),
            le_value(r@) == self.value(),
    {
        proof {
            use_type_invariant(self);
        }
        self.repr
    }
}

impl Field for Fp {
    open spec fn modulus() -> nat {
        pasta_modulus()
    }

    closed spec fn value(&self) -> nat {
        le_value(self.repr@) % pasta_modulus()
    }

    proof fn lemma_residue(&self) {
    }

    fn zero() -> (r: Self) {
        Fp { repr: fp_from_u64(0) }
    }

    fn one() -> (r: Self) {
        Fp { repr: fp_from_u64(1) }
    }

    fn from_u64(v: u64) -> (r: Self) {
        Fp { repr: fp_from_u64(v) }
    }

    fn add(&self, rhs: &Self) -> (r: Self) {
        proof {
            use_type_invariant(self);
            use_type_invariant(rhs);
        }
        Fp { repr: fp_add(&self.repr, &rhs.repr) }
    }

    fn sub(&self, rhs: &Self) -> (r: Self) {
        proof {
            use_type_invariant(self);
            use_type_invariant(rhs);
        }
        Fp { repr: fp_sub(&self.repr, &rhs.repr) }
    }

    fn mul(&self, rhs: &Self) -> (r: Self) {
        proof {
            use_type_invariant(self);
            use_type_invariant(rhs);
        }
        Fp { repr: fp_mul(&self.repr, &rhs.repr) }
    }

    fn neg(&self) -> (r: Self) {
        proof {
            use_type_invariant(self);
        }
        Fp { repr: fp_neg(&self.repr) }
    }

    fn is_equal(&self, rhs: &Self) -> (b: bool) {
        proof {
            use_type_invariant(self);
            use_type_invariant(rhs);
        }
        let mut i: usize = 0;
        while i < 32
            invariant
                i <= 32,
                le_value(self.repr@) < pasta_modulus(),
                le_value(rhs.repr@) < pasta_modulus(),
                forall|j: int| 0 <= j < i ==> self.repr@[j] == rhs.repr@[j],
            decreases 32 - i,
        {
            if self.repr[i] != rhs.repr[i] {
                proof {
                    if self.value() == rhs.value() {
                        lemma_le_value_injective(self.repr@, rhs.repr@);
                    }
                }
                return false;
            }
            i = i + 1;
        }
        proof {
            assert(self.repr@ =~= rhs.repr@);
        }
        true
    }
}

} // verus!
