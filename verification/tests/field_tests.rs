use circuit_trace::field::Field;
use circuit_trace::pasta::Fp;
use halo2_proofs::pasta::group::ff::PrimeField;

fn fp(v: u64) -> Fp {
    Fp::from_u64(v)
}

/// The canonical bytes of `p - 1`, least significant first.
fn minus_one_bytes() -> [u8; 32] {
    let mut bytes = [0u8; 32];
    let low: [u8; 16] = [
        0x00, 0x00, 0x00, 0x00, 0xed, 0x30, 0x2d, 0x99, 0x1b, 0xf9, 0x4c, 0x09, 0xfc, 0x98, 0x46,
        0x22,
    ];
    bytes[..16].copy_from_slice(&low);
    bytes[31] = 0x40;
    bytes
}

#[test]
fn pasta_addition_of_small_values() {
    assert!(fp(2).add(&fp(3)).is_equal(&fp(5)));
    assert!(!fp(2).add(&fp(3)).is_equal(&fp(2)));
    assert!(!fp(2).add(&fp(3)).is_equal(&fp(3)));
}

#[test]
fn pasta_subtraction_of_small_values() {
    assert!(fp(9).sub(&fp(4)).is_equal(&fp(5)));
    assert!(!fp(9).sub(&fp(4)).is_equal(&fp(9)));
}

#[test]
fn pasta_multiplication_of_small_values() {
    assert!(fp(6).mul(&fp(7)).is_equal(&fp(42)));
    assert!(!fp(6).mul(&fp(7)).is_equal(&fp(6)));
    let big = fp(u64::MAX).mul(&fp(u64::MAX));
    let mut expected = [0u8; 32];
    // (2^64 - 1)^2 = 2^128 - 2^65 + 1
    expected[0] = 0x01;
    expected[8] = 0xfe;
    for byte in expected.iter_mut().take(16).skip(9) {
        *byte = 0xff;
    }
    assert_eq!(big.to_repr(), expected);
}

#[test]
fn pasta_negation_wraps_around_the_modulus() {
    let minus_one = fp(1).neg();
    assert_eq!(minus_one.to_repr(), minus_one_bytes());
    assert!(minus_one.add(&fp(1)).is_equal(&fp(0)));
    assert!(fp(0).neg().is_equal(&fp(0)));
    assert!(fp(0).sub(&fp(1)).is_equal(&minus_one));
    assert!(minus_one.mul(&minus_one).is_equal(&fp(1)));
}

#[test]
fn pasta_identities() {
    assert!(Fp::zero().is_equal(&fp(0)));
    assert!(Fp::one().is_equal(&fp(1)));
    assert!(!Fp::zero().is_equal(&Fp::one()));
    assert_eq!(Fp::zero().to_repr(), [0u8; 32]);
    assert!(fp(17).mul(&Fp::one()).is_equal(&fp(17)));
    assert!(fp(17).add(&Fp::zero()).is_equal(&fp(17)));
}

#[test]
fn pasta_representation_is_little_endian() {
    let repr = fp(0x0102).to_repr();
    assert_eq!(repr[0], 0x02);
    assert_eq!(repr[1], 0x01);
    assert!(repr[2..].iter().all(|b| *b == 0));
}

#[test]
fn pasta_agrees_with_the_outside_field() {
    let pairs: [(u64, u64); 4] = [(2, 3), (0, 0), (u64::MAX, u64::MAX), (123456789, 987654321)];
    for (a, b) in pairs {
        let x = halo2_proofs::pasta::Fp::from(a);
        let y = halo2_proofs::pasta::Fp::from(b);
        assert_eq!(fp(a).add(&fp(b)).to_repr(), (x + y).to_repr());
        assert_eq!(fp(a).sub(&fp(b)).to_repr(), (x - y).to_repr());
        assert_eq!(fp(a).mul(&fp(b)).to_repr(), (x * y).to_repr());
        assert_eq!(fp(a).neg().to_repr(), (-x).to_repr());
        assert_eq!(fp(a).is_equal(&fp(b)), x == y);
    }
}

#[test]
fn only_canonical_bytes_spell_an_element() {
    let mut modulus = minus_one_bytes();
    modulus[0] = 0x01;
    assert!(Fp::from_repr(modulus).is_none());
    assert!(Fp::from_repr([0xff; 32]).is_none());
    let largest = Fp::from_repr(minus_one_bytes()).unwrap();
    assert!(largest.is_equal(&fp(1).neg()));
    assert_eq!(largest.to_repr(), minus_one_bytes());
    assert!(Fp::from_repr([0u8; 32]).unwrap().is_equal(&fp(0)));
    let mut seven = [0u8; 32];
    seven[0] = 7;
    assert!(Fp::from_repr(seven).unwrap().is_equal(&fp(7)));
}
