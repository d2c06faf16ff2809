use circuit_trace::error::Error;
use circuit_trace::field::Field;
use circuit_trace::pasta::Fp;
use circuit_trace::value::Value;

fn known(v: u64) -> Value<Fp> {
    Value::known(Fp::from_u64(v))
}

fn holds(value: Value<Fp>, expected: u64) -> bool {
    match value {
        Value::Known(v) => v.is_equal(&Fp::from_u64(expected)),
        Value::Unknown => false,
    }
}

#[test]
fn known_values_combine() {
    assert!(holds(known(2).add(&known(3)), 5));
    assert!(holds(known(7).sub(&known(3)), 4));
    assert!(holds(known(7).mul(&known(3)), 21));
    assert!(holds(known(5).neg().add(&known(5)), 0));
}

#[test]
fn unknown_propagates_through_every_operation() {
    let unknown: Value<Fp> = Value::unknown();
    assert!(!known(2).add(&unknown).is_known());
    assert!(!unknown.add(&known(2)).is_known());
    assert!(!unknown.add(&unknown).is_known());
    assert!(!known(2).sub(&unknown).is_known());
    assert!(!unknown.sub(&known(2)).is_known());
    assert!(!known(2).mul(&unknown).is_known());
    assert!(!unknown.mul(&known(2)).is_known());
    assert!(!unknown.neg().is_known());
    assert!(known(2).add(&known(2)).is_known());
}

#[test]
fn default_value_is_unknown() {
    let value: Value<Fp> = Value::default();
    assert!(!value.is_known());
    assert!(known(0).is_known());
}

#[test]
fn assign_gives_the_element_or_an_assignment_error() {
    match known(9).assign() {
        Ok(v) => assert!(v.is_equal(&Fp::from_u64(9))),
        Err(_) => panic!("a known value has an element"),
    }
    let unknown: Value<Fp> = Value::unknown();
    assert_eq!(unknown.assign().err(), Some(Error::AssignmentError));
}
