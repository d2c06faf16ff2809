use circuit_trace::addition::TestCircuit;
use circuit_trace::checker::{Failure, Verdict};
use circuit_trace::circuit::{run, Circuit};
use circuit_trace::error::Error;
use circuit_trace::expression::{Column, ColumnKind};
use circuit_trace::field::Field;
use circuit_trace::layouter::Layouter;
use circuit_trace::pasta::Fp;
use circuit_trace::system::ConstraintSystem;
use circuit_trace::trace::{Cell, InstanceEquality};
use circuit_trace::value::Value;

fn fp(v: u64) -> Fp {
    Fp::from_u64(v)
}

fn circuit(x: u64, y: u64) -> TestCircuit<Fp> {
    TestCircuit { x: Value::known(fp(x)), y: Value::known(fp(y)) }
}

fn mismatch() -> Verdict {
    let x = Column { kind: ColumnKind::Advice, index: 0 };
    Verdict::Violated(vec![Failure::Instance {
        index: 0,
        cell: Cell { column: x, row: 1 },
        column: 0,
        row: 0,
    }])
}

#[test]
fn worked_example_is_satisfied() {
    assert_eq!(run(4, &circuit(2, 3), &vec![vec![fp(5)]]), Ok(Verdict::Satisfied));
}

#[test]
fn worked_example_with_another_public_input_is_violated() {
    assert_eq!(run(4, &circuit(2, 3), &vec![vec![fp(6)]]), Ok(mismatch()));
}

#[test]
fn sums_are_accepted_and_other_inputs_rejected() {
    let cases: [(u64, u64); 5] = [(0, 0), (1, 0), (0, 1), (41, 1), (u64::MAX, u64::MAX)];
    for (x, y) in cases {
        let sum = fp(x).add(&fp(y));
        assert_eq!(run(3, &circuit(x, y), &vec![vec![sum]]), Ok(Verdict::Satisfied));
        let other = sum.add(&fp(1));
        assert_eq!(run(3, &circuit(x, y), &vec![vec![other]]), Ok(mismatch()));
    }
}

#[test]
fn the_sum_is_taken_in_the_field() {
    let minus_one = fp(1).neg();
    let wrapping = TestCircuit { x: Value::known(minus_one), y: Value::known(fp(1)) };
    assert_eq!(run(4, &wrapping, &vec![vec![fp(0)]]), Ok(Verdict::Satisfied));
    assert_eq!(run(4, &wrapping, &vec![vec![minus_one]]), Ok(mismatch()));
}

#[test]
fn a_missing_public_input_counts_as_zero() {
    assert_eq!(run(4, &circuit(0, 0), &vec![vec![]]), Ok(Verdict::Satisfied));
    assert_eq!(run(4, &circuit(2, 3), &vec![vec![]]), Ok(mismatch()));
}

#[test]
fn two_rows_are_enough_and_one_is_not() {
    assert_eq!(run(1, &circuit(2, 3), &vec![vec![fp(5)]]), Ok(Verdict::Satisfied));
    assert_eq!(run(0, &circuit(2, 3), &vec![vec![fp(5)]]), Err(Error::AssignmentError));
    assert_eq!(run(usize::BITS, &circuit(2, 3), &vec![vec![fp(5)]]), Err(Error::AssignmentError));
}

#[test]
fn a_circuit_without_witnesses_cannot_be_finalized() {
    let blank = circuit(2, 3).without_witnesses();
    assert!(!blank.x.is_known());
    assert!(!blank.y.is_known());
    assert_eq!(run(4, &blank, &vec![vec![fp(5)]]), Err(Error::AssignmentError));
    let default: TestCircuit<Fp> = TestCircuit::default();
    assert!(!default.x.is_known() && !default.y.is_known());
    let half = TestCircuit { x: Value::known(fp(2)), y: Value::unknown() };
    assert_eq!(run(4, &half, &vec![vec![fp(5)]]), Err(Error::AssignmentError));
}

#[test]
fn the_public_inputs_must_be_one_list_that_fits() {
    assert_eq!(run(4, &circuit(2, 3), &vec![]), Err(Error::AssignmentError));
    assert_eq!(
        run(4, &circuit(2, 3), &vec![vec![fp(5)], vec![fp(5)]]),
        Err(Error::AssignmentError)
    );
    assert_eq!(
        run(1, &circuit(2, 3), &vec![vec![fp(5), fp(0), fp(0)]]),
        Err(Error::AssignmentError)
    );
    assert_eq!(run(1, &circuit(2, 3), &vec![vec![fp(5), fp(9)]]), Ok(Verdict::Satisfied));
}

#[test]
fn synthesize_lays_out_two_rows() {
    let mut cs: ConstraintSystem<Fp> = ConstraintSystem::new();
    let config = <TestCircuit<Fp> as Circuit<Fp>>::configure(&mut cs);
    let mut layouter = Layouter::new(&cs, 2).unwrap();
    assert_eq!(circuit(2, 3).synthesize(config, &mut layouter), Ok(()));
    assert_eq!(layouter.next_row(), 2);
    let trace = layouter.finish(&vec![vec![fp(5)]]).unwrap();
    assert!(trace.value(config.x, 0).is_equal(&fp(2)));
    assert!(trace.value(config.y, 0).is_equal(&fp(3)));
    assert!(trace.value(config.x, 1).is_equal(&fp(5)));
    assert!(trace.value(config.y, 1).is_equal(&fp(0)));
    assert!(trace.value(config.x, 2).is_equal(&fp(0)));
    assert!(trace.selector_on(config.selector, 0));
    assert!(!trace.selector_on(config.selector, 1));
    assert!(trace.copies().is_empty());
    assert_eq!(
        trace.instance_copies(),
        &vec![InstanceEquality { cell: Cell { column: config.x, row: 1 }, column: 0, row: 0 }]
    );
}

#[test]
fn synthesize_twice_lays_out_two_regions() {
    let mut cs: ConstraintSystem<Fp> = ConstraintSystem::new();
    let config = <TestCircuit<Fp> as Circuit<Fp>>::configure(&mut cs);
    let mut layouter = Layouter::new(&cs, 2).unwrap();
    assert_eq!(circuit(2, 3).synthesize(config, &mut layouter), Ok(()));
    assert_eq!(circuit(1, 4).synthesize(config, &mut layouter), Ok(()));
    assert_eq!(circuit(1, 4).synthesize(config, &mut layouter), Err(Error::AssignmentError));
    let trace = layouter.finish(&vec![vec![fp(5)]]).unwrap();
    assert!(trace.value(config.x, 2).is_equal(&fp(1)));
    assert!(trace.value(config.x, 3).is_equal(&fp(5)));
    assert_eq!(trace.instance_copies().len(), 2);
    assert_eq!(trace.instance_copies()[1].cell, Cell { column: config.x, row: 3 });
}

#[test]
fn synthesize_fails_on_a_circuit_of_another_shape() {
    let mut bare: ConstraintSystem<Fp> = ConstraintSystem::new();
    let mut scratch: ConstraintSystem<Fp> = ConstraintSystem::new();
    let config = <TestCircuit<Fp> as Circuit<Fp>>::configure(&mut scratch);
    let mut layouter = Layouter::new(&bare, 2).unwrap();
    assert_eq!(circuit(2, 3).synthesize(config, &mut layouter), Err(Error::AssignmentError));

    bare.add_advice_column();
    bare.add_advice_column();
    bare.add_instance_column();
    bare.add_selector();
    let mut layouter = Layouter::new(&bare, 2).unwrap();
    assert_eq!(circuit(2, 3).synthesize(config, &mut layouter), Err(Error::EqualityError));
}
