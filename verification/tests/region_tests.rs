use circuit_trace::error::Error;
use circuit_trace::expression::{Column, ColumnKind, Selector};
use circuit_trace::field::Field;
use circuit_trace::layouter::Layouter;
use circuit_trace::pasta::Fp;
use circuit_trace::system::ConstraintSystem;
use circuit_trace::trace::Cell;
use circuit_trace::value::Value;

fn known(v: u64) -> Value<Fp> {
    Value::known(Fp::from_u64(v))
}

fn holds(value: Option<Value<Fp>>, expected: u64) -> bool {
    match value {
        Some(Value::Known(v)) => v.is_equal(&Fp::from_u64(expected)),
        _ => false,
    }
}

fn system() -> ConstraintSystem<Fp> {
    let mut cs = ConstraintSystem::new();
    cs.add_advice_column();
    cs.add_advice_column();
    cs.add_fixed_column();
    cs.add_instance_column();
    cs.add_selector();
    cs
}

const A: Column = Column { kind: ColumnKind::Advice, index: 0 };
const B: Column = Column { kind: ColumnKind::Advice, index: 1 };
const FIXED: Column = Column { kind: ColumnKind::Fixed, index: 0 };
const INSTANCE: Column = Column { kind: ColumnKind::Instance, index: 0 };

#[test]
fn assigning_the_same_value_twice_is_no_conflict() {
    let cs = system();
    let layouter = Layouter::new(&cs, 3).unwrap();
    let mut region = layouter.region("twice");
    assert!(region.assign_advice(A, 0, known(7)).is_ok());
    assert!(region.assign_advice(A, 0, known(7)).is_ok());
    assert!(holds(region.peek(A, 0), 7));
    assert_eq!(region.rows(), 1);
}

#[test]
fn assigning_a_different_value_is_a_conflict() {
    let cs = system();
    let layouter = Layouter::new(&cs, 3).unwrap();
    let mut region = layouter.region("conflict");
    assert!(region.assign_advice(A, 0, known(7)).is_ok());
    assert_eq!(region.assign_advice(A, 0, known(8)).err(), Some(Error::AssignmentConflict));
    assert!(holds(region.peek(A, 0), 7));
    assert!(region.assign_advice(A, 1, known(8)).is_ok());
    assert!(region.assign_advice(B, 0, known(8)).is_ok());
    assert!(holds(region.peek(A, 0), 7));
}

#[test]
fn an_unknown_value_never_conflicts() {
    let cs = system();
    let layouter = Layouter::new(&cs, 3).unwrap();
    let mut region = layouter.region("unknown");
    assert!(region.assign_advice(A, 0, Value::unknown()).is_ok());
    assert!(matches!(region.peek(A, 0), Some(Value::Unknown)));
    assert!(region.assign_advice(A, 0, known(4)).is_ok());
    assert!(holds(region.peek(A, 0), 4));
    assert!(region.assign_advice(A, 0, Value::unknown()).is_ok());
    assert!(matches!(region.peek(A, 0), Some(Value::Unknown)));
}

#[test]
fn assigning_outside_the_circuit_is_an_assignment_error() {
    let cs = system();
    let layouter = Layouter::new(&cs, 3).unwrap();
    let mut region = layouter.region("errors");
    let missing = Column { kind: ColumnKind::Advice, index: 2 };
    assert_eq!(region.assign_advice(missing, 0, known(1)).err(), Some(Error::AssignmentError));
    assert_eq!(region.assign_advice(FIXED, 0, known(1)).err(), Some(Error::AssignmentError));
    assert_eq!(region.assign_advice(INSTANCE, 0, known(1)).err(), Some(Error::AssignmentError));
    assert_eq!(region.assign_fixed(A, 0, known(1)).err(), Some(Error::AssignmentError));
    assert_eq!(region.assign_fixed(INSTANCE, 0, known(1)).err(), Some(Error::AssignmentError));
    assert_eq!(region.assign_advice(A, 8, known(1)).err(), Some(Error::AssignmentError));
    assert_eq!(region.assign_advice(A, usize::MAX, known(1)).err(), Some(Error::AssignmentError));
    assert_eq!(region.rows(), 0);
    assert!(region.peek(A, 0).is_none());
    assert!(region.assign_advice(A, 7, known(1)).is_ok());
    assert!(region.assign_fixed(FIXED, 0, known(1)).is_ok());
    assert_eq!(region.rows(), 8);
}

#[test]
fn a_conflict_is_found_in_fixed_columns_too() {
    let cs = system();
    let layouter = Layouter::new(&cs, 3).unwrap();
    let mut region = layouter.region("fixed");
    assert!(region.assign_fixed(FIXED, 2, known(1)).is_ok());
    assert!(region.assign_fixed(FIXED, 2, known(1)).is_ok());
    assert_eq!(region.assign_fixed(FIXED, 2, known(2)).err(), Some(Error::AssignmentConflict));
    assert!(region.assign_advice(A, 2, known(2)).is_ok());
}

#[test]
fn the_region_spans_its_highest_row() {
    let cs = system();
    let layouter = Layouter::new(&cs, 3).unwrap();
    let mut region = layouter.region("rows");
    assert_eq!(region.rows(), 0);
    region.assign_advice(B, 3, known(1)).unwrap();
    assert_eq!(region.rows(), 4);
    region.assign_advice(A, 1, known(1)).unwrap();
    assert_eq!(region.rows(), 4);
    Selector { index: 0 }.enable(&mut region, 5).unwrap();
    assert_eq!(region.rows(), 6);
    assert!(region.peek(B, 2).is_none());
    assert!(region.peek(A, 3).is_none());
}

#[test]
fn enabling_a_selector_outside_the_circuit_is_an_assignment_error() {
    let cs = system();
    let layouter = Layouter::new(&cs, 3).unwrap();
    let mut region = layouter.region("selectors");
    assert_eq!(Selector { index: 1 }.enable(&mut region, 0), Err(Error::AssignmentError));
    assert_eq!(Selector { index: 0 }.enable(&mut region, 8), Err(Error::AssignmentError));
    assert_eq!(region.rows(), 0);
    assert_eq!(Selector { index: 0 }.enable(&mut region, 7), Ok(()));
    assert_eq!(Selector { index: 0 }.enable(&mut region, 7), Ok(()));
    assert_eq!(region.rows(), 8);
}

#[test]
fn assigned_cells_carry_their_address_and_value() {
    let cs = system();
    let mut layouter = Layouter::new(&cs, 3).unwrap();
    let mut first = layouter.region("first");
    let cell = first.assign_advice(A, 2, known(9)).unwrap();
    assert_eq!(cell.cell(), Cell { column: A, row: 2 });
    assert!(holds(Some(cell.value()), 9));
    assert_eq!(first.name(), "first");
    assert_eq!(first.start(), 0);
    layouter.assign_region(first).unwrap();
    let mut second = layouter.region("second");
    assert_eq!(second.start(), 3);
    let cell = second.assign_advice(B, 1, known(4)).unwrap();
    assert_eq!(cell.cell(), Cell { column: B, row: 4 });
    assert_eq!(second.assign_advice(B, 5, known(4)).err(), Some(Error::AssignmentError));
    assert!(second.assign_advice(B, 4, known(4)).is_ok());
}
