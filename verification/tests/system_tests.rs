use circuit_trace::addition::{TestConfig, ADDITION_GATE};
use circuit_trace::error::Error;
use circuit_trace::expression::{Column, ColumnKind, Expression, Rotation, Selector};
use circuit_trace::pasta::Fp;
use circuit_trace::system::{ConstraintSystem, VirtualCells};

#[test]
fn columns_are_numbered_by_kind() {
    let mut cs: ConstraintSystem<Fp> = ConstraintSystem::new();
    assert_eq!(cs.add_advice_column(), Column { kind: ColumnKind::Advice, index: 0 });
    assert_eq!(cs.add_advice_column(), Column { kind: ColumnKind::Advice, index: 1 });
    assert_eq!(cs.add_instance_column(), Column { kind: ColumnKind::Instance, index: 0 });
    assert_eq!(cs.add_fixed_column(), Column { kind: ColumnKind::Fixed, index: 0 });
    assert_eq!(cs.add_selector(), Selector { index: 0 });
    assert_eq!(cs.add_selector(), Selector { index: 1 });
    assert_eq!(cs.num_advice_columns(), 2);
    assert_eq!(cs.num_instance_columns(), 1);
    assert_eq!(cs.num_fixed_columns(), 1);
    assert_eq!(cs.num_selectors(), 2);
    assert!(cs.declares(Column { kind: ColumnKind::Advice, index: 1 }));
    assert!(!cs.declares(Column { kind: ColumnKind::Advice, index: 2 }));
    assert!(!cs.declares(Column { kind: ColumnKind::Instance, index: 1 }));
}

#[test]
fn equality_is_enabled_column_by_column() {
    let mut cs: ConstraintSystem<Fp> = ConstraintSystem::new();
    let a = cs.add_advice_column();
    let b = cs.add_advice_column();
    assert!(!cs.equality_enabled(a));
    assert_eq!(cs.enable_equality(a), Ok(()));
    assert!(cs.equality_enabled(a));
    assert!(!cs.equality_enabled(b));
    assert_eq!(cs.enable_equality(a), Ok(()));
    assert!(cs.equality_enabled(a));
    assert!(!cs.equality_enabled(b));
}

#[test]
fn enabling_equality_on_an_undeclared_column_is_a_configuration_error() {
    let mut cs: ConstraintSystem<Fp> = ConstraintSystem::new();
    let a = cs.add_advice_column();
    let missing = Column { kind: ColumnKind::Advice, index: 1 };
    let instance = Column { kind: ColumnKind::Instance, index: 0 };
    assert_eq!(cs.enable_equality(missing), Err(Error::ConfigurationError));
    assert_eq!(cs.enable_equality(instance), Err(Error::ConfigurationError));
    assert!(!cs.equality_enabled(missing));
    assert!(!cs.equality_enabled(a));
    assert_eq!(cs.num_advice_columns(), 1);
}

#[test]
fn gates_are_registered_in_order() {
    let mut cs: ConstraintSystem<Fp> = ConstraintSystem::new();
    let a = cs.add_advice_column();
    let s = cs.add_selector();
    cs.create_gate("first", |cells: &VirtualCells| {
        vec![cells.query_selector(s).mul(cells.query(a, Rotation::cur()))]
    });
    cs.create_gate("second", |cells: &VirtualCells| {
        vec![cells.query(a, Rotation::prev()), cells.query(a, Rotation::next())]
    });
    let gates = cs.gates();
    assert_eq!(gates.len(), 2);
    assert_eq!(gates[0].name(), "first");
    assert_eq!(gates[0].polynomials().len(), 1);
    assert_eq!(gates[1].name(), "second");
    assert_eq!(gates[1].polynomials().len(), 2);
    match &gates[1].polynomials()[0] {
        Expression::Cell(column, at) => {
            assert_eq!(*column, a);
            assert_eq!(*at, Rotation(-1));
        }
        _ => panic!("a query is a cell"),
    }
}

#[test]
fn configure_declares_the_addition_circuit() {
    let mut cs: ConstraintSystem<Fp> = ConstraintSystem::new();
    let config = TestConfig::configure(&mut cs);
    assert_eq!(config.x, Column { kind: ColumnKind::Advice, index: 0 });
    assert_eq!(config.y, Column { kind: ColumnKind::Advice, index: 1 });
    assert_eq!(config.instance, Column { kind: ColumnKind::Instance, index: 0 });
    assert_eq!(config.selector, Selector { index: 0 });
    assert_eq!(cs.num_advice_columns(), 2);
    assert_eq!(cs.num_instance_columns(), 1);
    assert_eq!(cs.num_fixed_columns(), 0);
    assert_eq!(cs.num_selectors(), 1);
    assert!(cs.equality_enabled(config.x));
    assert!(cs.equality_enabled(config.y));
    assert!(cs.equality_enabled(config.instance));
    assert_eq!(cs.gates().len(), 1);
    assert_eq!(cs.gates()[0].name(), ADDITION_GATE);
    assert_eq!(cs.gates()[0].name(), "Test bear's first gate");
    assert_eq!(cs.gates()[0].polynomials().len(), 1);
}

#[test]
fn the_addition_gate_is_selector_times_sum_minus_next() {
    let mut cs: ConstraintSystem<Fp> = ConstraintSystem::new();
    let config = TestConfig::configure(&mut cs);
    let poly = &cs.gates()[0].polynomials()[0];
    let (s, body) = match poly {
        Expression::Product(s, body) => (s, body),
        _ => panic!("a product was expected"),
    };
    assert!(matches!(**s, Expression::Selector(sel) if sel == config.selector));
    let (sum, minus) = match &**body {
        Expression::Sum(sum, minus) => (sum, minus),
        _ => panic!("the body is a sum"),
    };
    match &**sum {
        Expression::Sum(a, b) => {
            assert!(matches!(**a, Expression::Cell(c, at) if c == config.x && at == Rotation(0)));
            assert!(matches!(**b, Expression::Cell(c, at) if c == config.y && at == Rotation(0)));
        }
        _ => panic!("x + y is a sum"),
    }
    match &**minus {
        Expression::Negated(out) => {
            assert!(matches!(**out, Expression::Cell(c, at) if c == config.x && at == Rotation(1)));
        }
        _ => panic!("the output is subtracted"),
    }
}

#[test]
fn configuring_twice_declares_fresh_columns() {
    let mut cs: ConstraintSystem<Fp> = ConstraintSystem::new();
    let first = TestConfig::configure(&mut cs);
    let second = TestConfig::configure(&mut cs);
    assert_eq!(first.x.index, 0);
    assert_eq!(second.x.index, 2);
    assert_eq!(second.y.index, 3);
    assert_eq!(second.instance.index, 1);
    assert_eq!(second.selector.index, 1);
    assert_eq!(cs.gates().len(), 2);
}

#[test]
fn rotations() {
    assert_eq!(Rotation::cur(), Rotation(0));
    assert_eq!(Rotation::next(), Rotation(1));
    assert_eq!(Rotation::prev(), Rotation(-1));
}
