use circuit_trace::addition::{TestConfig, ADDITION_GATE};
use circuit_trace::checker::{
    all_declared, check, evaluate, is_active, is_declared, is_enabled, rotate, Failure, Verdict,
};
use circuit_trace::error::Error;
use circuit_trace::expression::{Column, ColumnKind, Expression, Rotation, Selector};
use circuit_trace::field::Field;
use circuit_trace::layouter::Layouter;
use circuit_trace::pasta::Fp;
use circuit_trace::system::{ConstraintSystem, VirtualCells};
use circuit_trace::trace::{Cell, Trace};
use circuit_trace::value::Value;

fn fp(v: u64) -> Fp {
    Fp::from_u64(v)
}

fn known(v: u64) -> Value<Fp> {
    Value::known(fp(v))
}

const X: Column = Column { kind: ColumnKind::Advice, index: 0 };
const Y: Column = Column { kind: ColumnKind::Advice, index: 1 };
const INSTANCE: Column = Column { kind: ColumnKind::Instance, index: 0 };

fn addition_system() -> (ConstraintSystem<Fp>, TestConfig) {
    let mut cs = ConstraintSystem::new();
    let config = TestConfig::configure(&mut cs);
    (cs, config)
}

/// One region with `x` and `y` on its first row and `out` below `x`, tied to
/// the first public input; the selector is enabled on the first row if
/// `enable` says so.
fn addition_trace(
    cs: &ConstraintSystem<Fp>,
    config: TestConfig,
    k: u32,
    x: u64,
    y: u64,
    out: u64,
    enable: bool,
    public: u64,
) -> Trace<Fp> {
    let mut layouter = Layouter::new(cs, k).unwrap();
    let mut region = layouter.region("addition");
    region.assign_advice(config.x, 0, known(x)).unwrap();
    region.assign_advice(config.y, 0, known(y)).unwrap();
    if enable {
        config.selector.enable(&mut region, 0).unwrap();
    }
    let cell = region.assign_advice(config.x, 1, known(out)).unwrap();
    layouter.assign_region(region).unwrap();
    layouter.constrain_instance(cell.cell(), config.instance, 0).unwrap();
    layouter.finish(&vec![vec![fp(public)]]).unwrap()
}

fn gate_failure(row: usize) -> Failure {
    Failure::Gate { name: ADDITION_GATE, gate: 0, poly: 0, row }
}

fn instance_failure(index: usize, row: usize) -> Failure {
    Failure::Instance { index, cell: Cell { column: X, row }, column: 0, row: 0 }
}

#[test]
fn two_plus_three_is_the_public_five() {
    let (cs, config) = addition_system();
    let trace = addition_trace(&cs, config, 4, 2, 3, 5, true, 5);
    assert_eq!(check(&cs, &trace), Ok(Verdict::Satisfied));
}

#[test]
fn a_public_six_violates_the_instance_constraint_at_row_one() {
    let (cs, config) = addition_system();
    let trace = addition_trace(&cs, config, 4, 2, 3, 5, true, 6);
    assert_eq!(check(&cs, &trace), Ok(Verdict::Violated(vec![instance_failure(0, 1)])));
}

#[test]
fn a_wrong_sum_violates_the_addition_gate_at_the_assignment_row() {
    let (cs, config) = addition_system();
    let trace = addition_trace(&cs, config, 4, 2, 3, 6, true, 6);
    assert_eq!(check(&cs, &trace), Ok(Verdict::Violated(vec![gate_failure(0)])));
}

#[test]
fn an_omitted_selector_leaves_the_sum_unconstrained() {
    let (cs, config) = addition_system();
    let honest = addition_trace(&cs, config, 4, 2, 3, 5, false, 5);
    assert_eq!(check(&cs, &honest), Ok(Verdict::Satisfied));
    // The known footgun: with the selector off nothing ties `out` to `x + y`.
    let forged = addition_trace(&cs, config, 4, 2, 3, 100, false, 100);
    assert_eq!(check(&cs, &forged), Ok(Verdict::Satisfied));
    let caught = addition_trace(&cs, config, 4, 2, 3, 100, true, 100);
    assert_eq!(check(&cs, &caught), Ok(Verdict::Violated(vec![gate_failure(0)])));
}

#[test]
fn every_violation_is_reported() {
    let (cs, config) = addition_system();
    let trace = addition_trace(&cs, config, 4, 2, 3, 7, true, 9);
    assert_eq!(
        check(&cs, &trace),
        Ok(Verdict::Violated(vec![gate_failure(0), instance_failure(0, 1)]))
    );
}

#[test]
fn violations_are_reported_row_by_row_then_constraint_by_constraint() {
    let (cs, config) = addition_system();
    let mut layouter = Layouter::new(&cs, 3).unwrap();
    let mut cells = Vec::new();
    for (x, y, out) in [(1u64, 1u64, 3u64), (2, 2, 4), (3, 3, 7)] {
        let mut region = layouter.region("addition");
        region.assign_advice(config.x, 0, known(x)).unwrap();
        region.assign_advice(config.y, 0, known(y)).unwrap();
        config.selector.enable(&mut region, 0).unwrap();
        cells.push(region.assign_advice(config.x, 1, known(out)).unwrap().cell());
        layouter.assign_region(region).unwrap();
    }
    layouter.constrain_equal(cells[0], cells[1]).unwrap();
    layouter.constrain_equal(cells[0], cells[0]).unwrap();
    layouter.constrain_equal(cells[2], cells[1]).unwrap();
    layouter.constrain_instance(cells[1], config.instance, 0).unwrap();
    layouter.constrain_instance(cells[2], config.instance, 1).unwrap();
    layouter.constrain_instance(cells[0], config.instance, 2).unwrap();
    let trace = layouter.finish(&vec![vec![fp(4), fp(8)]]).unwrap();
    assert_eq!(
        check(&cs, &trace),
        Ok(Verdict::Violated(vec![
            gate_failure(0),
            gate_failure(4),
            Failure::Equality { index: 0, left: cells[0], right: cells[1] },
            Failure::Equality { index: 2, left: cells[2], right: cells[1] },
            Failure::Instance { index: 1, cell: cells[2], column: 0, row: 1 },
            Failure::Instance { index: 2, cell: cells[0], column: 0, row: 2 },
        ]))
    );
}

#[test]
fn equal_cells_satisfy_an_equality_constraint() {
    let (cs, config) = addition_system();
    let mut layouter = Layouter::new(&cs, 2).unwrap();
    let mut region = layouter.region("copies");
    let a = region.assign_advice(config.x, 0, known(9)).unwrap().cell();
    let b = region.assign_advice(config.y, 3, known(9)).unwrap().cell();
    layouter.assign_region(region).unwrap();
    layouter.constrain_equal(a, b).unwrap();
    let trace = layouter.finish(&vec![vec![]]).unwrap();
    assert_eq!(check(&cs, &trace), Ok(Verdict::Satisfied));
}

#[test]
fn an_unassigned_cell_holds_zero() {
    let (cs, config) = addition_system();
    let mut layouter = Layouter::new(&cs, 2).unwrap();
    let mut region = layouter.region("sparse");
    region.assign_advice(config.x, 0, known(4)).unwrap();
    config.selector.enable(&mut region, 0).unwrap();
    region.assign_advice(config.x, 1, known(4)).unwrap();
    layouter.assign_region(region).unwrap();
    let trace = layouter.finish(&vec![vec![]]).unwrap();
    assert_eq!(check(&cs, &trace), Ok(Verdict::Satisfied));
}

#[test]
fn the_next_row_of_the_last_row_is_the_first() {
    let (cs, config) = addition_system();
    for (first, expected) in [(5u64, Verdict::Satisfied), (6, Verdict::Violated(vec![gate_failure(1)]))]
    {
        let mut layouter = Layouter::new(&cs, 1).unwrap();
        let mut region = layouter.region("wrap");
        region.assign_advice(config.x, 0, known(first)).unwrap();
        region.assign_advice(config.x, 1, known(2)).unwrap();
        region.assign_advice(config.y, 1, known(3)).unwrap();
        config.selector.enable(&mut region, 1).unwrap();
        layouter.assign_region(region).unwrap();
        let trace = layouter.finish(&vec![vec![]]).unwrap();
        assert_eq!(check(&cs, &trace), Ok(expected));
    }
}

#[test]
fn rotations_wrap_around_the_trace() {
    assert_eq!(rotate(0, Rotation(0), 16), 0);
    assert_eq!(rotate(0, Rotation(1), 16), 1);
    assert_eq!(rotate(15, Rotation(1), 16), 0);
    assert_eq!(rotate(0, Rotation(-1), 16), 15);
    assert_eq!(rotate(3, Rotation(-5), 16), 14);
    assert_eq!(rotate(3, Rotation(35), 16), 6);
    assert_eq!(rotate(3, Rotation(-35), 16), 0);
    assert_eq!(rotate(0, Rotation(i32::MIN), 16), 0);
    assert_eq!(rotate(0, Rotation(i32::MAX), 16), 15);
    assert_eq!(rotate(2, Rotation(i32::MIN), 3), 0);
    assert_eq!(rotate(0, Rotation(-7), 1), 0);
}

#[test]
fn a_gate_over_an_undeclared_column_is_a_configuration_error() {
    let mut cs: ConstraintSystem<Fp> = ConstraintSystem::new();
    let a = cs.add_advice_column();
    let missing = Column { kind: ColumnKind::Advice, index: 1 };
    cs.create_gate("sound", |cells: &VirtualCells| vec![cells.query(a, Rotation::cur())]);
    cs.create_gate("malformed", |cells: &VirtualCells| {
        vec![cells.query(a, Rotation::cur()), cells.query(missing, Rotation::cur())]
    });
    let trace = Layouter::new(&cs, 2).unwrap().finish(&vec![]).unwrap();
    assert!(!all_declared(&cs, &trace));
    assert!(is_declared(&cs.gates()[1].polynomials()[0], &trace));
    assert!(!is_declared(&cs.gates()[1].polynomials()[1], &trace));
    assert_eq!(check(&cs, &trace), Err(Error::ConfigurationError));
}

#[test]
fn a_gate_over_an_undeclared_selector_is_a_configuration_error() {
    let mut cs: ConstraintSystem<Fp> = ConstraintSystem::new();
    cs.create_gate("malformed", |cells: &VirtualCells| {
        vec![cells.query_selector(Selector { index: 0 })]
    });
    let trace = Layouter::new(&cs, 2).unwrap().finish(&vec![]).unwrap();
    assert_eq!(check(&cs, &trace), Err(Error::ConfigurationError));
}

#[test]
fn a_gate_without_selector_is_active_on_every_row() {
    let mut cs: ConstraintSystem<Fp> = ConstraintSystem::new();
    let a = cs.add_advice_column();
    cs.create_gate("zero", |cells: &VirtualCells| vec![cells.query(a, Rotation::cur())]);
    let mut layouter = Layouter::new(&cs, 2).unwrap();
    let mut region = layouter.region("values");
    region.assign_advice(a, 1, known(1)).unwrap();
    region.assign_advice(a, 3, known(2)).unwrap();
    layouter.assign_region(region).unwrap();
    let trace = layouter.finish(&vec![]).unwrap();
    assert_eq!(
        check(&cs, &trace),
        Ok(Verdict::Violated(vec![
            Failure::Gate { name: "zero", gate: 0, poly: 0, row: 1 },
            Failure::Gate { name: "zero", gate: 0, poly: 0, row: 3 },
        ]))
    );
}

#[test]
fn a_gate_is_active_where_all_its_selectors_are_enabled() {
    let mut cs: ConstraintSystem<Fp> = ConstraintSystem::new();
    let a = cs.add_advice_column();
    let s = cs.add_selector();
    let t = cs.add_selector();
    cs.create_gate("both", |cells: &VirtualCells| {
        vec![
            cells.query_selector(s).mul(cells.query(a, Rotation::cur())),
            cells.query_selector(t).mul(cells.query(a, Rotation::cur())),
        ]
    });
    let mut layouter = Layouter::new(&cs, 2).unwrap();
    let mut region = layouter.region("values");
    for row in 0..4 {
        region.assign_advice(a, row, known(1)).unwrap();
    }
    s.enable(&mut region, 0).unwrap();
    t.enable(&mut region, 1).unwrap();
    s.enable(&mut region, 2).unwrap();
    t.enable(&mut region, 2).unwrap();
    layouter.assign_region(region).unwrap();
    let trace = layouter.finish(&vec![]).unwrap();
    let gate = &cs.gates()[0];
    assert!(!is_active(gate, &trace, 0));
    assert!(!is_active(gate, &trace, 1));
    assert!(is_active(gate, &trace, 2));
    assert!(!is_active(gate, &trace, 3));
    assert!(is_enabled(&gate.polynomials()[0], &trace, 0));
    assert!(!is_enabled(&gate.polynomials()[1], &trace, 0));
    assert_eq!(
        check(&cs, &trace),
        Ok(Verdict::Violated(vec![
            Failure::Gate { name: "both", gate: 0, poly: 0, row: 2 },
            Failure::Gate { name: "both", gate: 0, poly: 1, row: 2 },
        ]))
    );
}

#[test]
fn expressions_are_evaluated_in_the_field() {
    let mut cs: ConstraintSystem<Fp> = ConstraintSystem::new();
    let a = cs.add_advice_column();
    let f = cs.add_fixed_column();
    let i = cs.add_instance_column();
    let s = cs.add_selector();
    let mut layouter = Layouter::new(&cs, 2).unwrap();
    let mut region = layouter.region("values");
    region.assign_advice(a, 0, known(6)).unwrap();
    region.assign_advice(a, 1, known(7)).unwrap();
    region.assign_fixed(f, 0, known(10)).unwrap();
    s.enable(&mut region, 0).unwrap();
    layouter.assign_region(region).unwrap();
    let trace = layouter.finish(&vec![vec![fp(100)]]).unwrap();

    let cell = |column: Column, by: i32| Expression::<Fp>::Cell(column, Rotation(by));
    assert!(evaluate(&cell(a, 0), &trace, 0).is_equal(&fp(6)));
    assert!(evaluate(&cell(a, 1), &trace, 0).is_equal(&fp(7)));
    assert!(evaluate(&cell(a, -1), &trace, 1).is_equal(&fp(6)));
    assert!(evaluate(&cell(a, -1), &trace, 0).is_equal(&fp(0)));
    assert!(evaluate(&cell(f, 0), &trace, 0).is_equal(&fp(10)));
    assert!(evaluate(&cell(i, 0), &trace, 0).is_equal(&fp(100)));
    assert!(evaluate(&cell(i, 0), &trace, 1).is_equal(&fp(0)));
    assert!(evaluate(&Expression::Constant(fp(42)), &trace, 3).is_equal(&fp(42)));
    assert!(evaluate(&Expression::<Fp>::Selector(s), &trace, 0).is_equal(&fp(1)));
    assert!(evaluate(&Expression::<Fp>::Selector(s), &trace, 1).is_equal(&fp(0)));
    assert!(evaluate(&cell(a, 0).add(cell(a, 1)), &trace, 0).is_equal(&fp(13)));
    assert!(evaluate(&cell(a, 0).mul(cell(a, 1)), &trace, 0).is_equal(&fp(42)));
    assert!(evaluate(&cell(a, 1).sub(cell(a, 0)), &trace, 0).is_equal(&fp(1)));
    assert!(evaluate(&cell(a, 0).sub(cell(a, 1)), &trace, 0).is_equal(&fp(1).neg()));
    assert!(evaluate(&cell(a, 0).neg().add(cell(a, 0)), &trace, 0).is_equal(&fp(0)));
}

#[test]
fn a_failure_lies_at_a_row_of_the_trace() {
    let a = Cell { column: X, row: 3 };
    let b = Cell { column: Y, row: 5 };
    assert_eq!(gate_failure(7).row(), 7);
    assert_eq!(Failure::Equality { index: 0, left: a, right: b }.row(), 3);
    assert_eq!(Failure::Equality { index: 0, left: b, right: a }.row(), 5);
    assert_eq!(instance_failure(0, 1).row(), 1);
    assert_eq!(Failure::Instance { index: 0, cell: b, column: 0, row: 2 }.row(), 5);
    assert_eq!(INSTANCE.kind, ColumnKind::Instance);
}
