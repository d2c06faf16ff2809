//! The addition circuit: two private inputs whose sum is a public input.
//!
//! | row | x          | y   | selector |
//! |-----|------------|-----|----------|
//! | 0   | `x`        | `y` | on       |
//! | 1   | `x + y`    |     |          |
//!
//! One gate, `s * (x + y - x_next)`, ties the cell below `x` to the sum, and
//! one instance constraint ties that cell to the first public input.

use vstd::prelude::*;
use vstd::arithmetic::div_mod::{lemma_mod_bound, lemma_small_mod};
use crate::checker::{
    copy_failures, countable, declared, enabled, eval, failures, gate_active, gate_failure,
    gates_declared, instance_failure, instance_failures, instance_fails, lemma_gate_violation_reported,
    lemma_gates_hold, lemma_instance_violation_reported, poly_fails, rotated, Failure,
};
use crate::circuit::{outcome, Circuit};
use crate::error::Error;
use crate::expression::{Column, ColumnKind, Expression, Rotation, Selector};
use crate::field::{add_mod, lemma_add_neg, lemma_sub_distinct, neg_mod, Field};
use crate::layouter::{lemma_row_count_grows, row_count, LayoutView, Layouter};
use crate::system::{ConstraintSystem, GateView, SystemView, VirtualCells};
use crate::trace::{Cell, InstanceEquality, TraceView};
use crate::value::{add_known, Value};

verus! {

/// The name under which the addition gate is registered.
pub const ADDITION_GATE: &'static str = "Test bear's first gate";

/// The polynomial of the addition gate: `s * (x + y - x_next)`.
pub open spec fn addition_poly<F>(x: Column, y: Column, s: Selector) -> Expression<F> {
    Expression::Product(
        Box::new(Expression::Selector(s)),
        Box::new(
            Expression::Sum(
                Box::new(
                    Expression::Sum(
                        Box::new(Expression::Cell(x, Rotation(0))),
                        Box::new(Expression::Cell(y, Rotation(0))),
                    ),
                ),
                Box::new(Expression::Negated(Box::new(Expression::Cell(x, Rotation(1))))),
            ),
        ),
    )
}

/// The columns and the selector of the addition circuit.
#[derive(Clone, Copy, Debug)]
pub struct TestConfig {
    pub x: Column,
    pub y: Column,
    pub instance: Column,
    pub selector: Selector,
}

impl TestConfig {
    /// What `configure` makes of a constraint system: two more advice columns,
    /// one more instance column and one more selector, equality enabled on the
    /// three columns, and the addition gate registered last.
    pub open spec fn configured<F>(before: SystemView<F>) -> SystemView<F> {
        let x = Column { kind: ColumnKind::Advice, index: before.num_advice as usize };
        let y = Column { kind: ColumnKind::Advice, index: (before.num_advice + 1) as usize };
        let instance = Column { kind: ColumnKind::Instance, index: before.num_instance as usize };
        let selector = Selector { index: before.num_selectors as usize };
        SystemView {
            num_advice: before.num_advice + 2,
            num_instance: before.num_instance + 1,
            num_fixed: before.num_fixed,
            num_selectors: before.num_selectors + 1,
            equality: before.equality.insert(x).insert(y).insert(instance),
            gates: before.gates.push(
                GateView { name: ADDITION_GATE, polys: seq![addition_poly(x, y, selector)] },
            ),
        }
    }

    /// The handles that `configure` returns for a constraint system.
    pub open spec fn handles<F>(before: SystemView<F>) -> TestConfig {
        TestConfig {
            x: Column { kind: ColumnKind::Advice, index: before.num_advice as usize },
            y: Column { kind: ColumnKind::Advice, index: (before.num_advice + 1) as usize },
            instance: Column { kind: ColumnKind::Instance, index: before.num_instance as usize },
            selector: Selector { index: before.num_selectors as usize },
        }
    }

    /// Declares the columns, the selector and the addition gate of the circuit.
    pub fn configure<F: Field>(meta: &mut ConstraintSystem<F>) -> (config: Self)
        requires
            old(meta)@.num_selectors < usize::MAX,
        ensures
            config == Self::handles(old(meta)@),
            final(meta)@ == Self::configured(old(meta)@),
    {
        let x = meta.add_advice_column();
        let y = meta.add_advice_column();
        let instance = meta.add_instance_column();
        let selector = meta.add_selector();

        let _ = meta.enable_equality(x);
        let _ = meta.enable_equality(y);
        let _ = meta.enable_equality(instance);

        let ghost expected: Expression<F> = addition_poly(x, y, selector);
        let constraints = |cells: &VirtualCells| -> (polys: Vec<Expression<F>>)
            ensures
                polys@ == seq![expected],
            {
                let advice_x = cells.query(x, Rotation::cur());
                let advice_y = cells.query(y, Rotation::cur());
                let out = cells.query(x, Rotation::next());
                let s = cells.query_selector(selector);
                let poly = s.mul(advice_x.add(advice_y).sub(out));
                let polys = vec![poly];
                assert(polys@ =~= seq![expected]);
                polys
            };
        meta.create_gate(ADDITION_GATE, constraints);
        proof {
            let last = meta@.gates.last();
            assert(last.polys =~= seq![addition_poly::<F>(x, y, selector)]);
            assert(last == (GateView {
                name: ADDITION_GATE,
                polys: seq![addition_poly::<F>(x, y, selector)],
            }));
        }
        TestConfig { x, y, instance, selector }
    }
}

/// The addition circuit with its witness: the two private inputs.
#[derive(Clone, Copy, Debug)]
pub struct TestCircuit<F> {
    pub x: Value<F>,
    pub y: Value<F>,
}

impl<F: Field> Default for TestCircuit<F> {
    /// The circuit without a witness.
    fn default() -> (r: Self)
        ensures
            r.x == Value::<F>::Unknown,
            r.y == Value::<F>::Unknown,
    {
        TestCircuit { x: Value::Unknown, y: Value::Unknown }
    }
}

impl<F: Field> Circuit<F> for TestCircuit<F> {
    type Config = TestConfig;

    open spec fn shape() -> SystemView<F> {
        TestConfig::configured(SystemView::<F>::empty())
    }

    open spec fn config() -> TestConfig {
        TestConfig::handles(SystemView::<F>::empty())
    }

    open spec fn blank(&self) -> Self {
        TestCircuit { x: Value::Unknown, y: Value::Unknown }
    }

    /// One region of two rows: `x` and `y` on its first row with the selector
    /// enabled, their sum below `x`; then the sum is tied to the first public
    /// input. The first step that fails decides the error.
    open spec fn synthesized(&self, config: TestConfig, before: LayoutView) -> Result<
        LayoutView,
        Error,
    > {
        let sum = add_known(self.x@, self.y@, F::modulus());
        let out = Cell { column: config.x, row: (before.next_row + 1) as usize };
        match before.opens().try_assign(ColumnKind::Advice, config.x, 0, self.x@) {
            Err(e) => Err(e),
            Ok(r1) => match r1.try_assign(ColumnKind::Advice, config.y, 0, self.y@) {
                Err(e) => Err(e),
                Ok(r2) => match r2.try_enable(config.selector, 0) {
                    Err(e) => Err(e),
                    Ok(r3) => match r3.try_assign(ColumnKind::Advice, config.x, 1, sum) {
                        Err(e) => Err(e),
                        Ok(r4) => match before.try_place(r4) {
                            Err(e) => Err(e),
                            Ok(placed) => placed.try_constrain_instance(out, config.instance, 0),
                        },
                    },
                },
            },
        }
    }

    fn without_witnesses(&self) -> (r: Self) {
        Self::default()
    }

    fn configure(meta: &mut ConstraintSystem<F>) -> (config: TestConfig) {
        TestConfig::configure(meta)
    }

    fn synthesize(&self, config: TestConfig, layouter: &mut Layouter<'_, F>) -> (r: Result<
        (),
        Error,
    >) {
        let mut region = layouter.region("Try synthesize");
        let x = match region.assign_advice(config.x, 0, self.x) {
            Ok(cell) => cell,
            Err(e) => {
                return Err(e);
            },
        };
        let y = match region.assign_advice(config.y, 0, self.y) {
            Ok(cell) => cell,
            Err(e) => {
                return Err(e);
            },
        };
        match config.selector.enable(&mut region, 0) {
            Ok(_) => {},
            Err(e) => {
                return Err(e);
            },
        }
        let value = x.value().add(&y.value());
        let out = match region.assign_advice(config.x, 1, value) {
            Ok(cell) => cell,
            Err(e) => {
                return Err(e);
            },
        };
        match layouter.assign_region(region) {
            Ok(_) => {},
            Err(e) => {
                return Err(e);
            },
        }
        layouter.constrain_instance(out.cell(), config.instance, 0)
    }
}

/// The layout that the addition circuit leaves in an empty trace of `rows`
/// rows: `x` and `y` on row 0 with the selector enabled, their sum on row 1
/// below `x`, and that cell tied to the first public input.
pub open spec fn addition_layout<F: Field>(rows: nat, x: Option<nat>, y: Option<nat>)
    -> LayoutView {
    let config = TestConfig::handles(SystemView::<F>::empty());
    let out = Cell { column: config.x, row: 1 };
    LayoutView {
        next_row: 2,
        cells: Map::empty().insert((config.x, 0nat), x).insert((config.y, 0nat), y).insert(
            (config.x, 1nat),
            add_known(x, y, F::modulus()),
        ),
        enabled: Set::empty().insert((config.selector, 0nat)),
        instance_copies: seq![InstanceEquality { cell: out, column: 0, row: 0 }],
        ..LayoutView::fresh(TestConfig::configured(SystemView::<F>::empty()), rows)
    }
}

/// Synthesizing the addition circuit in an empty trace fails for want of rows
/// where the trace has fewer than two, and else leaves the addition layout.
pub proof fn lemma_addition_synthesized<F: Field>(circuit: TestCircuit<F>, rows: nat)
    requires
        rows <= usize::MAX,
    ensures
        circuit.synthesized(
            TestCircuit::<F>::config(),
            LayoutView::fresh(TestCircuit::<F>::shape(), rows),
        ) == (if rows < 2 {
            Err::<LayoutView, Error>(Error::AssignmentError)
        } else {
            Ok::<LayoutView, Error>(addition_layout::<F>(rows, circuit.x@, circuit.y@))
        }),
{
    let config = TestCircuit::<F>::config();
    let before = LayoutView::fresh(TestCircuit::<F>::shape(), rows);
    let sum = add_known(circuit.x@, circuit.y@, F::modulus());
    if rows >= 2 {
        let r1 = before.opens().try_assign(ColumnKind::Advice, config.x, 0, circuit.x@)->Ok_0;
        let r2 = r1.try_assign(ColumnKind::Advice, config.y, 0, circuit.y@)->Ok_0;
        let r3 = r2.try_enable(config.selector, 0)->Ok_0;
        let r4 = r3.try_assign(ColumnKind::Advice, config.x, 1, sum)->Ok_0;
        let placed = before.try_place(r4)->Ok_0;
        let out = Cell { column: config.x, row: 1 };
        let after = placed.try_constrain_instance(out, config.instance, 0)->Ok_0;
        let expected = addition_layout::<F>(rows, circuit.x@, circuit.y@);
        assert(r4.cells =~= expected.cells);
        assert(r4.enabled =~= expected.enabled);
        assert(after.cells =~= expected.cells);
        assert(after.enabled =~= expected.enabled);
        assert(after.instance_copies =~= expected.instance_copies);
        assert(after == expected);
    }
}

/// What running the addition circuit comes to. The run stops with an
/// assignment error where the trace has fewer than two rows or more than the
/// machine can address, where a witness is unknown, or where the public
/// inputs are not one list that fits the trace. Else the report is empty if
/// the sum of the witnesses is the first public input, and holds the one
/// violated instance constraint, at row 1, if it is not.
pub open spec fn addition_outcome<F: Field>(
    x: Option<nat>,
    y: Option<nat>,
    k: nat,
    instance: Seq<Seq<nat>>,
) -> Result<Seq<Failure>, Error> {
    let rows = row_count(k);
    let config = TestConfig::handles(SystemView::<F>::empty());
    if rows > usize::MAX || rows < 2 || x is None || y is None || instance.len() != 1
        || instance[0].len() > rows {
        Err(Error::AssignmentError)
    } else if add_mod(x->Some_0, y->Some_0, F::modulus()) == LayoutView::input(instance, 0, 0) {
        Ok(Seq::empty())
    } else {
        Ok(
            seq![
                Failure::Instance {
                    index: 0,
                    cell: Cell { column: config.x, row: 1 },
                    column: 0,
                    row: 0,
                },
            ],
        )
    }
}

/// Running the addition circuit comes to `addition_outcome`, for every field,
/// every witness, every trace size and all public inputs.
pub proof fn lemma_addition_outcome<F: Field>(
    circuit: TestCircuit<F>,
    k: nat,
    instance: Seq<Seq<nat>>,
)
    ensures
        outcome(circuit, k, instance) == addition_outcome::<F>(circuit.x@, circuit.y@, k, instance),
{
    let rows = row_count(k);
    let config = TestCircuit::<F>::config();
    let shape = TestCircuit::<F>::shape();
    lemma_row_count_grows(k, k);
    if rows <= usize::MAX {
        lemma_addition_synthesized(circuit, rows);
    }
    if 2 <= rows <= usize::MAX {
        let layout = addition_layout::<F>(rows, circuit.x@, circuit.y@);
        let sum = add_known(circuit.x@, circuit.y@, F::modulus());
        assert(layout.cells.contains_key((config.x, 0nat)));
        assert(layout.cells.contains_key((config.y, 0nat)));
        if circuit.x@ is Some && circuit.y@ is Some && instance.len() == 1 && instance[0].len()
            <= rows {
            assert(layout.finalizable(instance));
            let t = layout.finalized(instance);
            let poly = addition_poly::<F>(config.x, config.y, config.selector);
            let a = circuit.x@->Some_0;
            let b = circuit.y@->Some_0;
            let total = add_mod(a, b, F::modulus());
            match circuit.x {
                Value::Known(v) => {
                    v.lemma_residue();
                },
                Value::Unknown => {},
            }
            reveal_with_fuel(declared, 6);
            reveal_with_fuel(enabled, 6);
            reveal_with_fuel(eval, 6);
            assert(shape.gates.len() == 1);
            assert(shape.gates[0].polys =~= seq![poly]);
            assert(declared(poly, t));
            assert(gates_declared(shape, t));
            lemma_small_mod(0, rows);
            lemma_small_mod(1, rows);
            assert(t.cell(config.x, 0) == a);
            assert(t.cell(config.y, 0) == b);
            assert(t.cell(config.x, 1) == total);
            lemma_add_neg(total, F::modulus());
            lemma_small_mod(0, F::modulus());
            let here = Expression::<F>::Cell(config.x, Rotation(0));
            let beside = Expression::<F>::Cell(config.y, Rotation(0));
            let below = Expression::<F>::Cell(config.x, Rotation(1));
            assert(rotated(0, 0, rows as int) == 0);
            assert(rotated(0, 1, rows as int) == 1);
            assert(eval(here, t, 0) == a);
            assert(eval(beside, t, 0) == b);
            assert(eval(below, t, 0) == total);
            assert(t.selector_on(config.selector, 0));
            assert(eval(Expression::<F>::Selector(config.selector), t, 0) == 1);
            assert(eval(poly, t, 0) == 0);
            assert forall|row: int, g: int, p: int|
                0 <= row < t.rows && 0 <= g < shape.gates.len() && 0 <= p
                    < shape.gates[g].polys.len() implies !#[trigger] poly_fails(
                shape,
                t,
                row,
                g,
                p,
            ) by {
                if row != 0 {
                    assert(!t.selector_on(config.selector, row));
                    assert(!enabled(shape.gates[0].polys[0], t, row));
                }
            }
            assert(countable(shape, t));
            lemma_gates_hold(shape, t);
            reveal_with_fuel(instance_failures, 3);
            assert(copy_failures(t, 0) =~= Seq::<Failure>::empty());
            assert(instance_fails(t, 0) == (total != LayoutView::input(instance, 0, 0)));
            assert(failures(shape, t) =~= instance_failures(t, 1));
            if instance_fails(t, 0) {
                assert(instance_failures(t, 1) =~= seq![instance_failure(t, 0)]);
            } else {
                assert(instance_failures(t, 1) =~= Seq::<Failure>::empty());
            }
        } else {
            if circuit.x@ is None {
                assert(layout.cells[(config.x, 0nat)] is None);
            } else if circuit.y@ is None {
                assert(layout.cells[(config.y, 0nat)] is None);
            }
            assert(!layout.finalizable(instance));
        }
    }
}

/// Where the witnesses are known and their sum is the first public input,
/// running the addition circuit reports nothing: the verdict is `Satisfied`.
pub proof fn lemma_sum_accepted<F: Field>(
    circuit: TestCircuit<F>,
    k: nat,
    instance: Seq<Seq<nat>>,
)
    requires
        2 <= row_count(k) <= usize::MAX,
        circuit.x@ is Some,
        circuit.y@ is Some,
        instance.len() == 1,
        1 <= instance[0].len() <= row_count(k),
        add_mod(circuit.x@->Some_0, circuit.y@->Some_0, F::modulus()) == instance[0][0],
    ensures
        outcome(circuit, k, instance) == Ok::<Seq<Failure>, Error>(Seq::empty()),
{
    lemma_addition_outcome(circuit, k, instance);
}

/// Where the witnesses are known and their sum is not the first public
/// input, running the addition circuit reports exactly one failure: the
/// instance constraint on the cell that holds the sum, at row 1.
pub proof fn lemma_other_sum_rejected<F: Field>(
    circuit: TestCircuit<F>,
    k: nat,
    instance: Seq<Seq<nat>>,
)
    requires
        2 <= row_count(k) <= usize::MAX,
        circuit.x@ is Some,
        circuit.y@ is Some,
        instance.len() == 1,
        1 <= instance[0].len() <= row_count(k),
        add_mod(circuit.x@->Some_0, circuit.y@->Some_0, F::modulus()) != instance[0][0],
    ensures
        outcome(circuit, k, instance) == Ok::<Seq<Failure>, Error>(
            seq![
                Failure::Instance {
                    index: 0,
                    cell: Cell { column: Column { kind: ColumnKind::Advice, index: 0 }, row: 1 },
                    column: 0,
                    row: 0,
                },
            ],
        ),
{
    lemma_addition_outcome(circuit, k, instance);
}

/// In any trace, a row on which the selector of the addition gate is enabled
/// and the cell below `x` does not hold the sum of `x` and `y` is reported as
/// a violation of that gate, by its name and at that row.
pub proof fn lemma_wrong_sum_names_gate<F: Field>(
    system: SystemView<F>,
    t: TraceView,
    g: int,
    config: TestConfig,
    row: int,
)
    requires
        countable(system, t),
        t.wf(),
        0 <= g < system.gates.len(),
        system.gates[g].polys == seq![addition_poly::<F>(config.x, config.y, config.selector)],
        0 <= row < t.rows,
        t.selector_on(config.selector, row),
        1 < F::modulus(),
        t.cell(config.x, rotated(row, 1, t.rows as int)) < F::modulus(),
        add_mod(t.cell(config.x, row), t.cell(config.y, row), F::modulus()) != t.cell(
            config.x,
            rotated(row, 1, t.rows as int),
        ),
    ensures
        failures(system, t).contains(gate_failure(system, row, g, 0)),
        gate_failure(system, row, g, 0) == (Failure::Gate {
            name: system.gates[g].name,
            gate: g as usize,
            poly: 0,
            row: row as usize,
        }),
{
    let poly = addition_poly::<F>(config.x, config.y, config.selector);
    let total = add_mod(t.cell(config.x, row), t.cell(config.y, row), F::modulus());
    let below = t.cell(config.x, rotated(row, 1, t.rows as int));
    reveal_with_fuel(enabled, 6);
    reveal_with_fuel(eval, 6);
    lemma_small_mod(row as nat, t.rows);
    lemma_sub_distinct(total, below, F::modulus());
    lemma_small_mod(add_mod(total, neg_mod(below, F::modulus()), F::modulus()), F::modulus());
    assert(system.gates[g].polys[0] == poly);
    assert(enabled(poly, t, row));
    assert(gate_active(system.gates[g], t, row));
    let here = Expression::<F>::Cell(config.x, Rotation(0));
    let beside = Expression::<F>::Cell(config.y, Rotation(0));
    let next = Expression::<F>::Cell(config.x, Rotation(1));
    assert(rotated(row, 0, t.rows as int) == row);
    assert(eval(here, t, row) == t.cell(config.x, row));
    assert(eval(beside, t, row) == t.cell(config.y, row));
    assert(eval(next, t, row) == below);
    assert(eval(Expression::<F>::Selector(config.selector), t, row) == 1);
    assert(eval(poly, t, row) != 0);
    lemma_gate_violation_reported(system, t, row, g, 0);
}

/// No trace passes for a sum that is not the public input: in any trace in
/// which the selector of the addition gate is enabled on a row and the cell
/// below `x` is tied to a public input, a sum of `x` and `y` that differs
/// from that input is reported, as a violation of the addition gate on that
/// row or of the instance constraint.
pub proof fn lemma_other_sum_never_accepted<F: Field>(
    system: SystemView<F>,
    t: TraceView,
    g: int,
    config: TestConfig,
    row: int,
    i: int,
)
    requires
        countable(system, t),
        t.wf(),
        0 <= g < system.gates.len(),
        system.gates[g].polys == seq![addition_poly::<F>(config.x, config.y, config.selector)],
        0 <= row < t.rows,
        t.selector_on(config.selector, row),
        0 <= i < t.instance_copies.len(),
        t.instance_copies[i].cell == (Cell {
            column: config.x,
            row: rotated(row, 1, t.rows as int) as usize,
        }),
        1 < F::modulus(),
        t.cell(config.x, rotated(row, 1, t.rows as int)) < F::modulus(),
        add_mod(t.cell(config.x, row), t.cell(config.y, row), F::modulus())
            != t.instance[t.instance_copies[i].column as int][t.instance_copies[i].row as int],
    ensures
        failures(system, t).contains(gate_failure(system, row, g, 0)) || failures(
            system,
            t,
        ).contains(instance_failure(t, i)),
{
    lemma_mod_bound(row + 1, t.rows as int);
    if instance_fails(t, i) {
        lemma_instance_violation_reported(system, t, i);
    } else {
        lemma_wrong_sum_names_gate(system, t, g, config, row);
    }
}

} // verus!
