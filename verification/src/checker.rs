//! The constraint checker: evaluates every gate on every row at which it is
//! active, and every equality constraint, and reports all that fail.

use vstd::prelude::*;
use vstd::arithmetic::div_mod::{
    lemma_add_mod_noop, lemma_mod_add_multiples_vanish, lemma_small_mod, lemma_sub_mod_noop,
};
use crate::error::Error;
use crate::expression::{Column, ColumnKind, Expression, Rotation};
use crate::field::{add_mod, mul_mod, neg_mod, Field};
use crate::system::{ConstraintSystem, Gate, GateView, SystemView};
use crate::trace::{Cell, Trace, TraceView};

verus! {

/// The row that a rotation of `row` reaches in a trace of `rows` rows: the
/// trace is cyclic, so rotations past either end wrap around.
pub open spec fn rotated(row: int, by: int, rows: int) -> int {
    (row + by) % rows
}

/// Whether every query of the expression names a column or a selector that
/// the trace has.
pub open spec fn declared<F: Field>(e: Expression<F>, t: TraceView) -> bool
    decreases e,
{
    match e {
        Expression::Constant(_) => true,
        Expression::Selector(s) => s.index < t.selectors.len(),
        Expression::Cell(column, _) => t.has_column(column),
        Expression::Negated(a) => declared(*a, t),
        Expression::Sum(a, b) => declared(*a, t) && declared(*b, t),
        Expression::Product(a, b) => declared(*a, t) && declared(*b, t),
    }
}

/// Whether every selector that the expression queries is enabled at `row`.
pub open spec fn enabled<F: Field>(e: Expression<F>, t: TraceView, row: int) -> bool
    decreases e,
{
    match e {
        Expression::Constant(_) => true,
        Expression::Selector(s) => t.selector_on(s, row),
        Expression::Cell(_, _) => true,
        Expression::Negated(a) => enabled(*a, t, row),
        Expression::Sum(a, b) => enabled(*a, t, row) && enabled(*b, t, row),
        Expression::Product(a, b) => enabled(*a, t, row) && enabled(*b, t, row),
    }
}

/// The residue that the expression takes at `row`.
pub open spec fn eval<F: Field>(e: Expression<F>, t: TraceView, row: int) -> nat
    decreases e,
{
    match e {
        Expression::Constant(c) => c.value(),
        Expression::Selector(s) => if t.selector_on(s, row) {
            1
        } else {
            0
        },
        Expression::Cell(column, at) => t.cell(column, rotated(row, at.0 as int, t.rows as int)),
        Expression::Negated(a) => neg_mod(eval(*a, t, row), F::modulus()),
        Expression::Sum(a, b) => add_mod(eval(*a, t, row), eval(*b, t, row), F::modulus()),
        Expression::Product(a, b) => mul_mod(eval(*a, t, row), eval(*b, t, row), F::modulus()),
    }
}

/// Whether every polynomial of every gate can be evaluated on the trace.
pub open spec fn gates_declared<F: Field>(system: SystemView<F>, t: TraceView) -> bool {
    forall|g: int, p: int|
        0 <= g < system.gates.len() && 0 <= p < system.gates[g].polys.len() ==> declared(
            #[trigger] system.gates[g].polys[p],
            t,
        )
}

/// Whether a gate is active at `row`: all the selectors that its
/// polynomials query are enabled there.
pub open spec fn gate_active<F: Field>(gate: GateView<F>, t: TraceView, row: int) -> bool {
    forall|p: int| 0 <= p < gate.polys.len() ==> enabled(#[trigger] gate.polys[p], t, row)
}

/// Whether polynomial `p` of gate `g` is violated at `row`: gate `g` is
/// active there and the polynomial does not vanish.
pub open spec fn poly_fails<F: Field>(
    system: SystemView<F>,
    t: TraceView,
    row: int,
    g: int,
    p: int,
) -> bool {
    gate_active(system.gates[g], t, row) && eval(system.gates[g].polys[p], t, row) != 0
}

/// Whether the two cells of an equality constraint hold different values.
pub open spec fn copy_fails(t: TraceView, i: int) -> bool {
    let e = t.copies[i];
    t.cell(e.left.column, e.left.row as int) != t.cell(e.right.column, e.right.row as int)
}

/// Whether a cell differs from the public input it is tied to.
pub open spec fn instance_fails(t: TraceView, i: int) -> bool {
    let e = t.instance_copies[i];
    t.cell(e.cell.column, e.cell.row as int) != t.instance[e.column as int][e.row as int]
}

/// One entry of the checker's report.
#[derive(Clone, Copy, Debug, PartialEq, Eq)]
pub enum Failure {
    /// Polynomial number `poly` of gate number `gate` does not vanish at
    /// `row`, where that gate is active.
    Gate { name: &'static str, gate: usize, poly: usize, row: usize },
    /// The cells of equality constraint number `index` differ.
    Equality { index: usize, left: Cell, right: Cell },
    /// The cell of instance constraint number `index` differs from the public
    /// input at `row` of instance column `column`.
    Instance { index: usize, cell: Cell, column: usize, row: usize },
}

impl Failure {
    /// The row of the trace at which the failure lies: the row at which the
    /// polynomial was evaluated, the row of the left cell of an equality
    /// constraint, or the row of the cell of an instance constraint.
    pub fn row(&self) -> (r: usize)
        ensures
            r == match *self {
                Failure::Gate { row, .. } => row,
                Failure::Equality { left, .. } => left.row,
                Failure::Instance { cell, .. } => cell.row,
            },
    {
        match self {
            Failure::Gate { row, .. } => *row,
            Failure::Equality { left, .. } => left.row,
            Failure::Instance { cell, .. } => cell.row,
        }
    }
}

/// The report entry for polynomial `p` of gate `g` at `row`.
pub open spec fn gate_failure<F: Field>(system: SystemView<F>, row: int, g: int, p: int) -> Failure {
    Failure::Gate { name: system.gates[g].name, gate: g as usize, poly: p as usize, row: row as usize }
}

/// The report entry for equality constraint `i`.
pub open spec fn copy_failure(t: TraceView, i: int) -> Failure {
    Failure::Equality { index: i as usize, left: t.copies[i].left, right: t.copies[i].right }
}

/// The report entry for instance constraint `i`.
pub open spec fn instance_failure(t: TraceView, i: int) -> Failure {
    let e = t.instance_copies[i];
    Failure::Instance { index: i as usize, cell: e.cell, column: e.column, row: e.row }
}

/// The entries for the first `upto` polynomials of gate `g` at `row`, the
/// gate being active there.
pub open spec fn poly_failures<F: Field>(
    system: SystemView<F>,
    t: TraceView,
    row: int,
    g: int,
    upto: int,
) -> Seq<Failure>
    decreases upto,
{
    if upto <= 0 {
        Seq::empty()
    } else {
        let earlier = poly_failures(system, t, row, g, upto - 1);
        if eval(system.gates[g].polys[upto - 1], t, row) != 0 {
            earlier.push(gate_failure(system, row, g, upto - 1))
        } else {
            earlier
        }
    }
}

/// The entries for the first `upto` gates at `row`.
pub open spec fn gate_failures<F: Field>(
    system: SystemView<F>,
    t: TraceView,
    row: int,
    upto: int,
) -> Seq<Failure>
    decreases upto,
{
    if upto <= 0 {
        Seq::empty()
    } else {
        let earlier = gate_failures(system, t, row, upto - 1);
        if gate_active(system.gates[upto - 1], t, row) {
            earlier + poly_failures(
                system,
                t,
                row,
                upto - 1,
                system.gates[upto - 1].polys.len() as int,
            )
        } else {
            earlier
        }
    }
}

/// The entries for all gates on the first `upto` rows.
pub open spec fn row_failures<F: Field>(system: SystemView<F>, t: TraceView, upto: int) -> Seq<
    Failure,
>
    decreases upto,
{
    if upto <= 0 {
        Seq::empty()
    } else {
        row_failures(system, t, upto - 1) + gate_failures(
            system,
            t,
            upto - 1,
            system.gates.len() as int,
        )
    }
}

/// The entries for the first `upto` equality constraints.
pub open spec fn copy_failures(t: TraceView, upto: int) -> Seq<Failure>
    decreases upto,
{
    if upto <= 0 {
        Seq::empty()
    } else {
        let earlier = copy_failures(t, upto - 1);
        if copy_fails(t, upto - 1) {
            earlier.push(copy_failure(t, upto - 1))
        } else {
            earlier
        }
    }
}

/// The entries for the first `upto` instance constraints.
pub open spec fn instance_failures(t: TraceView, upto: int) -> Seq<Failure>
    decreases upto,
{
    if upto <= 0 {
        Seq::empty()
    } else {
        let earlier = instance_failures(t, upto - 1);
        if instance_fails(t, upto - 1) {
            earlier.push(instance_failure(t, upto - 1))
        } else {
            earlier
        }
    }
}

/// The full report: every violated polynomial, row by row and gate by gate,
/// then every violated equality constraint, then every violated instance
/// constraint.
pub open spec fn failures<F: Field>(system: SystemView<F>, t: TraceView) -> Seq<Failure> {
    row_failures(system, t, t.rows as int) + copy_failures(t, t.copies.len() as int)
        + instance_failures(t, t.instance_copies.len() as int)
}

/// The result of checking a trace.
#[derive(Clone, Debug, PartialEq, Eq)]
pub enum Verdict {
    /// Every constraint holds.
    Satisfied,
    /// The constraints that do not hold, all of them.
    Violated(Vec<Failure>),
}

impl View for Verdict {
    type V = Seq<Failure>;

    /// The failures that the verdict lists.
    open spec fn view(&self) -> Seq<Failure> {
        match self {
            Verdict::Satisfied => Seq::empty(),
            Verdict::Violated(report) => report@,
        }
    }
}

/// The row that a rotation of `row` reaches.
pub fn rotate(row: usize, by: Rotation, rows: usize) -> (r: usize)
    requires
        row < rows,
    ensures
        r == rotated(row as int, by.0 as int, rows as int),
        r < rows,
{
    let n: u128 = rows as u128;
    if by.0 >= 0 {
        let step: u128 = (by.0 as u128) % n;
        let r: u128 = (row as u128 + step) % n;
        proof {
            lemma_add_mod_noop(row as int, by.0 as int, rows as int);
            lemma_small_mod(row as nat, rows as nat);
        }
        r as usize
    } else {
        let back: u128 = ((-(by.0 as i64)) as u128) % n;
        let r: u128 = (row as u128 + (n - back)) % n;
        proof {
            lemma_sub_mod_noop(row as int, -(by.0 as int), rows as int);
            lemma_small_mod(row as nat, rows as nat);
            lemma_mod_add_multiples_vanish(row as int - back as int, rows as int);
        }
        r as usize
    }
}

/// Whether every query of the expression names a column or a selector that
/// the trace has.
pub fn is_declared<F: Field>(e: &Expression<F>, trace: &Trace<F>) -> (b: bool)
    ensures
        b == declared(*e, trace@),
    decreases e,
{
    match e {
        Expression::Constant(_) => true,
        Expression::Selector(s) => trace.has_selector(*s),
        Expression::Cell(column, _) => trace.has_column(*column),
        Expression::Negated(a) => is_declared(a, trace),
        Expression::Sum(a, b) => is_declared(a, trace) && is_declared(b, trace),
        Expression::Product(a, b) => is_declared(a, trace) && is_declared(b, trace),
    }
}

/// Whether every selector that the expression queries is enabled at `row`.
pub fn is_enabled<F: Field>(e: &Expression<F>, trace: &Trace<F>, row: usize) -> (b: bool)
    requires
        trace@.wf(),
        declared(*e, trace@),
        row < trace@.rows,
    ensures
        b == enabled(*e, trace@, row as int),
    decreases e,
{
    match e {
        Expression::Constant(_) => true,
        Expression::Selector(s) => trace.selector_on(*s, row),
        Expression::Cell(_, _) => true,
        Expression::Negated(a) => is_enabled(a, trace, row),
        Expression::Sum(a, b) => is_enabled(a, trace, row) && is_enabled(b, trace, row),
        Expression::Product(a, b) => is_enabled(a, trace, row) && is_enabled(b, trace, row),
    }
}

/// The element that the expression takes at `row`.
pub fn evaluate<F: Field>(e: &Expression<F>, trace: &Trace<F>, row: usize) -> (v: F)
    requires
        trace@.wf(),
        declared(*e, trace@),
        row < trace@.rows,
    ensures
        v.value() == eval(*e, trace@, row as int),
    decreases e,
{
    match e {
        Expression::Constant(c) => *c,
        Expression::Selector(s) => {
            if trace.selector_on(*s, row) {
                F::one()
            } else {
                F::zero()
            }
        },
        Expression::Cell(column, at) => {
            let target = rotate(row, *at, trace.rows());
            trace.value(*column, target)
        },
        Expression::Negated(a) => evaluate(a, trace, row).neg(),
        Expression::Sum(a, b) => {
            let x = evaluate(a, trace, row);
            let y = evaluate(b, trace, row);
            x.add(&y)
        },
        Expression::Product(a, b) => {
            let x = evaluate(a, trace, row);
            let y = evaluate(b, trace, row);
            x.mul(&y)
        },
    }
}

/// Whether every polynomial of every gate can be evaluated on the trace.
pub fn all_declared<F: Field>(system: &ConstraintSystem<F>, trace: &Trace<F>) -> (b: bool)
    ensures
        b == gates_declared(system@, trace@),
{
    let gates = system.gates();
    let mut g: usize = 0;
    while g < gates.len()
        invariant
            g <= gates@.len(),
            gates@.len() == system@.gates.len(),
            forall|i: int| 0 <= i < gates@.len() ==> (#[trigger] gates@[i])@ == system@.gates[i],
            forall|i: int, p: int|
                0 <= i < g && 0 <= p < system@.gates[i].polys.len() ==> declared(
                    #[trigger] system@.gates[i].polys[p],
                    trace@,
                ),
        decreases gates@.len() - g,
    {
        let polys = gates[g].polynomials();
        let mut p: usize = 0;
        while p < polys.len()
            invariant
                p <= polys@.len(),
                g < system@.gates.len(),
                polys@ == system@.gates[g as int].polys,
                forall|q: int| 0 <= q < p ==> declared(#[trigger] polys@[q], trace@),
            decreases polys@.len() - p,
        {
            if !is_declared(&polys[p], trace) {
                assert(!declared(system@.gates[g as int].polys[p as int], trace@));
                return false;
            }
            p = p + 1;
        }
        g = g + 1;
    }
    true
}

/// Whether `gate` is active at `row`.
pub fn is_active<F: Field>(gate: &Gate<F>, trace: &Trace<F>, row: usize) -> (b: bool)
    requires
        trace@.wf(),
        row < trace@.rows,
        forall|p: int| 0 <= p < gate@.polys.len() ==> declared(#[trigger] gate@.polys[p], trace@),
    ensures
        b == gate_active(gate@, trace@, row as int),
{
    let polys = gate.polynomials();
    let mut p: usize = 0;
    while p < polys.len()
        invariant
            p <= polys@.len(),
            trace@.wf(),
            row < trace@.rows,
            polys@ == gate@.polys,
            forall|q: int| 0 <= q < polys@.len() ==> declared(#[trigger] polys@[q], trace@),
            forall|q: int| 0 <= q < p ==> enabled(#[trigger] polys@[q], trace@, row as int),
        decreases polys@.len() - p,
    {
        if !is_enabled(&polys[p], trace, row) {
            return false;
        }
        p = p + 1;
    }
    true
}

/// Appends to `report` the violated polynomials of gate `g` at `row`.
fn check_gate<F: Field>(
    system: &ConstraintSystem<F>,
    trace: &Trace<F>,
    row: usize,
    g: usize,
    report: &mut Vec<Failure>,
)
    requires
        trace@.wf(),
        gates_declared(system@, trace@),
        row < trace@.rows,
        g < system@.gates.len(),
    ensures
        final(report)@ == old(report)@ + (if gate_active(system@.gates[g as int], trace@, row as int) {
            poly_failures(
                system@,
                trace@,
                row as int,
                g as int,
                system@.gates[g as int].polys.len() as int,
            )
        } else {
            Seq::empty()
        }),
{
    let gates = system.gates();
    let gate = &gates[g];
    assert(gate@ == system@.gates[g as int]);
    if !is_active(gate, trace, row) {
        assert(report@ =~= old(report)@ + Seq::<Failure>::empty());
        return ;
    }
    let polys = gate.polynomials();
    let zero = F::zero();
    let mut p: usize = 0;
    assert(report@ =~= old(report)@ + poly_failures(system@, trace@, row as int, g as int, 0));
    while p < polys.len()
        invariant
            p <= polys@.len(),
            trace@.wf(),
            gates_declared(system@, trace@),
            row < trace@.rows,
            g < system@.gates.len(),
            gate@ == system@.gates[g as int],
            polys@ == system@.gates[g as int].polys,
            zero.value() == 0,
            report@ == old(report)@ + poly_failures(
                system@,
                trace@,
                row as int,
                g as int,
                p as int,
            ),
        decreases polys@.len() - p,
    {
        let v = evaluate(&polys[p], trace, row);
        let ghost earlier = poly_failures(system@, trace@, row as int, g as int, p as int);
        if !v.is_equal(&zero) {
            report.push(Failure::Gate { name: gate.name(), gate: g, poly: p, row });
            assert(report@ =~= old(report)@ + earlier.push(
                gate_failure(system@, row as int, g as int, p as int),
            ));
        }
        p = p + 1;
    }
}

/// Appends to `report` the violated polynomials of all gates at `row`.
fn check_row<F: Field>(
    system: &ConstraintSystem<F>,
    trace: &Trace<F>,
    row: usize,
    report: &mut Vec<Failure>,
)
    requires
        trace@.wf(),
        gates_declared(system@, trace@),
        row < trace@.rows,
    ensures
        final(report)@ == old(report)@ + gate_failures(
            system@,
            trace@,
            row as int,
            system@.gates.len() as int,
        ),
{
    let count = system.gates().len();
    let mut g: usize = 0;
    assert(report@ =~= old(report)@ + gate_failures(system@, trace@, row as int, 0));
    while g < count
        invariant
            g <= count,
            count == system@.gates.len(),
            trace@.wf(),
            gates_declared(system@, trace@),
            row < trace@.rows,
            report@ == old(report)@ + gate_failures(system@, trace@, row as int, g as int),
        decreases count - g,
    {
        let ghost before = report@;
        let ghost earlier = gate_failures(system@, trace@, row as int, g as int);
        check_gate(system, trace, row, g, report);
        proof {
            let added = if gate_active(system@.gates[g as int], trace@, row as int) {
                poly_failures(
                    system@,
                    trace@,
                    row as int,
                    g as int,
                    system@.gates[g as int].polys.len() as int,
                )
            } else {
                Seq::empty()
            };
            assert(report@ == before + added);
            assert(before + added =~= old(report)@ + (earlier + added));
            assert(earlier + Seq::<Failure>::empty() =~= earlier);
        }
        g = g + 1;
    }
}

/// Appends to `report` the violated equality constraints.
fn check_copies<F: Field>(trace: &Trace<F>, report: &mut Vec<Failure>)
    requires
        trace@.wf(),
    ensures
        final(report)@ == old(report)@ + copy_failures(trace@, trace@.copies.len() as int),
{
    let copies = trace.copies();
    let mut i: usize = 0;
    assert(report@ =~= old(report)@ + copy_failures(trace@, 0));
    while i < copies.len()
        invariant
            i <= copies@.len(),
            trace@.wf(),
            copies@ == trace@.copies,
            report@ == old(report)@ + copy_failures(trace@, i as int),
        decreases copies@.len() - i,
    {
        let e = copies[i];
        let ghost earlier = copy_failures(trace@, i as int);
        let left = trace.value(e.left.column, e.left.row);
        let right = trace.value(e.right.column, e.right.row);
        if !left.is_equal(&right) {
            report.push(Failure::Equality { index: i, left: e.left, right: e.right });
            assert(report@ =~= old(report)@ + earlier.push(copy_failure(trace@, i as int)));
        }
        i = i + 1;
    }
}

/// Appends to `report` the violated instance constraints.
fn check_instances<F: Field>(trace: &Trace<F>, report: &mut Vec<Failure>)
    requires
        trace@.wf(),
    ensures
        final(report)@ == old(report)@ + instance_failures(
            trace@,
            trace@.instance_copies.len() as int,
        ),
{
    let copies = trace.instance_copies();
    let mut i: usize = 0;
    assert(report@ =~= old(report)@ + instance_failures(trace@, 0));
    while i < copies.len()
        invariant
            i <= copies@.len(),
            trace@.wf(),
            copies@ == trace@.instance_copies,
            report@ == old(report)@ + instance_failures(trace@, i as int),
        decreases copies@.len() - i,
    {
        let e = copies[i];
        let ghost earlier = instance_failures(trace@, i as int);
        let held = trace.value(e.cell.column, e.cell.row);
        let public = trace.value(Column { kind: ColumnKind::Instance, index: e.column }, e.row);
        if !held.is_equal(&public) {
            report.push(Failure::Instance { index: i, cell: e.cell, column: e.column, row: e.row });
            assert(report@ =~= old(report)@ + earlier.push(instance_failure(trace@, i as int)));
        }
        i = i + 1;
    }
}

/// Checks a finalized trace against the constraint system.
///
/// Every gate is evaluated on every row at which it is active, then every
/// equality constraint and every instance constraint is compared; whatever
/// fails is reported, not only the first failure. A gate that queries a column
/// or a selector that the trace does not have is a configuration error, and
/// nothing is checked.
pub fn check<F: Field>(system: &ConstraintSystem<F>, trace: &Trace<F>) -> (r: Result<
    Verdict,
    Error,
>)
    requires
        trace@.wf(),
    ensures
        match r {
            Ok(verdict) => gates_declared(system@, trace@) && verdict@ == failures(
                system@,
                trace@,
            ) && (verdict is Satisfied <==> failures(system@, trace@).len() == 0),
            Err(e) => e == Error::ConfigurationError && !gates_declared(system@, trace@),
        },
{
    if !all_declared(system, trace) {
        return Err(Error::ConfigurationError);
    }
    let mut report: Vec<Failure> = Vec::new();
    let rows = trace.rows();
    let mut row: usize = 0;
    assert(report@ =~= row_failures(system@, trace@, 0));
    while row < rows
        invariant
            row <= rows,
            rows == trace@.rows,
            trace@.wf(),
            gates_declared(system@, trace@),
            report@ == row_failures(system@, trace@, row as int),
        decreases rows - row,
    {
        check_row(system, trace, row, &mut report);
        row = row + 1;
    }
    check_copies(trace, &mut report);
    check_instances(trace, &mut report);
    if report.len() == 0 {
        Ok(Verdict::Satisfied)
    } else {
        Ok(Verdict::Violated(report))
    }
}

/// Whether the trace satisfies the constraint system: no polynomial of a
/// gate is violated on any row, and every equality constraint holds.
pub open spec fn satisfied<F: Field>(system: SystemView<F>, t: TraceView) -> bool {
    &&& forall|row: int, g: int, p: int|
        0 <= row < t.rows && 0 <= g < system.gates.len() && 0 <= p < system.gates[g].polys.len()
            ==> !#[trigger] poly_fails(system, t, row, g, p)
    &&& forall|i: int| 0 <= i < t.copies.len() ==> !#[trigger] copy_fails(t, i)
    &&& forall|i: int| 0 <= i < t.instance_copies.len() ==> !#[trigger] instance_fails(t, i)
}

/// Whether `f` describes a constraint that the trace violates.
pub open spec fn violated<F: Field>(system: SystemView<F>, t: TraceView, f: Failure) -> bool {
    match f {
        Failure::Gate { name, gate, poly, row } => {
            &&& row < t.rows
            &&& gate < system.gates.len()
            &&& poly < system.gates[gate as int].polys.len()
            &&& name == system.gates[gate as int].name
            &&& poly_fails(system, t, row as int, gate as int, poly as int)
        },
        Failure::Equality { index, left, right } => {
            &&& index < t.copies.len()
            &&& f == copy_failure(t, index as int)
            &&& copy_fails(t, index as int)
        },
        Failure::Instance { index, cell, column, row } => {
            &&& index < t.instance_copies.len()
            &&& f == instance_failure(t, index as int)
            &&& instance_fails(t, index as int)
        },
    }
}

/// Whether the numbers of rows, gates, polynomials and constraints can all be
/// written in a report.
pub open spec fn countable<F: Field>(system: SystemView<F>, t: TraceView) -> bool {
    &&& t.rows <= usize::MAX
    &&& system.gates.len() <= usize::MAX
    &&& forall|g: int|
        0 <= g < system.gates.len() ==> (#[trigger] system.gates[g]).polys.len() <= usize::MAX
    &&& t.copies.len() <= usize::MAX
    &&& t.instance_copies.len() <= usize::MAX
}

proof fn lemma_contains_push<A>(s: Seq<A>, x: A, f: A)
    ensures
        s.push(x).contains(f) <==> (s.contains(f) || f == x),
{
    if s.push(x).contains(f) {
        let i = choose|i: int| 0 <= i < s.push(x).len() && s.push(x)[i] == f;
        if i < s.len() {
            assert(s[i] == f);
        }
    }
    if s.contains(f) {
        let i = choose|i: int| 0 <= i < s.len() && s[i] == f;
        assert(s.push(x)[i] == f);
    }
    if f == x {
        assert(s.push(x)[s.len() as int] == f);
    }
}

proof fn lemma_contains_concat<A>(a: Seq<A>, b: Seq<A>, f: A)
    ensures
        (a + b).contains(f) <==> (a.contains(f) || b.contains(f)),
{
    if (a + b).contains(f) {
        let i = choose|i: int| 0 <= i < (a + b).len() && (a + b)[i] == f;
        if i < a.len() {
            assert(a[i] == f);
        } else {
            assert(b[i - a.len()] == f);
        }
    }
    if a.contains(f) {
        let i = choose|i: int| 0 <= i < a.len() && a[i] == f;
        assert((a + b)[i] == f);
    }
    if b.contains(f) {
        let i = choose|i: int| 0 <= i < b.len() && b[i] == f;
        assert((a + b)[a.len() + i] == f);
    }
}

/// Whether `f` is a violated polynomial among the first `upto` of gate `g`
/// at `row`.
spec fn poly_listed<F: Field>(
    system: SystemView<F>,
    t: TraceView,
    row: int,
    g: int,
    upto: int,
    f: Failure,
) -> bool {
    match f {
        Failure::Gate { name, gate, poly, row: r } => {
            &&& r == row
            &&& gate == g
            &&& poly < upto
            &&& name == system.gates[g].name
            &&& eval(system.gates[g].polys[poly as int], t, row) != 0
        },
        _ => false,
    }
}

proof fn lemma_poly_failures<F: Field>(
    system: SystemView<F>,
    t: TraceView,
    row: int,
    g: int,
    upto: int,
    f: Failure,
)
    requires
        0 <= row <= usize::MAX,
        0 <= g <= usize::MAX,
        0 <= upto <= usize::MAX,
    ensures
        poly_failures(system, t, row, g, upto).contains(f) <==> poly_listed(
            system,
            t,
            row,
            g,
            upto,
            f,
        ),
    decreases upto,
{
    if upto > 0 {
        lemma_poly_failures(system, t, row, g, upto - 1, f);
        lemma_contains_push(
            poly_failures(system, t, row, g, upto - 1),
            gate_failure(system, row, g, upto - 1),
            f,
        );
    }
}

/// Whether `f` is a violated polynomial of one of the first `upto` gates at
/// `row`.
spec fn gate_listed<F: Field>(system: SystemView<F>, t: TraceView, row: int, upto: int, f: Failure)
    -> bool {
    match f {
        Failure::Gate { name, gate, poly, row: r } => {
            &&& r == row
            &&& gate < upto
            &&& poly < system.gates[gate as int].polys.len()
            &&& name == system.gates[gate as int].name
            &&& poly_fails(system, t, row, gate as int, poly as int)
        },
        _ => false,
    }
}

proof fn lemma_gate_failures<F: Field>(
    system: SystemView<F>,
    t: TraceView,
    row: int,
    upto: int,
    f: Failure,
)
    requires
        countable(system, t),
        0 <= row <= usize::MAX,
        0 <= upto <= system.gates.len(),
    ensures
        gate_failures(system, t, row, upto).contains(f) <==> gate_listed(system, t, row, upto, f),
    decreases upto,
{
    if upto > 0 {
        let g = upto - 1;
        let count = system.gates[g].polys.len() as int;
        lemma_gate_failures(system, t, row, g, f);
        lemma_poly_failures(system, t, row, g, count, f);
        lemma_contains_concat(
            gate_failures(system, t, row, g),
            poly_failures(system, t, row, g, count),
            f,
        );
    }
}

/// Whether `f` is a violated polynomial on one of the first `upto` rows.
spec fn row_listed<F: Field>(system: SystemView<F>, t: TraceView, upto: int, f: Failure) -> bool {
    match f {
        Failure::Gate { name, gate, poly, row } => {
            &&& row < upto
            &&& gate < system.gates.len()
            &&& poly < system.gates[gate as int].polys.len()
            &&& name == system.gates[gate as int].name
            &&& poly_fails(system, t, row as int, gate as int, poly as int)
        },
        _ => false,
    }
}

proof fn lemma_row_failures<F: Field>(system: SystemView<F>, t: TraceView, upto: int, f: Failure)
    requires
        countable(system, t),
        0 <= upto <= t.rows,
    ensures
        row_failures(system, t, upto).contains(f) <==> row_listed(system, t, upto, f),
    decreases upto,
{
    if upto > 0 {
        let count = system.gates.len() as int;
        lemma_row_failures(system, t, upto - 1, f);
        lemma_gate_failures(system, t, upto - 1, count, f);
        lemma_contains_concat(
            row_failures(system, t, upto - 1),
            gate_failures(system, t, upto - 1, count),
            f,
        );
    }
}

proof fn lemma_copy_failures(t: TraceView, upto: int, f: Failure)
    requires
        0 <= upto <= t.copies.len() <= usize::MAX,
    ensures
        copy_failures(t, upto).contains(f) <==> (f is Equality && f->Equality_index < upto && f
            == copy_failure(t, f->Equality_index as int) && copy_fails(
            t,
            f->Equality_index as int,
        )),
    decreases upto,
{
    if upto > 0 {
        lemma_copy_failures(t, upto - 1, f);
        lemma_contains_push(copy_failures(t, upto - 1), copy_failure(t, upto - 1), f);
    }
}

proof fn lemma_instance_failures(t: TraceView, upto: int, f: Failure)
    requires
        0 <= upto <= t.instance_copies.len() <= usize::MAX,
    ensures
        instance_failures(t, upto).contains(f) <==> (f is Instance && f->Instance_index < upto && f
            == instance_failure(t, f->Instance_index as int) && instance_fails(
            t,
            f->Instance_index as int,
        )),
    decreases upto,
{
    if upto > 0 {
        lemma_instance_failures(t, upto - 1, f);
        lemma_contains_push(instance_failures(t, upto - 1), instance_failure(t, upto - 1), f);
    }
}

/// The report is exact: it lists a failure if and only if the failure
/// describes a constraint that the trace violates. So every violated
/// polynomial is reported with its gate and row, every violated equality or
/// instance constraint with its number, and a gate is never reported on a row
/// at which one of its selectors is off.
pub proof fn lemma_report_exact<F: Field>(system: SystemView<F>, t: TraceView, f: Failure)
    requires
        countable(system, t),
    ensures
        failures(system, t).contains(f) <==> violated(system, t, f),
{
    let gates = row_failures(system, t, t.rows as int);
    let copies = copy_failures(t, t.copies.len() as int);
    let inputs = instance_failures(t, t.instance_copies.len() as int);
    lemma_row_failures(system, t, t.rows as int, f);
    lemma_copy_failures(t, t.copies.len() as int, f);
    lemma_instance_failures(t, t.instance_copies.len() as int, f);
    lemma_contains_concat(gates, copies, f);
    lemma_contains_concat(gates + copies, inputs, f);
}

/// The report is empty if and only if the trace satisfies the constraint
/// system.
pub proof fn lemma_empty_report<F: Field>(system: SystemView<F>, t: TraceView)
    requires
        countable(system, t),
    ensures
        failures(system, t).len() == 0 <==> satisfied(system, t),
{
    let report = failures(system, t);
    if report.len() == 0 {
        assert forall|row: int, g: int, p: int|
            0 <= row < t.rows && 0 <= g < system.gates.len() && 0 <= p
                < system.gates[g].polys.len() implies !#[trigger] poly_fails(
            system,
            t,
            row,
            g,
            p,
        ) by {
            let f = gate_failure(system, row, g, p);
            lemma_report_exact(system, t, f);
            assert(!report.contains(f));
        }
        assert forall|i: int| 0 <= i < t.copies.len() implies !#[trigger] copy_fails(t, i) by {
            let f = copy_failure(t, i);
            lemma_report_exact(system, t, f);
            assert(!report.contains(f));
        }
        assert forall|i: int| 0 <= i < t.instance_copies.len() implies !#[trigger] instance_fails(
            t,
            i,
        ) by {
            let f = instance_failure(t, i);
            lemma_report_exact(system, t, f);
            assert(!report.contains(f));
        }
    }
    if satisfied(system, t) && report.len() > 0 {
        let f = report[0];
        assert(report.contains(f));
        lemma_report_exact(system, t, f);
    }
}

/// Where no polynomial is violated, the gates contribute nothing to the
/// report.
pub proof fn lemma_gates_hold<F: Field>(system: SystemView<F>, t: TraceView)
    requires
        countable(system, t),
        forall|row: int, g: int, p: int|
            0 <= row < t.rows && 0 <= g < system.gates.len() && 0 <= p
                < system.gates[g].polys.len() ==> !#[trigger] poly_fails(system, t, row, g, p),
    ensures
        row_failures(system, t, t.rows as int) == Seq::<Failure>::empty(),
{
    let listed = row_failures(system, t, t.rows as int);
    if listed.len() > 0 {
        let f = listed[0];
        assert(listed.contains(f));
        lemma_row_failures(system, t, t.rows as int, f);
    }
    assert(listed =~= Seq::empty());
}

/// A violated polynomial of an active gate is reported, with its gate's name
/// and the row.
pub proof fn lemma_gate_violation_reported<F: Field>(
    system: SystemView<F>,
    t: TraceView,
    row: int,
    g: int,
    p: int,
)
    requires
        countable(system, t),
        0 <= row < t.rows,
        0 <= g < system.gates.len(),
        0 <= p < system.gates[g].polys.len(),
        poly_fails(system, t, row, g, p),
    ensures
        failures(system, t).contains(gate_failure(system, row, g, p)),
{
    lemma_report_exact(system, t, gate_failure(system, row, g, p));
}

/// An equality constraint whose cells differ is reported, with its number.
pub proof fn lemma_copy_violation_reported<F: Field>(system: SystemView<F>, t: TraceView, i: int)
    requires
        countable(system, t),
        0 <= i < t.copies.len(),
        copy_fails(t, i),
    ensures
        failures(system, t).contains(copy_failure(t, i)),
{
    lemma_report_exact(system, t, copy_failure(t, i));
}

/// An instance constraint whose cell differs from the public input is
/// reported, with its number, the cell and the input's place.
pub proof fn lemma_instance_violation_reported<F: Field>(
    system: SystemView<F>,
    t: TraceView,
    i: int,
)
    requires
        countable(system, t),
        0 <= i < t.instance_copies.len(),
        instance_fails(t, i),
    ensures
        failures(system, t).contains(instance_failure(t, i)),
{
    lemma_report_exact(system, t, instance_failure(t, i));
}

/// Selector gating, row by row: on a row at which one of its selectors is off
/// a gate is inert, and the report holds no failure of that gate at that row,
/// whatever the cells hold.
pub proof fn lemma_inactive_gate_not_reported<F: Field>(
    system: SystemView<F>,
    t: TraceView,
    row: int,
    g: int,
    f: Failure,
)
    requires
        countable(system, t),
        0 <= row < t.rows,
        0 <= g < system.gates.len(),
        !gate_active(system.gates[g], t, row),
        f is Gate,
        f->Gate_gate == g,
        f->Gate_row == row,
    ensures
        !failures(system, t).contains(f),
{
    lemma_report_exact(system, t, f);
}

/// Selector gating: a trace on which no gate is active on any row, and whose
/// equality constraints hold, satisfies the constraint system, whatever its
/// cells hold.
pub proof fn lemma_inactive_gates_satisfied<F: Field>(system: SystemView<F>, t: TraceView)
    requires
        countable(system, t),
        forall|row: int, g: int|
            0 <= row < t.rows && 0 <= g < system.gates.len() ==> !#[trigger] gate_active(
                system.gates[g],
                t,
                row,
            ),
        forall|i: int| 0 <= i < t.copies.len() ==> !#[trigger] copy_fails(t, i),
        forall|i: int| 0 <= i < t.instance_copies.len() ==> !#[trigger] instance_fails(t, i),
    ensures
        failures(system, t).len() == 0,
{
    lemma_empty_report(system, t);
}

} // verus!
