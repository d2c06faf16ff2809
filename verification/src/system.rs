//! The constraint system: the registry of columns, selectors and gates that a
//! circuit declares once, before any witness is assigned.

use vstd::prelude::*;
use crate::error::Error;
use crate::expression::{Column, ColumnKind, Expression, Rotation, Selector};
use crate::field::Field;

verus! {

/// A named list of polynomials that must all vanish on every row at which the
/// gate's selectors are enabled.
#[derive(Debug)]
pub struct Gate<F> {
    name: &'static str,
    polys: Vec<Expression<F>>,
}

/// The mathematical content of a gate.
pub struct GateView<F> {
    pub name: &'static str,
    pub polys: Seq<Expression<F>>,
}

impl<F: Field> View for Gate<F> {
    type V = GateView<F>;

    closed spec fn view(&self) -> GateView<F> {
        GateView { name: self.name, polys: self.polys@ }
    }
}

impl<F: Field> Gate<F> {
    /// The name under which this gate was registered.
    pub fn name(&self) -> (r: &'static str)
        ensures
            r == self@.name,
    {
        self.name
    }

    /// The polynomials of this gate.
    pub fn polynomials(&self) -> (r: &Vec<Expression<F>>)
        ensures
            r@ == self@.polys,
    {
        &self.polys
    }
}

/// The mathematical content of a constraint system.
pub struct SystemView<F> {
    /// The number of advice columns.
    pub num_advice: nat,
    /// The number of instance columns.
    pub num_instance: nat,
    /// The number of fixed columns.
    pub num_fixed: nat,
    /// The number of selectors.
    pub num_selectors: nat,
    /// The columns whose cells equality constraints may name.
    pub equality: Set<Column>,
    /// The gates, in the order of their registration.
    pub gates: Seq<GateView<F>>,
}

impl<F> SystemView<F> {
    /// The system in which nothing has been declared.
    pub open spec fn empty() -> SystemView<F> {
        SystemView {
            num_advice: 0,
            num_instance: 0,
            num_fixed: 0,
            num_selectors: 0,
            equality: Set::empty(),
            gates: Seq::empty(),
        }
    }

    /// Whether the system has the column.
    pub open spec fn declares(&self, column: Column) -> bool {
        match column.kind {
            ColumnKind::Advice => column.index < self.num_advice,
            ColumnKind::Instance => column.index < self.num_instance,
            ColumnKind::Fixed => column.index < self.num_fixed,
        }
    }

    /// Only declared columns have equality enabled.
    pub open spec fn wf(&self) -> bool {
        forall|c: Column| self.equality.contains(c) ==> self.declares(c)
    }
}

/// The query interface that a gate's constraints are built with.
pub struct VirtualCells;

impl VirtualCells {
    /// The value of `column` at `at`, relative to the current row.
    pub fn query<F: Field>(&self, column: Column, at: Rotation) -> (r: Expression<F>)
        ensures
            r == Expression::<F>::Cell(column, at),
    {
        Expression::Cell(column, at)
    }

    /// The value of `selector` at the current row.
    pub fn query_selector<F: Field>(&self, selector: Selector) -> (r: Expression<F>)
        ensures
            r == Expression::<F>::Selector(selector),
    {
        Expression::Selector(selector)
    }
}

/// The registry of everything a circuit declares.
pub struct ConstraintSystem<F> {
    advice_equality: Vec<bool>,
    instance_equality: Vec<bool>,
    fixed_equality: Vec<bool>,
    num_selectors: usize,
    gates: Vec<Gate<F>>,
}

impl<F: Field> View for ConstraintSystem<F> {
    type V = SystemView<F>;

    closed spec fn view(&self) -> SystemView<F> {
        SystemView {
            num_advice: self.advice_equality@.len(),
            num_instance: self.instance_equality@.len(),
            num_fixed: self.fixed_equality@.len(),
            num_selectors: self.num_selectors as nat,
            equality: Set::new(|c: Column| self.flag(c)),
            gates: Seq::new(self.gates@.len(), |i: int| self.gates@[i]@),
        }
    }
}

impl<F: Field> ConstraintSystem<F> {
    /// Whether `column` is declared and has equality enabled.
    closed spec fn flag(&self, column: Column) -> bool {
        match column.kind {
            ColumnKind::Advice => column.index < self.advice_equality@.len()
                && self.advice_equality@[column.index as int],
            ColumnKind::Instance => column.index < self.instance_equality@.len()
                && self.instance_equality@[column.index as int],
            ColumnKind::Fixed => column.index < self.fixed_equality@.len()
                && self.fixed_equality@[column.index as int],
        }
    }

    /// Every constraint system is well formed.
    pub proof fn lemma_wf(&self)
        ensures
            self@.wf(),
    {
    }

    /// A system in which nothing has been declared.
    pub fn new() -> (r: Self)
        ensures
            r@ == SystemView::<F>::empty(),
    {
        let r = ConstraintSystem {
            advice_equality: Vec::new(),
            instance_equality: Vec::new(),
            fixed_equality: Vec::new(),
            num_selectors: 0,
            gates: Vec::new(),
        };
        assert(r@.equality =~= Set::empty());
        assert(r@.gates =~= Seq::empty());
        r
    }

    /// Declares a new advice column.
    pub fn add_advice_column(&mut self) -> (column: Column)
        ensures
            column == (Column { kind: ColumnKind::Advice, index: old(self)@.num_advice as usize }),
            column.index == old(self)@.num_advice,
            final(self)@ == (SystemView { num_advice: old(self)@.num_advice + 1, ..old(self)@ }),
    {
        let index = self.advice_equality.len();
        self.advice_equality.push(false);
        assert(self@.equality =~= old(self)@.equality);
        assert(self@.gates =~= old(self)@.gates);
        Column { kind: ColumnKind::Advice, index }
    }

    /// Declares a new instance column.
    pub fn add_instance_column(&mut self) -> (column: Column)
        ensures
            column == (Column {
                kind: ColumnKind::Instance,
                index: old(self)@.num_instance as usize,
            }),
            column.index == old(self)@.num_instance,
            final(self)@ == (SystemView { num_instance: old(self)@.num_instance + 1, ..old(self)@ }),
    {
        let index = self.instance_equality.len();
        self.instance_equality.push(false);
        assert(self@.equality =~= old(self)@.equality);
        assert(self@.gates =~= old(self)@.gates);
        Column { kind: ColumnKind::Instance, index }
    }

    /// Declares a new fixed column.
    pub fn add_fixed_column(&mut self) -> (column: Column)
        ensures
            column == (Column { kind: ColumnKind::Fixed, index: old(self)@.num_fixed as usize }),
            column.index == old(self)@.num_fixed,
            final(self)@ == (SystemView { num_fixed: old(self)@.num_fixed + 1, ..old(self)@ }),
    {
        let index = self.fixed_equality.len();
        self.fixed_equality.push(false);
        assert(self@.equality =~= old(self)@.equality);
        assert(self@.gates =~= old(self)@.gates);
        Column { kind: ColumnKind::Fixed, index }
    }

    /// Declares a new selector, unless the machine cannot count one more.
    pub fn add_selector(&mut self) -> (selector: Selector)
        requires
            old(self)@.num_selectors < usize::MAX,
        ensures
            selector.index == old(self)@.num_selectors,
            final(self)@ == (SystemView {
                num_selectors: old(self)@.num_selectors + 1,
                ..old(self)@
            }),
    {
        let index = self.num_selectors;
        self.num_selectors = index + 1;
        assert(self@.equality =~= old(self)@.equality);
        assert(self@.gates =~= old(self)@.gates);
        Selector { index }
    }

    /// Whether the system has the column.
    pub fn declares(&self, column: Column) -> (b: bool)
        ensures
            b == self@.declares(column),
    {
        match column.kind {
            ColumnKind::Advice => column.index < self.advice_equality.len(),
            ColumnKind::Instance => column.index < self.instance_equality.len(),
            ColumnKind::Fixed => column.index < self.fixed_equality.len(),
        }
    }

    /// Allows equality constraints to name the cells of `column`. Enabling a
    /// column twice changes nothing; a column that was never declared is a
    /// configuration error and leaves the system as it was.
    pub fn enable_equality(&mut self, column: Column) -> (r: Result<(), Error>)
        ensures
            old(self)@.declares(column) ==> r is Ok && final(self)@ == (SystemView {
                equality: old(self)@.equality.insert(column),
                ..old(self)@
            }),
            !old(self)@.declares(column) ==> r == Err::<(), Error>(Error::ConfigurationError)
                && final(self)@ == old(self)@,
    {
        if !self.declares(column) {
            return Err(Error::ConfigurationError);
        }
        match column.kind {
            ColumnKind::Advice => {
                self.advice_equality[column.index] = true;
            },
            ColumnKind::Instance => {
                self.instance_equality[column.index] = true;
            },
            ColumnKind::Fixed => {
                self.fixed_equality[column.index] = true;
            },
        }
        assert(self@.equality =~= old(self)@.equality.insert(column));
        assert(self@.gates =~= old(self)@.gates);
        Ok(())
    }

    /// Whether equality constraints may name the cells of `column`.
    pub fn equality_enabled(&self, column: Column) -> (b: bool)
        ensures
            b == self@.equality.contains(column),
    {
        match column.kind {
            ColumnKind::Advice => column.index < self.advice_equality.len()
                && self.advice_equality[column.index],
            ColumnKind::Instance => column.index < self.instance_equality.len()
                && self.instance_equality[column.index],
            ColumnKind::Fixed => column.index < self.fixed_equality.len()
                && self.fixed_equality[column.index],
        }
    }

    /// Registers a gate. `constraints` is handed the query interface and
    /// returns the polynomials that must vanish wherever this gate is active.
    /// Nothing is checked here: a polynomial that queries a column the system
    /// does not have is found when this gate is evaluated.
    pub fn create_gate<G>(&mut self, name: &'static str, constraints: G)
        where G: FnOnce(&VirtualCells) -> Vec<Expression<F>>
        requires
            call_requires(constraints, (&VirtualCells,)),
        ensures
            final(self)@.gates.len() == old(self)@.gates.len() + 1,
            final(self)@.gates.last().name == name,
            exists|polys: Vec<Expression<F>>|
                call_ensures(constraints, (&VirtualCells,), polys)
                && final(self)@.gates.last().polys == polys@,
            final(self)@ == (SystemView {
                gates: old(self)@.gates.push(final(self)@.gates.last()),
                ..old(self)@
            }),
    {
        let cells = VirtualCells;
        let polys = constraints(&cells);
        self.gates.push(Gate { name, polys });
        assert(self@.equality =~= old(self)@.equality);
        assert(self@.gates =~= old(self)@.gates.push(self@.gates.last()));
    }

    /// The number of advice columns.
    pub fn num_advice_columns(&self) -> (n: usize)
        ensures
            n == self@.num_advice,
    {
        self.advice_equality.len()
    }

    /// The number of instance columns.
    pub fn num_instance_columns(&self) -> (n: usize)
        ensures
            n == self@.num_instance,
    {
        self.instance_equality.len()
    }

    /// The number of fixed columns.
    pub fn num_fixed_columns(&self) -> (n: usize)
        ensures
            n == self@.num_fixed,
    {
        self.fixed_equality.len()
    }

    /// The number of selectors.
    pub fn num_selectors(&self) -> (n: usize)
        ensures
            n == self@.num_selectors,
    {
        self.num_selectors
    }

    /// The gates, in the order of their registration.
    pub fn gates(&self) -> (r: &Vec<Gate<F>>)
        ensures
            r@.len() == self@.gates.len(),
            forall|i: int| 0 <= i < r@.len() ==> (#[trigger] r@[i])@ == self@.gates[i],
    {
        &self.gates
    }
}

} // verus!
